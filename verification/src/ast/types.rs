//! Type specifications, as the source writes types, and type declarations.

use crate::ast::common::{
    DocString, Ident, ident_at, ident_tokens, lemma_ident_spelled, lemma_opt_doc_string_spelled,
    lemma_pragmas_spelled, lemma_universe_spelled, opt_doc_string_at, opt_doc_string_tokens,
    parse_ident, parse_opt_doc_string, parse_pragmas, parse_universe, Pragma, pragmas_at,
    pragmas_tokens, PragmaView, Universe, universe_at, universe_tokens,
};
use crate::ast::grammar::{
    close, closing, complete, expect, fail, kind_at, lemma_spelled_more, lemma_spelled_nothing,
    lemma_spelled_then, lemma_spelled_token, Listed, listed, missing, Parsed, parsed,
    parsed_whole, ParseError, ParseFailure, peek, plain, spelled, token_at, unexpected, views,
    whole,
};
use crate::lexer::{Token, TokenKind, TokenView};
use vstd::prelude::*;

verus! {

/// A type as the source writes it: a name, a name with arguments, or a reference or span with its referent and its region.
#[derive(Debug, PartialEq, Eq, Hash)]
pub enum TypeSpec {
    Simple { name: Ident },
    Generic { name: Ident, type_params: Vec<TypeSpec> },
    BorrowRead { lhs: Box<TypeSpec>, rhs: Box<TypeSpec> },
    BorrowWrite { lhs: Box<TypeSpec>, rhs: Box<TypeSpec> },
    SpanRead { lhs: Box<TypeSpec>, rhs: Box<TypeSpec> },
    SpanWrite { lhs: Box<TypeSpec>, rhs: Box<TypeSpec> },
}

/// A value of `TypeSpec` as plain data.
pub enum TypeSpecView {
    Simple { name: Seq<char> },
    Generic { name: Seq<char>, type_params: Seq<TypeSpecView> },
    BorrowRead { lhs: Box<TypeSpecView>, rhs: Box<TypeSpecView> },
    BorrowWrite { lhs: Box<TypeSpecView>, rhs: Box<TypeSpecView> },
    SpanRead { lhs: Box<TypeSpecView>, rhs: Box<TypeSpecView> },
    SpanWrite { lhs: Box<TypeSpecView>, rhs: Box<TypeSpecView> },
}

impl TypeSpec {
    /// The value as plain data.
    pub open spec fn model(self) -> TypeSpecView
        decreases self,
    {
        match self {
            TypeSpec::Simple { name } => TypeSpecView::Simple { name: name.deep_view() },
            TypeSpec::Generic { name, type_params } => TypeSpecView::Generic {
                name: name.deep_view(),
                type_params: Seq::new(
                    type_params.len() as nat,
                    |i: int| if 0 <= i < type_params.len() { type_params[i].model() } else { arbitrary() },
                ),
            },
            TypeSpec::BorrowRead { lhs, rhs } => TypeSpecView::BorrowRead {
                lhs: Box::new((*lhs).model()),
                rhs: Box::new((*rhs).model()),
            },
            TypeSpec::BorrowWrite { lhs, rhs } => TypeSpecView::BorrowWrite {
                lhs: Box::new((*lhs).model()),
                rhs: Box::new((*rhs).model()),
            },
            TypeSpec::SpanRead { lhs, rhs } => TypeSpecView::SpanRead {
                lhs: Box::new((*lhs).model()),
                rhs: Box::new((*rhs).model()),
            },
            TypeSpec::SpanWrite { lhs, rhs } => TypeSpecView::SpanWrite {
                lhs: Box::new((*lhs).model()),
                rhs: Box::new((*rhs).model()),
            },
        }
    }
}

impl DeepView for TypeSpec {
    type V = TypeSpecView;

    open spec fn deep_view(&self) -> TypeSpecView {
        self.model()
    }
}

    /// The kinds of token that a type specification can start with.
    pub open spec fn type_spec_starts() -> Seq<TokenKind> {
        seq![
            TokenKind::Ident,
            TokenKind::BorrowRead,
            TokenKind::BorrowWrite,
            TokenKind::SpanRead,
            TokenKind::SpanWrite,
        ]
    }

    /// The kinds of token that a type specification can start with.
    pub fn type_spec_starts_list() -> (kinds: Vec<TokenKind>)
        ensures
            kinds@ == type_spec_starts(),
    {
        let mut kinds: Vec<TokenKind> = Vec::new();
        kinds.push(TokenKind::Ident);
        kinds.push(TokenKind::BorrowRead);
        kinds.push(TokenKind::BorrowWrite);
        kinds.push(TokenKind::SpanRead);
        kinds.push(TokenKind::SpanWrite);
        assert(kinds@ =~= type_spec_starts());
        kinds
    }

/// The rule of type specifications: `Name`, `Name[T, ...]`, `&[T, R]`,
/// `&![T, R]`, `Span[T, R]` and `Span![T, R]`.
#[verifier::opaque]
pub open spec fn type_spec_at(ts: Seq<Token>, pos: int) -> Parsed<TypeSpecView>
    decreases ts.len() - pos, 0int,
{
    match token_at(ts, pos) {
        Some(Token::Ident(name)) => if kind_at(ts, pos + 1) == TokenKind::LBracket {
            let list = type_specs_at(ts, pos + 2, Seq::empty());
            match closing(ts, pos + 2 + list.taken, TokenKind::RBracket, list.stopped) {
                Some(f) => Err(f),
                None => Ok(
                    (
                        TypeSpecView::Generic { name: name@, type_params: list.items },
                        list.taken + 3,
                    ),
                ),
            }
        } else {
            Ok((TypeSpecView::Simple { name: name@ }, 1))
        },
        Some(Token::BorrowRead) => match type_pair_at(ts, pos + 1) {
            Ok((pair, n)) => Ok(
                (TypeSpecView::BorrowRead { lhs: Box::new(pair.0), rhs: Box::new(pair.1) }, n + 1),
            ),
            Err(f) => Err(f),
        },
        Some(Token::BorrowWrite) => match type_pair_at(ts, pos + 1) {
            Ok((pair, n)) => Ok(
                (TypeSpecView::BorrowWrite { lhs: Box::new(pair.0), rhs: Box::new(pair.1) }, n + 1),
            ),
            Err(f) => Err(f),
        },
        Some(Token::SpanRead) => match type_pair_at(ts, pos + 1) {
            Ok((pair, n)) => Ok(
                (TypeSpecView::SpanRead { lhs: Box::new(pair.0), rhs: Box::new(pair.1) }, n + 1),
            ),
            Err(f) => Err(f),
        },
        Some(Token::SpanWrite) => match type_pair_at(ts, pos + 1) {
            Ok((pair, n)) => Ok(
                (TypeSpecView::SpanWrite { lhs: Box::new(pair.0), rhs: Box::new(pair.1) }, n + 1),
            ),
            Err(f) => Err(f),
        },
        _ => fail(pos, type_spec_starts()),
    }
}

/// The two arguments of a reference or span type: `[T, R]`, with no comma
/// after the second.
#[verifier::opaque]
pub open spec fn type_pair_at(ts: Seq<Token>, pos: int) -> Parsed<(TypeSpecView, TypeSpecView)>
    decreases ts.len() - pos, 1int,
{
    if kind_at(ts, pos) != TokenKind::LBracket {
        fail(pos, seq![TokenKind::LBracket])
    } else {
        match type_spec_at(ts, pos + 1) {
            Err(f) => Err(f),
            Ok((lhs, n1)) => if kind_at(ts, pos + 1 + n1) != TokenKind::Comma {
                fail(pos + 1 + n1, seq![TokenKind::Comma])
            } else {
                match type_spec_at(ts, pos + n1 + 2) {
                    Err(f) => Err(f),
                    Ok((rhs, n2)) => if kind_at(ts, pos + n1 + n2 + 2) != TokenKind::RBracket {
                        fail(pos + n1 + n2 + 2, seq![TokenKind::RBracket])
                    } else {
                        Ok(((lhs, rhs), n1 + n2 + 3))
                    },
                }
            },
        }
    }
}

/// The arguments of a generic type: type specifications separated by commas, where a comma may follow the last.
#[verifier::opaque]
pub open spec fn type_specs_at(
    ts: Seq<Token>,
    pos: int,
    acc: Seq<TypeSpecView>,
) -> Listed<TypeSpecView>
    decreases ts.len() - pos, 1int,
{
    match type_spec_at(ts, pos) {
        Err(f) => Listed { items: acc, taken: 0, stopped: f },
        Ok((item, n)) => if kind_at(ts, pos + n) == TokenKind::Comma {
            type_specs_at(ts, pos + n + 1, acc.push(item)).advance(n + 1)
        } else {
            Listed {
                items: acc.push(item),
                taken: n,
                stopped: ParseFailure { at: pos + n, expected: seq![TokenKind::Comma] },
            }
        },
    }
}

/// Parses the items of a list from a position by the rule `type_specs_at`: the
/// items, the position after them, and the failure that ended the list.
pub fn parse_type_specs(ts: &[Token], pos: usize) -> (r: (Vec<TypeSpec>, usize, ParseError))
    requires
        pos <= ts.len(),
    ensures
        listed(r, pos, ts.len(), type_specs_at(ts@, pos as int, Seq::empty())),
    decreases ts.len() - pos, 1int,
{
    let mut items: Vec<TypeSpec> = Vec::new();
    let mut cur: usize = pos;
    let mut stopped: Option<ParseError> = None;
    assert(items.deep_view() =~= Seq::empty());
    while stopped.is_none()
        invariant
            pos <= cur <= ts.len(),
            stopped is None ==> type_specs_at(ts@, pos as int, Seq::empty()) == type_specs_at(
                ts@,
                cur as int,
                items.deep_view(),
            ).advance((cur - pos) as nat),
            stopped is Some ==> type_specs_at(ts@, pos as int, Seq::empty()) == (Listed {
                items: items.deep_view(),
                taken: (cur - pos) as nat,
                stopped: stopped->0@,
            }),
        decreases ts.len() - cur + (if stopped is None { 1int } else { 0int }),
    {
        proof {
            reveal(type_specs_at);
            reveal(type_spec_at);
        }
        match parse_type_spec(ts, cur) {
            Err(e) => {
                stopped = Some(e);
            },
            Ok((item, p)) => {
                let ghost before = items.deep_view();
                let ghost added = item.deep_view();
                items.push(item);
                assert(items.deep_view() =~= before.push(added));
                if peek(ts, p) == TokenKind::Comma {
                    cur = p + 1;
                } else {
                    cur = p;
                    stopped = Some(missing(p, TokenKind::Comma));
                }
            },
        }
    }
    (items, cur, stopped.unwrap())
}

/// Parses by the rule `type_spec_at` at a position: the value and the position
/// after it, or the failure.
pub fn parse_type_spec(ts: &[Token], pos: usize) -> (r: Result<(TypeSpec, usize), ParseError>)
    requires
        pos <= ts.len(),
    ensures
        parsed(r, pos, ts.len(), type_spec_at(ts@, pos as int)),
        r is Ok ==> r->Ok_0.1 > pos,
    decreases ts.len() - pos, 0int,
{
    proof {
        reveal(type_spec_at);
        reveal(type_specs_at);
        reveal(type_pair_at);
    }
    if pos >= ts.len() {
        return Err(unexpected(pos, type_spec_starts_list()));
    }
    match &ts[pos] {
        Token::Ident(name) => {
            if peek(ts, pos + 1) == TokenKind::LBracket {
                let (items, p, stopped) = parse_type_specs(ts, pos + 2);
                let end = close(ts, p, TokenKind::RBracket, stopped)?;
                let ghost args = items.deep_view();
                let node = TypeSpec::Generic {
                    name: Ident { name: name.clone() },
                    type_params: items,
                };
                assert(node.deep_view()->Generic_type_params =~= args);
                Ok((node, end))
            } else {
                Ok((TypeSpec::Simple { name: Ident { name: name.clone() } }, pos + 1))
            }
        },
        Token::BorrowRead => {
            let ((lhs, rhs), p) = parse_type_pair(ts, pos + 1)?;
            Ok((TypeSpec::BorrowRead { lhs: Box::new(lhs), rhs: Box::new(rhs) }, p))
        },
        Token::BorrowWrite => {
            let ((lhs, rhs), p) = parse_type_pair(ts, pos + 1)?;
            Ok((TypeSpec::BorrowWrite { lhs: Box::new(lhs), rhs: Box::new(rhs) }, p))
        },
        Token::SpanRead => {
            let ((lhs, rhs), p) = parse_type_pair(ts, pos + 1)?;
            Ok((TypeSpec::SpanRead { lhs: Box::new(lhs), rhs: Box::new(rhs) }, p))
        },
        Token::SpanWrite => {
            let ((lhs, rhs), p) = parse_type_pair(ts, pos + 1)?;
            Ok((TypeSpec::SpanWrite { lhs: Box::new(lhs), rhs: Box::new(rhs) }, p))
        },
        _ => Err(unexpected(pos, type_spec_starts_list())),
    }
}

fn parse_type_pair(
    ts: &[Token],
    pos: usize,
) -> (r: Result<((TypeSpec, TypeSpec), usize), ParseError>)
    requires
        pos <= ts.len(),
    ensures
        parsed(r, pos, ts.len(), type_pair_at(ts@, pos as int)),
    decreases ts.len() - pos, 1int,
{
    proof {
        reveal(type_pair_at);
        reveal(type_spec_at);
    }
    let p0 = expect(ts, pos, TokenKind::LBracket)?;
    let (lhs, p1) = parse_type_spec(ts, p0)?;
    let p2 = expect(ts, p1, TokenKind::Comma)?;
    let (rhs, p3) = parse_type_spec(ts, p2)?;
    let p4 = expect(ts, p3, TokenKind::RBracket)?;
    Ok(((lhs, rhs), p4))
}

impl TypeSpec {
    /// Parses the whole of `tokens` by the rule `type_spec_at`.
    pub fn parser(tokens: &[Token]) -> (r: Result<TypeSpec, ParseError>)
        ensures
            parsed_whole(r, whole(type_spec_at(tokens@, 0), tokens@.len())),
    {
        complete(parse_type_spec(tokens, 0), tokens.len(), Ghost(type_spec_at(tokens@, 0)))
    }
}

/// A type specification as tokens.
pub open spec fn type_spec_tokens(v: TypeSpecView) -> Seq<TokenView>
    decreases v,
{
    match v {
        TypeSpecView::Simple { name } => seq![TokenView::Ident(name)],
        TypeSpecView::Generic { name, type_params } => seq![TokenView::Ident(name)] + plain(
            TokenKind::LBracket,
        ) + type_specs_tokens(type_params, 0) + plain(TokenKind::RBracket),
        TypeSpecView::BorrowRead { lhs, rhs } => plain(TokenKind::BorrowRead) + pair_tokens(
            type_spec_tokens(*lhs),
            type_spec_tokens(*rhs),
        ),
        TypeSpecView::BorrowWrite { lhs, rhs } => plain(TokenKind::BorrowWrite) + pair_tokens(
            type_spec_tokens(*lhs),
            type_spec_tokens(*rhs),
        ),
        TypeSpecView::SpanRead { lhs, rhs } => plain(TokenKind::SpanRead) + pair_tokens(
            type_spec_tokens(*lhs),
            type_spec_tokens(*rhs),
        ),
        TypeSpecView::SpanWrite { lhs, rhs } => plain(TokenKind::SpanWrite) + pair_tokens(
            type_spec_tokens(*lhs),
            type_spec_tokens(*rhs),
        ),
    }
}

/// The two arguments of a reference or span type as tokens, from the
/// tokens of each.
pub open spec fn pair_tokens(lhs: Seq<TokenView>, rhs: Seq<TokenView>) -> Seq<TokenView> {
    plain(TokenKind::LBracket) + lhs + plain(TokenKind::Comma) + rhs + plain(TokenKind::RBracket)
}

/// What a type specification was read from is what it prints as, unless a
/// comma after the last argument of a generic type was read too.
pub proof fn lemma_type_spec_spelled(ts: Seq<Token>, pos: int)
    requires
        0 <= pos,
        type_spec_at(ts, pos) is Ok,
    ensures
        spelled(
            ts,
            pos,
            type_spec_at(ts, pos)->Ok_0.1,
            type_spec_tokens(type_spec_at(ts, pos)->Ok_0.0),
        ),
    decreases ts.len() - pos, 0int,
{
    reveal(type_spec_at);
    reveal(type_specs_at);
    reveal(type_pair_at);
    match token_at(ts, pos) {
        Some(Token::Ident(name)) => {
            assert(seq![TokenView::Ident(name@)] =~= views(ts, pos, 1));
            assert(spelled(ts, pos, 1, seq![TokenView::Ident(name@)]));
            if kind_at(ts, pos + 1) == TokenKind::LBracket {
                let list = type_specs_at(ts, pos + 2, Seq::empty());
                lemma_spelled_token(ts, pos + 1, TokenKind::LBracket);
                lemma_spelled_then(
                    ts,
                    pos,
                    1,
                    seq![TokenView::Ident(name@)],
                    1,
                    plain(TokenKind::LBracket),
                );
                lemma_type_specs_spelled(ts, pos + 2, Seq::empty());
                let head = seq![TokenView::Ident(name@)] + plain(TokenKind::LBracket);
                lemma_spelled_then(ts, pos, 2, head, list.taken, type_specs_tokens(list.items, 0));
                lemma_spelled_token(ts, pos + 2 + list.taken, TokenKind::RBracket);
                lemma_spelled_then(
                    ts,
                    pos,
                    2 + list.taken,
                    head + type_specs_tokens(list.items, 0),
                    1,
                    plain(TokenKind::RBracket),
                );
            }
        },
        Some(Token::BorrowRead) => {
            lemma_pair_spelled(ts, pos, TokenKind::BorrowRead);
        },
        Some(Token::BorrowWrite) => {
            lemma_pair_spelled(ts, pos, TokenKind::BorrowWrite);
        },
        Some(Token::SpanRead) => {
            lemma_pair_spelled(ts, pos, TokenKind::SpanRead);
        },
        Some(Token::SpanWrite) => {
            lemma_pair_spelled(ts, pos, TokenKind::SpanWrite);
        },
        _ => {},
    }
}

/// The same of a reference or span type, whose first token is of kind
/// `kind`.
proof fn lemma_pair_spelled(ts: Seq<Token>, pos: int, kind: TokenKind)
    requires
        0 <= pos,
        kind_at(ts, pos) == kind,
        kind == TokenKind::BorrowRead || kind == TokenKind::BorrowWrite || kind == TokenKind::SpanRead
            || kind == TokenKind::SpanWrite,
        type_pair_at(ts, pos + 1) is Ok,
    ensures
        spelled(
            ts,
            pos,
            type_pair_at(ts, pos + 1)->Ok_0.1 + 1,
            plain(kind) + pair_tokens(
                type_spec_tokens(type_pair_at(ts, pos + 1)->Ok_0.0.0),
                type_spec_tokens(type_pair_at(ts, pos + 1)->Ok_0.0.1),
            ),
        ),
    decreases ts.len() - pos - 1, 1int,
{
    reveal(type_pair_at);
    reveal(type_spec_at);
    let (lhs, n1) = type_spec_at(ts, pos + 2)->Ok_0;
    let (rhs, n2) = type_spec_at(ts, pos + n1 + 3)->Ok_0;
    lemma_spelled_token(ts, pos, kind);
    lemma_spelled_token(ts, pos + 1, TokenKind::LBracket);
    lemma_type_spec_spelled(ts, pos + 2);
    lemma_spelled_token(ts, pos + 2 + n1, TokenKind::Comma);
    lemma_type_spec_spelled(ts, pos + n1 + 3);
    lemma_spelled_token(ts, pos + n1 + n2 + 3, TokenKind::RBracket);
    let a = plain(TokenKind::LBracket);
    lemma_spelled_then(ts, pos + 1, 1, a, n1, type_spec_tokens(lhs));
    let b = a + type_spec_tokens(lhs);
    lemma_spelled_then(ts, pos + 1, 1 + n1, b, 1, plain(TokenKind::Comma));
    let c = b + plain(TokenKind::Comma);
    lemma_spelled_then(ts, pos + 1, 2 + n1, c, n2, type_spec_tokens(rhs));
    let d = c + type_spec_tokens(rhs);
    lemma_spelled_then(ts, pos + 1, 2 + n1 + n2, d, 1, plain(TokenKind::RBracket));
    lemma_spelled_then(ts, pos, 1, plain(kind), 3 + n1 + n2, d + plain(TokenKind::RBracket));
}

/// What a list of type specifications was read from is what the items it
/// added print as, unless a comma after the last was read too.
pub proof fn lemma_type_specs_spelled(ts: Seq<Token>, pos: int, acc: Seq<TypeSpecView>)
    requires
        0 <= pos <= ts.len(),
    ensures
        type_specs_at(ts, pos, acc).items.len() >= acc.len(),
        type_specs_at(
            ts,
            pos,
            acc,
        ).items.len() == acc.len() ==> type_specs_at(ts, pos, acc).taken == 0,
        forall|i: int| 0 <= i < acc.len() ==> type_specs_at(ts, pos, acc).items[i] == acc[i],
        spelled(
            ts,
            pos,
            type_specs_at(ts, pos, acc).taken,
            type_specs_tokens(type_specs_at(ts, pos, acc).items, acc.len()),
        ),
    decreases ts.len() - pos, 1int,
{
    reveal(type_specs_at);
    reveal(type_spec_at);
    match type_spec_at(ts, pos) {
        Err(_) => {
            lemma_spelled_nothing(ts, pos, 0);
        },
        Ok((item, n)) => {
            let pushed = acc.push(item);
            assert forall|i: int| 0 <= i < acc.len() implies pushed[i] == acc[i] by {}
            lemma_type_spec_spelled(ts, pos);
            if kind_at(ts, pos + n) == TokenKind::Comma {
                let rest = type_specs_at(ts, pos + n + 1, pushed);
                lemma_type_specs_spelled(ts, pos + n + 1, pushed);
                assert(rest.items[acc.len() as int] == item);
                if rest.items.len() == pushed.len() {
                    lemma_spelled_more(ts, pos, n, type_spec_tokens(item), 1);
                } else {
                    lemma_spelled_token(ts, pos + n, TokenKind::Comma);
                    lemma_spelled_then(
                        ts,
                        pos,
                        n,
                        type_spec_tokens(item),
                        1,
                        plain(TokenKind::Comma),
                    );
                    lemma_spelled_then(
                        ts,
                        pos,
                        n + 1,
                        type_spec_tokens(item) + plain(TokenKind::Comma),
                        rest.taken,
                        type_specs_tokens(rest.items, pushed.len()),
                    );
                }
            } else {
                assert(pushed[acc.len() as int] == item);
            }
        },
    }
}

/// Type specifications from index `from` on as tokens, with commas between
/// them.
pub open spec fn type_specs_tokens(items: Seq<TypeSpecView>, from: nat) -> Seq<TokenView>
    decreases items, items.len() - from,
{
    if from >= items.len() {
        Seq::empty()
    } else if from + 1 == items.len() {
        type_spec_tokens(items[from as int])
    } else {
        type_spec_tokens(items[from as int]) + plain(TokenKind::Comma) + type_specs_tokens(
            items,
            from + 1,
        )
    }
}

/// The declaration of an opaque type: its name and its universe.
#[derive(Debug, PartialEq)]
pub struct TypeDecl {
    pub doc_string: Option<DocString>,
    pub pragmas: Vec<Pragma>,
    pub name: Ident,
    pub universe: Universe,
}

/// A value of `TypeDecl` as plain data.
pub struct TypeDeclView {
    pub doc_string: Option<Seq<char>>,
    pub pragmas: Seq<PragmaView>,
    pub name: Seq<char>,
    pub universe: crate::lexer::Universe,
}

impl DeepView for TypeDecl {
    type V = TypeDeclView;

    open spec fn deep_view(&self) -> TypeDeclView {
        TypeDeclView {
            doc_string: self.doc_string.deep_view(),
            pragmas: self.pragmas.deep_view(),
            name: self.name.deep_view(),
            universe: self.universe.deep_view(),
        }
    }
}

/// The rule of type declarations: a docstring and pragmas if there are any, then `type Name : Universe;`.
#[verifier::opaque]
pub open spec fn type_decl_at(ts: Seq<Token>, pos: int) -> Parsed<TypeDeclView>
{
    let (doc_string, n1) = opt_doc_string_at(ts, pos);
    let pragmas_list = pragmas_at(ts, pos + n1, Seq::empty());
    let pragmas = pragmas_list.items;
    let n2 = pragmas_list.taken;
    if kind_at(ts, pos + n1 + n2) != TokenKind::Type {
        fail(pos + n1 + n2, seq![TokenKind::Type])
    } else {
        match ident_at(ts, pos + n1 + n2 + 1) {
            Err(f) => Err(f),
            Ok((name, n3)) => {
                if kind_at(ts, pos + n1 + n2 + n3 + 1) != TokenKind::Colon {
                    fail(pos + n1 + n2 + n3 + 1, seq![TokenKind::Colon])
                } else {
                    match universe_at(ts, pos + n1 + n2 + n3 + 2) {
                        Err(f) => Err(f),
                        Ok((universe, n4)) => {
                            if kind_at(ts, pos + n1 + n2 + n3 + n4 + 2) != TokenKind::Semi {
                                fail(pos + n1 + n2 + n3 + n4 + 2, seq![TokenKind::Semi])
                            } else {
                                Ok((TypeDeclView { doc_string, pragmas, name, universe }, n1 + n2 + n3 + n4 + 3))
                            }
                        },
                    }
                }
            },
        }
    }
}

/// Parses by the rule `type_decl_at` at a position: the value and the position
/// after it, or the failure.
pub fn parse_type_decl(ts: &[Token], pos: usize) -> (r: Result<(TypeDecl, usize), ParseError>)
    requires
        pos <= ts.len(),
    ensures
        parsed(r, pos, ts.len(), type_decl_at(ts@, pos as int)),
        r is Ok ==> r->Ok_0.1 > pos,
{
    proof {
        reveal(type_decl_at);
    }
    let (doc_string, p1) = parse_opt_doc_string(ts, pos);
    let (pragmas, p2, _) = parse_pragmas(ts, p1);
    let p3 = expect(ts, p2, TokenKind::Type)?;
    let (name, p4) = parse_ident(ts, p3)?;
    let p5 = expect(ts, p4, TokenKind::Colon)?;
    let (universe, p6) = parse_universe(ts, p5)?;
    let p7 = expect(ts, p6, TokenKind::Semi)?;
    Ok((TypeDecl { doc_string, pragmas, name, universe }, p7))
}

/// What the rule `type_decl_at` gives, as tokens.
pub open spec fn type_decl_tokens(v: TypeDeclView) -> Seq<TokenView>
{
    opt_doc_string_tokens(v.doc_string)
        + pragmas_tokens(v.pragmas, 0)
        + plain(TokenKind::Type)
        + ident_tokens(v.name)
        + plain(TokenKind::Colon)
        + universe_tokens(v.universe)
        + plain(TokenKind::Semi)
}

/// The tokens that the rule `type_decl_at` read are the tokens that its value prints
/// as, unless it read a token that the value does not show.
pub proof fn lemma_type_decl_spelled(ts: Seq<Token>, pos: int)
    requires
        0 <= pos <= ts.len(),
        type_decl_at(ts, pos) is Ok,
    ensures
        spelled(
            ts,
            pos,
            type_decl_at(ts, pos)->Ok_0.1,
            type_decl_tokens(type_decl_at(ts, pos)->Ok_0.0),
        ),
{
    reveal(type_decl_at);
    let (doc_string, n1) = opt_doc_string_at(ts, pos);
    lemma_opt_doc_string_spelled(ts, pos);
    let pragmas_list = pragmas_at(ts, pos + n1, Seq::empty());
    let pragmas = pragmas_list.items;
    let n2 = pragmas_list.taken;
    lemma_pragmas_spelled(ts, pos + n1, Seq::empty());
    lemma_spelled_token(ts, pos + n1 + n2, TokenKind::Type);
    let (name, n3) = ident_at(ts, pos + n1 + n2 + 1)->Ok_0;
    lemma_ident_spelled(ts, pos + n1 + n2 + 1);
    lemma_spelled_token(ts, pos + n1 + n2 + n3 + 1, TokenKind::Colon);
    let (universe, n4) = universe_at(ts, pos + n1 + n2 + n3 + 2)->Ok_0;
    lemma_universe_spelled(ts, pos + n1 + n2 + n3 + 2);
    lemma_spelled_token(ts, pos + n1 + n2 + n3 + n4 + 2, TokenKind::Semi);
    lemma_spelled_then(
        ts,
        pos,
        n1,
        opt_doc_string_tokens(doc_string),
        n2,
        pragmas_tokens(pragmas, 0),
    );
    lemma_spelled_then(
        ts,
        pos,
        n1 + n2,
        opt_doc_string_tokens(doc_string) + pragmas_tokens(pragmas, 0),
        1,
        plain(TokenKind::Type),
    );
    lemma_spelled_then(
        ts,
        pos,
        n1 + n2 + 1,
        opt_doc_string_tokens(doc_string) + pragmas_tokens(pragmas, 0) + plain(TokenKind::Type),
        n3,
        ident_tokens(name),
    );
    lemma_spelled_then(
        ts,
        pos,
        n1 + n2 + 1 + n3,
        opt_doc_string_tokens(doc_string)
            + pragmas_tokens(pragmas, 0)
            + plain(TokenKind::Type)
            + ident_tokens(name),
        1,
        plain(TokenKind::Colon),
    );
    lemma_spelled_then(
        ts,
        pos,
        n1 + n2 + 1 + n3 + 1,
        opt_doc_string_tokens(doc_string)
            + pragmas_tokens(pragmas, 0)
            + plain(TokenKind::Type)
            + ident_tokens(name)
            + plain(TokenKind::Colon),
        n4,
        universe_tokens(universe),
    );
    lemma_spelled_then(
        ts,
        pos,
        n1 + n2 + 1 + n3 + 1 + n4,
        opt_doc_string_tokens(doc_string)
            + pragmas_tokens(pragmas, 0)
            + plain(TokenKind::Type)
            + ident_tokens(name)
            + plain(TokenKind::Colon)
            + universe_tokens(universe),
        1,
        plain(TokenKind::Semi),
    );
}

impl TypeDecl {
    /// Parses the whole of `tokens` by the rule `type_decl_at`.
    pub fn parser(tokens: &[Token]) -> (r: Result<TypeDecl, ParseError>)
        ensures
            parsed_whole(r, whole(type_decl_at(tokens@, 0), tokens@.len())),
    {
        complete(parse_type_decl(tokens, 0), tokens.len(), Ghost(type_decl_at(tokens@, 0)))
    }
}

} // verus!
