//! Names, docstrings, universes and type parameters.

use crate::ast::expressions::{
    fn_call_args_at, fn_call_args_tokens, FnCallArgs, FnCallArgsView,
    lemma_fn_call_args_spelled, parse_fn_call_args,
};
use crate::ast::grammar::{
    close, closing, complete, expect, fail, kind_at, lemma_spelled_more, lemma_spelled_nothing,
    lemma_spelled_then, lemma_spelled_token, Listed, listed, missing, Parsed, parsed,
    parsed_whole, ParseError, ParseFailure, peek, plain, spelled, token_at, views, whole,
};
use crate::lexer::{Token, TokenKind, TokenView};
use vstd::prelude::*;

verus! {

/// A docstring: the text of a triple-quoted string before a declaration.
#[derive(Debug, PartialEq, Eq, Hash)]
pub struct DocString {
    pub contents: String,
}

impl DeepView for DocString {
    type V = Seq<char>;

    open spec fn deep_view(&self) -> Seq<char> {
        self.contents@
    }
}

impl Clone for DocString {
    fn clone(&self) -> (r: Self)
        ensures
            r == *self,
    {
        DocString { contents: self.contents.clone() }
    }
}

/// The docstring rule: one triple-quoted string.
pub open spec fn doc_string_at(ts: Seq<Token>, pos: int) -> Parsed<Seq<char>> {
    match token_at(ts, pos) {
        Some(Token::TripleString(s)) => Ok((s@, 1)),
        _ => fail(pos, seq![TokenKind::TripleString]),
    }
}

/// An optional docstring: the docstring and one token, or none and no token.
pub open spec fn opt_doc_string_at(ts: Seq<Token>, pos: int) -> (Option<Seq<char>>, nat) {
    match doc_string_at(ts, pos) {
        Ok((s, n)) => (Some(s), n),
        Err(_) => (None, 0),
    }
}

impl DocString {
    /// The value that holds the text `contents`.
    pub fn new(contents: &str) -> (r: Self)
        ensures
            r.deep_view() == contents@,
    {
        DocString { contents: contents.to_owned() }
    }
}

/// Parses by the rule `doc_string_at` at a position: the value and the position
/// after it, or the failure.
pub fn parse_doc_string(ts: &[Token], pos: usize) -> (r: Result<(DocString, usize), ParseError>)
    requires
        pos <= ts.len(),
    ensures
        parsed(r, pos, ts.len(), doc_string_at(ts@, pos as int)),
{
    if pos < ts.len() {
        if let Token::TripleString(s) = &ts[pos] {
            return Ok((DocString { contents: s.clone() }, pos + 1));
        }
    }
    Err(missing(pos, TokenKind::TripleString))
}

/// Parses by the rule `opt_doc_string_at` at a position: the value, if one
/// stands there, and the position after it.
pub fn parse_opt_doc_string(ts: &[Token], pos: usize) -> (r: (Option<DocString>, usize))
    requires
        pos <= ts.len(),
    ensures
        r.0.deep_view() == opt_doc_string_at(ts@, pos as int).0,
        r.1 == pos + opt_doc_string_at(ts@, pos as int).1,
        r.1 <= ts.len(),
{
    match parse_doc_string(ts, pos) {
        Ok((d, p)) => (Some(d), p),
        Err(_) => (None, pos),
    }
}

/// An identifier of the source.
#[derive(Debug, PartialEq, Eq, Hash)]
pub struct Ident {
    pub name: String,
}

impl DeepView for Ident {
    type V = Seq<char>;

    open spec fn deep_view(&self) -> Seq<char> {
        self.name@
    }
}

impl Clone for Ident {
    fn clone(&self) -> (r: Self)
        ensures
            r == *self,
    {
        Ident { name: self.name.clone() }
    }
}

/// The identifier rule: one identifier token.
pub open spec fn ident_at(ts: Seq<Token>, pos: int) -> Parsed<Seq<char>> {
    match token_at(ts, pos) {
        Some(Token::Ident(s)) => Ok((s@, 1)),
        _ => fail(pos, seq![TokenKind::Ident]),
    }
}

impl Ident {
    /// The value that holds the text `name`.
    pub fn new(name: &str) -> (r: Self)
        ensures
            r.deep_view() == name@,
    {
        Ident { name: name.to_owned() }
    }
}

/// Parses by the rule `ident_at` at a position: the value and the position
/// after it, or the failure.
pub fn parse_ident(ts: &[Token], pos: usize) -> (r: Result<(Ident, usize), ParseError>)
    requires
        pos <= ts.len(),
    ensures
        parsed(r, pos, ts.len(), ident_at(ts@, pos as int)),
        r is Ok ==> r->Ok_0.1 > pos,
{
    if pos < ts.len() {
        if let Token::Ident(s) = &ts[pos] {
            return Ok((Ident { name: s.clone() }, pos + 1));
        }
    }
    Err(missing(pos, TokenKind::Ident))
}

/// A universe named in a declaration.
#[derive(Clone, Copy, Debug, PartialEq, Eq, Hash)]
pub struct Universe(pub crate::lexer::Universe);

impl DeepView for Universe {
    type V = crate::lexer::Universe;

    open spec fn deep_view(&self) -> crate::lexer::Universe {
        self.0
    }
}

/// The universe rule: one universe token.
pub open spec fn universe_at(ts: Seq<Token>, pos: int) -> Parsed<crate::lexer::Universe> {
    match token_at(ts, pos) {
        Some(Token::Universe(u)) => Ok((u, 1)),
        _ => fail(pos, seq![TokenKind::Universe]),
    }
}

/// Parses by the rule `universe_at` at a position: the value and the position
/// after it, or the failure.
pub fn parse_universe(ts: &[Token], pos: usize) -> (r: Result<(Universe, usize), ParseError>)
    requires
        pos <= ts.len(),
    ensures
        parsed(r, pos, ts.len(), universe_at(ts@, pos as int)),
{
    if pos < ts.len() {
        if let Token::Universe(u) = &ts[pos] {
            return Ok((Universe(*u), pos + 1));
        }
    }
    Err(missing(pos, TokenKind::Universe))
}

/// A docstring as tokens.
pub open spec fn doc_string_tokens(v: Seq<char>) -> Seq<TokenView> {
    seq![TokenView::TripleString(v)]
}

/// An optional docstring as tokens.
pub open spec fn opt_doc_string_tokens(v: Option<Seq<char>>) -> Seq<TokenView> {
    match v {
        Some(s) => doc_string_tokens(s),
        None => Seq::empty(),
    }
}

/// An identifier as tokens.
pub open spec fn ident_tokens(v: Seq<char>) -> Seq<TokenView> {
    seq![TokenView::Ident(v)]
}

/// A universe as tokens.
pub open spec fn universe_tokens(v: crate::lexer::Universe) -> Seq<TokenView> {
    seq![TokenView::Universe(v)]
}

/// What the rule `doc_string_at` read prints as the tokens that it read.
pub proof fn lemma_doc_string_spelled(ts: Seq<Token>, pos: int)
    requires
        0 <= pos <= ts.len(),
        doc_string_at(ts, pos) is Ok,
    ensures
        spelled(
            ts,
            pos,
            doc_string_at(ts, pos)->Ok_0.1,
            doc_string_tokens(doc_string_at(ts, pos)->Ok_0.0),
        ),
{
    assert(doc_string_tokens(doc_string_at(ts, pos)->Ok_0.0) =~= views(ts, pos, 1));
}

/// What the rule `opt_doc_string_at` read prints as the tokens that it read.
pub proof fn lemma_opt_doc_string_spelled(ts: Seq<Token>, pos: int)
    requires
        0 <= pos <= ts.len(),
    ensures
        spelled(
            ts,
            pos,
            opt_doc_string_at(ts, pos).1,
            opt_doc_string_tokens(opt_doc_string_at(ts, pos).0),
        ),
{
    if doc_string_at(ts, pos) is Ok {
        lemma_doc_string_spelled(ts, pos);
    } else {
        lemma_spelled_nothing(ts, pos, 0);
    }
}

/// What the rule `ident_at` read prints as the tokens that it read.
pub proof fn lemma_ident_spelled(ts: Seq<Token>, pos: int)
    requires
        0 <= pos <= ts.len(),
        ident_at(ts, pos) is Ok,
    ensures
        spelled(ts, pos, ident_at(ts, pos)->Ok_0.1, ident_tokens(ident_at(ts, pos)->Ok_0.0)),
{
    assert(ident_tokens(ident_at(ts, pos)->Ok_0.0) =~= views(ts, pos, 1));
}

/// What the rule `universe_at` read prints as the tokens that it read.
pub proof fn lemma_universe_spelled(ts: Seq<Token>, pos: int)
    requires
        0 <= pos <= ts.len(),
        universe_at(ts, pos) is Ok,
    ensures
        spelled(
            ts,
            pos,
            universe_at(ts, pos)->Ok_0.1,
            universe_tokens(universe_at(ts, pos)->Ok_0.0),
        ),
{
    assert(universe_tokens(universe_at(ts, pos)->Ok_0.0) =~= views(ts, pos, 1));
}

} // verus!

verus! {

/// A type parameter: its name, the universe it ranges over, and the typeclasses that constrain it.
#[derive(Debug, PartialEq, Eq, Hash)]
pub struct TypeParam {
    pub name: Ident,
    pub universe: Universe,
    pub params: Vec<Ident>,
}

/// A value of `TypeParam` as plain data.
pub struct TypeParamView {
    pub name: Seq<char>,
    pub universe: crate::lexer::Universe,
    pub params: Seq<Seq<char>>,
}

impl DeepView for TypeParam {
    type V = TypeParamView;

    open spec fn deep_view(&self) -> TypeParamView {
        TypeParamView {
            name: self.name.deep_view(),
            universe: self.universe.deep_view(),
            params: self.params.deep_view(),
        }
    }
}

/// Identifiers separated by commas, where a comma may follow the last.
#[verifier::opaque]
pub open spec fn idents_at(ts: Seq<Token>, pos: int, acc: Seq<Seq<char>>) -> Listed<Seq<char>>
    decreases ts.len() - pos,
{
    match ident_at(ts, pos) {
        Err(f) => Listed { items: acc, taken: 0, stopped: f },
        Ok((item, n)) => if kind_at(ts, pos + n) == TokenKind::Comma {
            idents_at(ts, pos + n + 1, acc.push(item)).advance(n + 1)
        } else {
            Listed {
                items: acc.push(item),
                taken: n,
                stopped: ParseFailure { at: pos + n, expected: seq![TokenKind::Comma] },
            }
        },
    }
}

/// Parses the items of a list from a position by the rule `idents_at`: the
/// items, the position after them, and the failure that ended the list.
pub fn parse_idents(ts: &[Token], pos: usize) -> (r: (Vec<Ident>, usize, ParseError))
    requires
        pos <= ts.len(),
    ensures
        listed(r, pos, ts.len(), idents_at(ts@, pos as int, Seq::empty())),
{
    let mut items: Vec<Ident> = Vec::new();
    let mut cur: usize = pos;
    let mut stopped: Option<ParseError> = None;
    assert(items.deep_view() =~= Seq::empty());
    while stopped.is_none()
        invariant
            pos <= cur <= ts.len(),
            stopped is None ==> idents_at(ts@, pos as int, Seq::empty()) == idents_at(
                ts@,
                cur as int,
                items.deep_view(),
            ).advance((cur - pos) as nat),
            stopped is Some ==> idents_at(ts@, pos as int, Seq::empty()) == (Listed {
                items: items.deep_view(),
                taken: (cur - pos) as nat,
                stopped: stopped->0@,
            }),
        decreases ts.len() - cur + (if stopped is None { 1int } else { 0int }),
    {
        proof {
            reveal(idents_at);
        }
        match parse_ident(ts, cur) {
            Err(e) => {
                stopped = Some(e);
            },
            Ok((item, p)) => {
                let ghost before = items.deep_view();
                let ghost added = item.deep_view();
                items.push(item);
                assert(items.deep_view() =~= before.push(added));
                if peek(ts, p) == TokenKind::Comma {
                    cur = p + 1;
                } else {
                    cur = p;
                    stopped = Some(missing(p, TokenKind::Comma));
                }
            },
        }
    }
    (items, cur, stopped.unwrap())
}

/// The items of a list that the rule `idents_at` gives, from index `from` on, as
/// tokens, with commas between them.
pub open spec fn idents_tokens(items: Seq<Seq<char>>, from: nat) -> Seq<TokenView>
    decreases items.len() - from,
{
    if from >= items.len() {
        Seq::empty()
    } else if from + 1 == items.len() {
        ident_tokens(items[from as int])
    } else {
        ident_tokens(items[from as int]) + plain(TokenKind::Comma) + idents_tokens(
            items,
            from + 1,
        )
    }
}

/// The tokens that the list rule `idents_at` read are the tokens that the
/// items it added print as, unless it read a token that they do not show.
/// The list keeps the items it started from.
pub proof fn lemma_idents_spelled(ts: Seq<Token>, pos: int, acc: Seq<Seq<char>>)
    requires
        0 <= pos <= ts.len(),
    ensures
        idents_at(ts, pos, acc).items.len() >= acc.len(),
        idents_at(ts, pos, acc).items.len() == acc.len() ==> idents_at(ts, pos, acc).taken == 0,
        forall|i: int| 0 <= i < acc.len() ==> idents_at(ts, pos, acc).items[i] == acc[i],
        spelled(
            ts,
            pos,
            idents_at(ts, pos, acc).taken,
            idents_tokens(idents_at(ts, pos, acc).items, acc.len()),
        ),
    decreases ts.len() - pos,
{
    reveal(idents_at);
    match ident_at(ts, pos) {
        Err(_) => {
            lemma_spelled_nothing(ts, pos, 0);
        },
        Ok((item, n)) => {
            let pushed = acc.push(item);
            assert forall|i: int| 0 <= i < acc.len() implies pushed[i] == acc[i] by {}
            lemma_ident_spelled(ts, pos);
            if kind_at(ts, pos + n) == TokenKind::Comma {
                let rest = idents_at(ts, pos + n + 1, pushed);
                lemma_idents_spelled(ts, pos + n + 1, pushed);
                assert(pushed[acc.len() as int] == item);
                assert(rest.items[acc.len() as int] == pushed[acc.len() as int]);
                if rest.items.len() == pushed.len() {
                    lemma_spelled_more(ts, pos, n, ident_tokens(item), 1);
                } else {
                    lemma_spelled_token(ts, pos + n, TokenKind::Comma);
                    lemma_spelled_then(ts, pos, n, ident_tokens(item), 1, plain(TokenKind::Comma));
                    lemma_spelled_then(
                        ts,
                        pos,
                        n + 1,
                        ident_tokens(item) + plain(TokenKind::Comma),
                        rest.taken,
                        idents_tokens(rest.items, pushed.len()),
                    );
                }
            } else {
                assert(pushed[acc.len() as int] == item);
            }
        },
    }
}

/// The constraints of a type parameter: identifiers in parentheses, or nothing.
#[verifier::opaque]
pub open spec fn constraints_at(ts: Seq<Token>, pos: int) -> Parsed<Seq<Seq<char>>>
{
    if kind_at(ts, pos) != TokenKind::LParen {
        Ok((Seq::empty(), 0))
    } else {
        let names_list = idents_at(ts, pos + 1, Seq::empty());
        let names = names_list.items;
        let n1 = names_list.taken;
        match closing(ts, pos + n1 + 1, TokenKind::RParen, names_list.stopped) {
            Some(f) => Err(f),
            None => {
                Ok((names, n1 + 2))
            },
        }
    }
}

/// Parses by the rule `constraints_at` at a position: the value and the
/// position after it, or the failure.
pub fn parse_constraints(ts: &[Token], pos: usize) -> (r: Result<(Vec<Ident>, usize), ParseError>)
    requires
        pos <= ts.len(),
    ensures
        parsed(r, pos, ts.len(), constraints_at(ts@, pos as int)),
{
    proof {
        reveal(constraints_at);
    }
    if peek(ts, pos) != TokenKind::LParen {
        let none: Vec<Ident> = Vec::new();
        assert(none.deep_view() =~= Seq::empty());
        return Ok((none, pos));
    }
    let p1 = expect(ts, pos, TokenKind::LParen)?;
    let (names, names_end, names_stopped) = parse_idents(ts, p1);
    let p2 = close(ts, names_end, TokenKind::RParen, names_stopped)?;
    Ok((names, p2))
}

/// What the rule `constraints_at` gives, as tokens.
pub open spec fn constraints_tokens(v: Seq<Seq<char>>) -> Seq<TokenView>
{
    if v.len() == 0 {
        Seq::empty()
    } else {
        plain(TokenKind::LParen)
            + idents_tokens(v, 0)
            + plain(TokenKind::RParen)
    }
}

/// The tokens that the rule `constraints_at` read are the tokens that its value prints
/// as, unless it read a token that the value does not show.
pub proof fn lemma_constraints_spelled(ts: Seq<Token>, pos: int)
    requires
        0 <= pos <= ts.len(),
        constraints_at(ts, pos) is Ok,
    ensures
        spelled(
            ts,
            pos,
            constraints_at(ts, pos)->Ok_0.1,
            constraints_tokens(constraints_at(ts, pos)->Ok_0.0),
        ),
{
    reveal(constraints_at);
    if kind_at(ts, pos) != TokenKind::LParen {
        lemma_spelled_nothing(ts, pos, 0);
    } else {
        lemma_spelled_token(ts, pos, TokenKind::LParen);
        let names_list = idents_at(ts, pos + 1, Seq::empty());
        let names = names_list.items;
        let n1 = names_list.taken;
        lemma_idents_spelled(ts, pos + 1, Seq::empty());
        lemma_spelled_token(ts, pos + n1 + 1, TokenKind::RParen);
        lemma_spelled_then(ts, pos, 1, plain(TokenKind::LParen), n1, idents_tokens(names, 0));
        lemma_spelled_then(
            ts,
            pos,
            1 + n1,
            plain(TokenKind::LParen) + idents_tokens(names, 0),
            1,
            plain(TokenKind::RParen),
        );
        if (constraints_at(ts, pos))->Ok_0.0.len() == 0 {
            lemma_spelled_nothing(ts, pos, 1 + n1 + 1);
        }
    }
}

/// The rule of type parameters: `name : Universe`, and then its constraints if it has any.
#[verifier::opaque]
pub open spec fn type_param_at(ts: Seq<Token>, pos: int) -> Parsed<TypeParamView>
{
    match ident_at(ts, pos) {
        Err(f) => Err(f),
        Ok((name, n1)) => {
            if kind_at(ts, pos + n1) != TokenKind::Colon {
                fail(pos + n1, seq![TokenKind::Colon])
            } else {
                match universe_at(ts, pos + n1 + 1) {
                    Err(f) => Err(f),
                    Ok((universe, n2)) => {
                        match constraints_at(ts, pos + n1 + n2 + 1) {
                            Err(f) => Err(f),
                            Ok((params, n3)) => {
                                Ok((TypeParamView { name, universe, params }, n1 + n2 + n3 + 1))
                            },
                        }
                    },
                }
            }
        },
    }
}

/// Parses by the rule `type_param_at` at a position: the value and the position
/// after it, or the failure.
pub fn parse_type_param(ts: &[Token], pos: usize) -> (r: Result<(TypeParam, usize), ParseError>)
    requires
        pos <= ts.len(),
    ensures
        parsed(r, pos, ts.len(), type_param_at(ts@, pos as int)),
        r is Ok ==> r->Ok_0.1 > pos,
{
    proof {
        reveal(type_param_at);
    }
    let (name, p1) = parse_ident(ts, pos)?;
    let p2 = expect(ts, p1, TokenKind::Colon)?;
    let (universe, p3) = parse_universe(ts, p2)?;
    let (params, p4) = parse_constraints(ts, p3)?;
    Ok((TypeParam { name, universe, params }, p4))
}

/// What the rule `type_param_at` gives, as tokens.
pub open spec fn type_param_tokens(v: TypeParamView) -> Seq<TokenView>
{
    ident_tokens(v.name)
        + plain(TokenKind::Colon)
        + universe_tokens(v.universe)
        + constraints_tokens(v.params)
}

/// The tokens that the rule `type_param_at` read are the tokens that its value prints
/// as, unless it read a token that the value does not show.
pub proof fn lemma_type_param_spelled(ts: Seq<Token>, pos: int)
    requires
        0 <= pos <= ts.len(),
        type_param_at(ts, pos) is Ok,
    ensures
        spelled(
            ts,
            pos,
            type_param_at(ts, pos)->Ok_0.1,
            type_param_tokens(type_param_at(ts, pos)->Ok_0.0),
        ),
{
    reveal(type_param_at);
    let (name, n1) = ident_at(ts, pos)->Ok_0;
    lemma_ident_spelled(ts, pos);
    lemma_spelled_token(ts, pos + n1, TokenKind::Colon);
    let (universe, n2) = universe_at(ts, pos + n1 + 1)->Ok_0;
    lemma_universe_spelled(ts, pos + n1 + 1);
    let (params, n3) = constraints_at(ts, pos + n1 + n2 + 1)->Ok_0;
    lemma_constraints_spelled(ts, pos + n1 + n2 + 1);
    lemma_spelled_then(ts, pos, n1, ident_tokens(name), 1, plain(TokenKind::Colon));
    lemma_spelled_then(
        ts,
        pos,
        n1 + 1,
        ident_tokens(name) + plain(TokenKind::Colon),
        n2,
        universe_tokens(universe),
    );
    lemma_spelled_then(
        ts,
        pos,
        n1 + 1 + n2,
        ident_tokens(name) + plain(TokenKind::Colon) + universe_tokens(universe),
        n3,
        constraints_tokens(params),
    );
}

/// Type parameters separated by commas, where a comma may follow the last.
#[verifier::opaque]
pub open spec fn type_params_at(
    ts: Seq<Token>,
    pos: int,
    acc: Seq<TypeParamView>,
) -> Listed<TypeParamView>
    decreases ts.len() - pos,
{
    match type_param_at(ts, pos) {
        Err(f) => Listed { items: acc, taken: 0, stopped: f },
        Ok((item, n)) => if kind_at(ts, pos + n) == TokenKind::Comma {
            type_params_at(ts, pos + n + 1, acc.push(item)).advance(n + 1)
        } else {
            Listed {
                items: acc.push(item),
                taken: n,
                stopped: ParseFailure { at: pos + n, expected: seq![TokenKind::Comma] },
            }
        },
    }
}

/// Parses the items of a list from a position by the rule `type_params_at`: the
/// items, the position after them, and the failure that ended the list.
pub fn parse_type_params(ts: &[Token], pos: usize) -> (r: (Vec<TypeParam>, usize, ParseError))
    requires
        pos <= ts.len(),
    ensures
        listed(r, pos, ts.len(), type_params_at(ts@, pos as int, Seq::empty())),
{
    let mut items: Vec<TypeParam> = Vec::new();
    let mut cur: usize = pos;
    let mut stopped: Option<ParseError> = None;
    assert(items.deep_view() =~= Seq::empty());
    while stopped.is_none()
        invariant
            pos <= cur <= ts.len(),
            stopped is None ==> type_params_at(ts@, pos as int, Seq::empty()) == type_params_at(
                ts@,
                cur as int,
                items.deep_view(),
            ).advance((cur - pos) as nat),
            stopped is Some ==> type_params_at(ts@, pos as int, Seq::empty()) == (Listed {
                items: items.deep_view(),
                taken: (cur - pos) as nat,
                stopped: stopped->0@,
            }),
        decreases ts.len() - cur + (if stopped is None { 1int } else { 0int }),
    {
        proof {
            reveal(type_params_at);
        }
        match parse_type_param(ts, cur) {
            Err(e) => {
                stopped = Some(e);
            },
            Ok((item, p)) => {
                let ghost before = items.deep_view();
                let ghost added = item.deep_view();
                items.push(item);
                assert(items.deep_view() =~= before.push(added));
                if peek(ts, p) == TokenKind::Comma {
                    cur = p + 1;
                } else {
                    cur = p;
                    stopped = Some(missing(p, TokenKind::Comma));
                }
            },
        }
    }
    (items, cur, stopped.unwrap())
}

/// The items of a list that the rule `type_params_at` gives, from index `from` on, as
/// tokens, with commas between them.
pub open spec fn type_params_tokens(items: Seq<TypeParamView>, from: nat) -> Seq<TokenView>
    decreases items.len() - from,
{
    if from >= items.len() {
        Seq::empty()
    } else if from + 1 == items.len() {
        type_param_tokens(items[from as int])
    } else {
        type_param_tokens(items[from as int]) + plain(TokenKind::Comma) + type_params_tokens(
            items,
            from + 1,
        )
    }
}

/// The tokens that the list rule `type_params_at` read are the tokens that the
/// items it added print as, unless it read a token that they do not show.
/// The list keeps the items it started from.
pub proof fn lemma_type_params_spelled(ts: Seq<Token>, pos: int, acc: Seq<TypeParamView>)
    requires
        0 <= pos <= ts.len(),
    ensures
        type_params_at(ts, pos, acc).items.len() >= acc.len(),
        type_params_at(
            ts,
            pos,
            acc,
        ).items.len() == acc.len() ==> type_params_at(ts, pos, acc).taken == 0,
        forall|i: int| 0 <= i < acc.len() ==> type_params_at(ts, pos, acc).items[i] == acc[i],
        spelled(
            ts,
            pos,
            type_params_at(ts, pos, acc).taken,
            type_params_tokens(type_params_at(ts, pos, acc).items, acc.len()),
        ),
    decreases ts.len() - pos,
{
    reveal(type_params_at);
    match type_param_at(ts, pos) {
        Err(_) => {
            lemma_spelled_nothing(ts, pos, 0);
        },
        Ok((item, n)) => {
            let pushed = acc.push(item);
            assert forall|i: int| 0 <= i < acc.len() implies pushed[i] == acc[i] by {}
            lemma_type_param_spelled(ts, pos);
            if kind_at(ts, pos + n) == TokenKind::Comma {
                let rest = type_params_at(ts, pos + n + 1, pushed);
                lemma_type_params_spelled(ts, pos + n + 1, pushed);
                assert(pushed[acc.len() as int] == item);
                assert(rest.items[acc.len() as int] == pushed[acc.len() as int]);
                if rest.items.len() == pushed.len() {
                    lemma_spelled_more(ts, pos, n, type_param_tokens(item), 1);
                } else {
                    lemma_spelled_token(ts, pos + n, TokenKind::Comma);
                    lemma_spelled_then(
                        ts,
                        pos,
                        n,
                        type_param_tokens(item),
                        1,
                        plain(TokenKind::Comma),
                    );
                    lemma_spelled_then(
                        ts,
                        pos,
                        n + 1,
                        type_param_tokens(item) + plain(TokenKind::Comma),
                        rest.taken,
                        type_params_tokens(rest.items, pushed.len()),
                    );
                }
            } else {
                assert(pushed[acc.len() as int] == item);
            }
        },
    }
}

/// The type parameters of a function, a method or an instance: `generic [ ... ]`, or nothing.
#[verifier::opaque]
pub open spec fn generic_clause_at(ts: Seq<Token>, pos: int) -> Parsed<Seq<TypeParamView>>
{
    if kind_at(ts, pos) != TokenKind::Generic {
        Ok((Seq::empty(), 0))
    } else {
        if kind_at(ts, pos + 1) != TokenKind::LBracket {
            fail(pos + 1, seq![TokenKind::LBracket])
        } else {
            let params_list = type_params_at(ts, pos + 2, Seq::empty());
            let params = params_list.items;
            let n1 = params_list.taken;
            match closing(ts, pos + n1 + 2, TokenKind::RBracket, params_list.stopped) {
                Some(f) => Err(f),
                None => {
                    Ok((params, n1 + 3))
                },
            }
        }
    }
}

/// Parses by the rule `generic_clause_at` at a position: the value and the
/// position after it, or the failure.
pub fn parse_generic_clause(
    ts: &[Token],
    pos: usize,
) -> (r: Result<(Vec<TypeParam>, usize), ParseError>)
    requires
        pos <= ts.len(),
    ensures
        parsed(r, pos, ts.len(), generic_clause_at(ts@, pos as int)),
{
    proof {
        reveal(generic_clause_at);
    }
    if peek(ts, pos) != TokenKind::Generic {
        let none: Vec<TypeParam> = Vec::new();
        assert(none.deep_view() =~= Seq::empty());
        return Ok((none, pos));
    }
    let p1 = expect(ts, pos, TokenKind::Generic)?;
    let p2 = expect(ts, p1, TokenKind::LBracket)?;
    let (params, params_end, params_stopped) = parse_type_params(ts, p2);
    let p3 = close(ts, params_end, TokenKind::RBracket, params_stopped)?;
    Ok((params, p3))
}

/// What the rule `generic_clause_at` gives, as tokens.
pub open spec fn generic_clause_tokens(v: Seq<TypeParamView>) -> Seq<TokenView>
{
    if v.len() == 0 {
        Seq::empty()
    } else {
        plain(TokenKind::Generic)
            + plain(TokenKind::LBracket)
            + type_params_tokens(v, 0)
            + plain(TokenKind::RBracket)
    }
}

/// The tokens that the rule `generic_clause_at` read are the tokens that its value prints
/// as, unless it read a token that the value does not show.
pub proof fn lemma_generic_clause_spelled(ts: Seq<Token>, pos: int)
    requires
        0 <= pos <= ts.len(),
        generic_clause_at(ts, pos) is Ok,
    ensures
        spelled(
            ts,
            pos,
            generic_clause_at(ts, pos)->Ok_0.1,
            generic_clause_tokens(generic_clause_at(ts, pos)->Ok_0.0),
        ),
{
    reveal(generic_clause_at);
    if kind_at(ts, pos) != TokenKind::Generic {
        lemma_spelled_nothing(ts, pos, 0);
    } else {
        lemma_spelled_token(ts, pos, TokenKind::Generic);
        lemma_spelled_token(ts, pos + 1, TokenKind::LBracket);
        let params_list = type_params_at(ts, pos + 2, Seq::empty());
        let params = params_list.items;
        let n1 = params_list.taken;
        lemma_type_params_spelled(ts, pos + 2, Seq::empty());
        lemma_spelled_token(ts, pos + n1 + 2, TokenKind::RBracket);
        lemma_spelled_then(ts, pos, 1, plain(TokenKind::Generic), 1, plain(TokenKind::LBracket));
        lemma_spelled_then(
            ts,
            pos,
            1 + 1,
            plain(TokenKind::Generic) + plain(TokenKind::LBracket),
            n1,
            type_params_tokens(params, 0),
        );
        lemma_spelled_then(
            ts,
            pos,
            1 + 1 + n1,
            plain(TokenKind::Generic) + plain(TokenKind::LBracket) + type_params_tokens(params, 0),
            1,
            plain(TokenKind::RBracket),
        );
        if (generic_clause_at(ts, pos))->Ok_0.0.len() == 0 {
            lemma_spelled_nothing(ts, pos, 1 + 1 + n1 + 1);
        }
    }
}

/// The type parameters of a record or a union: `[ ... ]`, or nothing.
#[verifier::opaque]
pub open spec fn bracketed_type_params_at(ts: Seq<Token>, pos: int) -> Parsed<Seq<TypeParamView>>
{
    if kind_at(ts, pos) != TokenKind::LBracket {
        Ok((Seq::empty(), 0))
    } else {
        let params_list = type_params_at(ts, pos + 1, Seq::empty());
        let params = params_list.items;
        let n1 = params_list.taken;
        match closing(ts, pos + n1 + 1, TokenKind::RBracket, params_list.stopped) {
            Some(f) => Err(f),
            None => {
                Ok((params, n1 + 2))
            },
        }
    }
}

/// Parses by the rule `bracketed_type_params_at` at a position: the value and
/// the position after it, or the failure.
pub fn parse_bracketed_type_params(
    ts: &[Token],
    pos: usize,
) -> (r: Result<(Vec<TypeParam>, usize), ParseError>)
    requires
        pos <= ts.len(),
    ensures
        parsed(r, pos, ts.len(), bracketed_type_params_at(ts@, pos as int)),
{
    proof {
        reveal(bracketed_type_params_at);
    }
    if peek(ts, pos) != TokenKind::LBracket {
        let none: Vec<TypeParam> = Vec::new();
        assert(none.deep_view() =~= Seq::empty());
        return Ok((none, pos));
    }
    let p1 = expect(ts, pos, TokenKind::LBracket)?;
    let (params, params_end, params_stopped) = parse_type_params(ts, p1);
    let p2 = close(ts, params_end, TokenKind::RBracket, params_stopped)?;
    Ok((params, p2))
}

/// What the rule `bracketed_type_params_at` gives, as tokens.
pub open spec fn bracketed_type_params_tokens(v: Seq<TypeParamView>) -> Seq<TokenView>
{
    if v.len() == 0 {
        Seq::empty()
    } else {
        plain(TokenKind::LBracket)
            + type_params_tokens(v, 0)
            + plain(TokenKind::RBracket)
    }
}

/// The tokens that the rule `bracketed_type_params_at` read are the tokens that its value prints
/// as, unless it read a token that the value does not show.
pub proof fn lemma_bracketed_type_params_spelled(ts: Seq<Token>, pos: int)
    requires
        0 <= pos <= ts.len(),
        bracketed_type_params_at(ts, pos) is Ok,
    ensures
        spelled(
            ts,
            pos,
            bracketed_type_params_at(ts, pos)->Ok_0.1,
            bracketed_type_params_tokens(bracketed_type_params_at(ts, pos)->Ok_0.0),
        ),
{
    reveal(bracketed_type_params_at);
    if kind_at(ts, pos) != TokenKind::LBracket {
        lemma_spelled_nothing(ts, pos, 0);
    } else {
        lemma_spelled_token(ts, pos, TokenKind::LBracket);
        let params_list = type_params_at(ts, pos + 1, Seq::empty());
        let params = params_list.items;
        let n1 = params_list.taken;
        lemma_type_params_spelled(ts, pos + 1, Seq::empty());
        lemma_spelled_token(ts, pos + n1 + 1, TokenKind::RBracket);
        lemma_spelled_then(
            ts,
            pos,
            1,
            plain(TokenKind::LBracket),
            n1,
            type_params_tokens(params, 0),
        );
        lemma_spelled_then(
            ts,
            pos,
            1 + n1,
            plain(TokenKind::LBracket) + type_params_tokens(params, 0),
            1,
            plain(TokenKind::RBracket),
        );
        if (bracketed_type_params_at(ts, pos))->Ok_0.0.len() == 0 {
            lemma_spelled_nothing(ts, pos, 1 + n1 + 1);
        }
    }
}

/// A pragma attached to a declaration: its name and its arguments.
#[derive(Debug, PartialEq)]
pub struct Pragma {
    pub name: Ident,
    pub args: FnCallArgs,
}

/// A value of `Pragma` as plain data.
pub struct PragmaView {
    pub name: Seq<char>,
    pub args: FnCallArgsView,
}

impl DeepView for Pragma {
    type V = PragmaView;

    open spec fn deep_view(&self) -> PragmaView {
        PragmaView {
            name: self.name.deep_view(),
            args: self.args.deep_view(),
        }
    }
}

/// The arguments of a pragma: arguments in parentheses, or nothing.
#[verifier::opaque]
pub open spec fn pragma_args_at(ts: Seq<Token>, pos: int) -> Parsed<FnCallArgsView> {
    if kind_at(ts, pos) != TokenKind::LParen {
        Ok((FnCallArgsView::Empty, 0))
    } else {
        let list = fn_call_args_at(ts, pos + 1);
        match closing(ts, pos + 1 + list.taken, TokenKind::RParen, list.stopped) {
            Some(f) => Err(f),
            None => Ok((list.args, list.taken + 2)),
        }
    }
}

/// Parses by the rule `pragma_args_at` at a position: the value and the
/// position after it, or the failure.
pub fn parse_pragma_args(ts: &[Token], pos: usize) -> (r: Result<(FnCallArgs, usize), ParseError>)
    requires
        pos <= ts.len(),
    ensures
        parsed(r, pos, ts.len(), pragma_args_at(ts@, pos as int)),
{
    proof {
        reveal(pragma_args_at);
    }
    if peek(ts, pos) != TokenKind::LParen {
        return Ok((FnCallArgs::Empty, pos));
    }
    let (args, p, stopped) = parse_fn_call_args(ts, pos + 1);
    let q = close(ts, p, TokenKind::RParen, stopped)?;
    Ok((args, q))
}

/// The arguments of a pragma as tokens: nothing where there are none.
pub open spec fn pragma_args_tokens(v: FnCallArgsView) -> Seq<TokenView> {
    if v is Empty {
        Seq::empty()
    } else {
        plain(TokenKind::LParen) + fn_call_args_tokens(v) + plain(TokenKind::RParen)
    }
}

/// What the rule `pragma_args_at` read prints as the tokens that it read.
pub proof fn lemma_pragma_args_spelled(ts: Seq<Token>, pos: int)
    requires
        0 <= pos <= ts.len(),
        pragma_args_at(ts, pos) is Ok,
    ensures
        spelled(
            ts,
            pos,
            pragma_args_at(ts, pos)->Ok_0.1,
            pragma_args_tokens(pragma_args_at(ts, pos)->Ok_0.0),
        ),
{
    reveal(pragma_args_at);
    if kind_at(ts, pos) != TokenKind::LParen {
        lemma_spelled_nothing(ts, pos, 0);
    } else {
        let list = fn_call_args_at(ts, pos + 1);
        lemma_spelled_token(ts, pos, TokenKind::LParen);
        lemma_fn_call_args_spelled(ts, pos + 1);
        lemma_spelled_token(ts, pos + 1 + list.taken, TokenKind::RParen);
        lemma_spelled_then(
            ts,
            pos,
            1,
            plain(TokenKind::LParen),
            list.taken,
            fn_call_args_tokens(list.args),
        );
        lemma_spelled_then(
            ts,
            pos,
            1 + list.taken,
            plain(TokenKind::LParen) + fn_call_args_tokens(list.args),
            1,
            plain(TokenKind::RParen),
        );
        if list.args is Empty {
            lemma_spelled_nothing(ts, pos, list.taken + 2);
        }
    }
}

/// The rule of pragmas: `pragma name;` or `pragma name(arguments);`.
#[verifier::opaque]
pub open spec fn pragma_at(ts: Seq<Token>, pos: int) -> Parsed<PragmaView>
{
    if kind_at(ts, pos) != TokenKind::Pragma {
        fail(pos, seq![TokenKind::Pragma])
    } else {
        match ident_at(ts, pos + 1) {
            Err(f) => Err(f),
            Ok((name, n1)) => {
                match pragma_args_at(ts, pos + n1 + 1) {
                    Err(f) => Err(f),
                    Ok((args, n2)) => {
                        if kind_at(ts, pos + n1 + n2 + 1) != TokenKind::Semi {
                            fail(pos + n1 + n2 + 1, seq![TokenKind::Semi])
                        } else {
                            Ok((PragmaView { name, args }, n1 + n2 + 2))
                        }
                    },
                }
            },
        }
    }
}

/// Parses by the rule `pragma_at` at a position: the value and the position
/// after it, or the failure.
pub fn parse_pragma(ts: &[Token], pos: usize) -> (r: Result<(Pragma, usize), ParseError>)
    requires
        pos <= ts.len(),
    ensures
        parsed(r, pos, ts.len(), pragma_at(ts@, pos as int)),
        r is Ok ==> r->Ok_0.1 > pos,
{
    proof {
        reveal(pragma_at);
    }
    let p1 = expect(ts, pos, TokenKind::Pragma)?;
    let (name, p2) = parse_ident(ts, p1)?;
    let (args, p3) = parse_pragma_args(ts, p2)?;
    let p4 = expect(ts, p3, TokenKind::Semi)?;
    Ok((Pragma { name, args }, p4))
}

/// What the rule `pragma_at` gives, as tokens.
pub open spec fn pragma_tokens(v: PragmaView) -> Seq<TokenView>
{
    plain(TokenKind::Pragma)
        + ident_tokens(v.name)
        + pragma_args_tokens(v.args)
        + plain(TokenKind::Semi)
}

/// The tokens that the rule `pragma_at` read are the tokens that its value prints
/// as, unless it read a token that the value does not show.
pub proof fn lemma_pragma_spelled(ts: Seq<Token>, pos: int)
    requires
        0 <= pos <= ts.len(),
        pragma_at(ts, pos) is Ok,
    ensures
        spelled(ts, pos, pragma_at(ts, pos)->Ok_0.1, pragma_tokens(pragma_at(ts, pos)->Ok_0.0)),
{
    reveal(pragma_at);
    lemma_spelled_token(ts, pos, TokenKind::Pragma);
    let (name, n1) = ident_at(ts, pos + 1)->Ok_0;
    lemma_ident_spelled(ts, pos + 1);
    let (args, n2) = pragma_args_at(ts, pos + n1 + 1)->Ok_0;
    lemma_pragma_args_spelled(ts, pos + n1 + 1);
    lemma_spelled_token(ts, pos + n1 + n2 + 1, TokenKind::Semi);
    lemma_spelled_then(ts, pos, 1, plain(TokenKind::Pragma), n1, ident_tokens(name));
    lemma_spelled_then(
        ts,
        pos,
        1 + n1,
        plain(TokenKind::Pragma) + ident_tokens(name),
        n2,
        pragma_args_tokens(args),
    );
    lemma_spelled_then(
        ts,
        pos,
        1 + n1 + n2,
        plain(TokenKind::Pragma) + ident_tokens(name) + pragma_args_tokens(args),
        1,
        plain(TokenKind::Semi),
    );
}

/// The pragmas before a declaration: as many as can be read.
#[verifier::opaque]
pub open spec fn pragmas_at(ts: Seq<Token>, pos: int, acc: Seq<PragmaView>) -> Listed<PragmaView>
    decreases ts.len() - pos,
{
    match pragma_at(ts, pos) {
        Err(f) => Listed { items: acc, taken: 0, stopped: f },
        Ok((item, n)) => if 0 < n && pos + n <= ts.len() {
            pragmas_at(ts, pos + n, acc.push(item)).advance(n)
        } else {
            Listed { items: acc, taken: 0, stopped: ParseFailure { at: pos, expected: seq![] } }
        },
    }
}

/// Parses the items of a list from a position by the rule `pragmas_at`: the
/// items, the position after them, and the failure that ended the list.
pub fn parse_pragmas(ts: &[Token], pos: usize) -> (r: (Vec<Pragma>, usize, ParseError))
    requires
        pos <= ts.len(),
    ensures
        listed(r, pos, ts.len(), pragmas_at(ts@, pos as int, Seq::empty())),
{
    let mut items: Vec<Pragma> = Vec::new();
    let mut cur: usize = pos;
    let mut stopped: Option<ParseError> = None;
    assert(items.deep_view() =~= Seq::empty());
    while stopped.is_none()
        invariant
            pos <= cur <= ts.len(),
            stopped is None ==> pragmas_at(ts@, pos as int, Seq::empty()) == pragmas_at(
                ts@,
                cur as int,
                items.deep_view(),
            ).advance((cur - pos) as nat),
            stopped is Some ==> pragmas_at(ts@, pos as int, Seq::empty()) == (Listed {
                items: items.deep_view(),
                taken: (cur - pos) as nat,
                stopped: stopped->0@,
            }),
        decreases ts.len() - cur + (if stopped is None { 1int } else { 0int }),
    {
        proof {
            reveal(pragmas_at);
        }
        match parse_pragma(ts, cur) {
            Err(e) => {
                stopped = Some(e);
            },
            Ok((item, p)) => {
                let ghost before = items.deep_view();
                let ghost added = item.deep_view();
                items.push(item);
                assert(items.deep_view() =~= before.push(added));
                cur = p;
            },
        }
    }
    (items, cur, stopped.unwrap())
}

/// The items of a list that the rule `pragmas_at` gives, from index `from` on, as
/// tokens, one after the other.
pub open spec fn pragmas_tokens(items: Seq<PragmaView>, from: nat) -> Seq<TokenView>
    decreases items.len() - from,
{
    if from >= items.len() {
        Seq::empty()
    } else {
        pragma_tokens(items[from as int]) + pragmas_tokens(items, from + 1)
    }
}

/// The tokens that the list rule `pragmas_at` read are the tokens that the
/// items it added print as, unless it read a token that they do not show.
/// The list keeps the items it started from.
pub proof fn lemma_pragmas_spelled(ts: Seq<Token>, pos: int, acc: Seq<PragmaView>)
    requires
        0 <= pos <= ts.len(),
    ensures
        pragmas_at(ts, pos, acc).items.len() >= acc.len(),
        pragmas_at(ts, pos, acc).items.len() == acc.len() ==> pragmas_at(ts, pos, acc).taken == 0,
        forall|i: int| 0 <= i < acc.len() ==> pragmas_at(ts, pos, acc).items[i] == acc[i],
        spelled(
            ts,
            pos,
            pragmas_at(ts, pos, acc).taken,
            pragmas_tokens(pragmas_at(ts, pos, acc).items, acc.len()),
        ),
    decreases ts.len() - pos,
{
    reveal(pragmas_at);
    match pragma_at(ts, pos) {
        Err(_) => {
            lemma_spelled_nothing(ts, pos, 0);
        },
        Ok((item, n)) => {
            let pushed = acc.push(item);
            assert forall|i: int| 0 <= i < acc.len() implies pushed[i] == acc[i] by {}
            lemma_pragma_spelled(ts, pos);
            if 0 < n && pos + n <= ts.len() {
                let rest = pragmas_at(ts, pos + n, pushed);
                lemma_pragmas_spelled(ts, pos + n, pushed);
                assert(pushed[acc.len() as int] == item);
                assert(rest.items[acc.len() as int] == pushed[acc.len() as int]);
                lemma_spelled_then(
                    ts,
                    pos,
                    n,
                    pragma_tokens(item),
                    rest.taken,
                    pragmas_tokens(rest.items, pushed.len()),
                );
            } else {
                lemma_spelled_nothing(ts, pos, 0);
            }
        },
    }
}

impl DocString {
    /// Parses the whole of `tokens` by the rule `doc_string_at`.
    pub fn parser(tokens: &[Token]) -> (r: Result<DocString, ParseError>)
        ensures
            parsed_whole(r, whole(doc_string_at(tokens@, 0), tokens@.len())),
    {
        complete(parse_doc_string(tokens, 0), tokens.len(), Ghost(doc_string_at(tokens@, 0)))
    }
}

impl Ident {
    /// Parses the whole of `tokens` by the rule `ident_at`.
    pub fn parser(tokens: &[Token]) -> (r: Result<Ident, ParseError>)
        ensures
            parsed_whole(r, whole(ident_at(tokens@, 0), tokens@.len())),
    {
        complete(parse_ident(tokens, 0), tokens.len(), Ghost(ident_at(tokens@, 0)))
    }
}

impl Universe {
    /// Parses the whole of `tokens` by the rule `universe_at`.
    pub fn parser(tokens: &[Token]) -> (r: Result<Universe, ParseError>)
        ensures
            parsed_whole(r, whole(universe_at(tokens@, 0), tokens@.len())),
    {
        complete(parse_universe(tokens, 0), tokens.len(), Ghost(universe_at(tokens@, 0)))
    }
}

impl TypeParam {
    /// Parses the whole of `tokens` by the rule `type_param_at`.
    pub fn parser(tokens: &[Token]) -> (r: Result<TypeParam, ParseError>)
        ensures
            parsed_whole(r, whole(type_param_at(tokens@, 0), tokens@.len())),
    {
        complete(parse_type_param(tokens, 0), tokens.len(), Ghost(type_param_at(tokens@, 0)))
    }
}

impl Pragma {
    /// Parses the whole of `tokens` by the rule `pragma_at`.
    pub fn parser(tokens: &[Token]) -> (r: Result<Pragma, ParseError>)
        ensures
            parsed_whole(r, whole(pragma_at(tokens@, 0), tokens@.len())),
    {
        complete(parse_pragma(tokens, 0), tokens.len(), Ghost(pragma_at(tokens@, 0)))
    }
}

} // verus!
