//! Unions and their cases.

use crate::ast::common::{
    bracketed_type_params_at, bracketed_type_params_tokens, DocString, Ident, ident_at,
    ident_tokens, lemma_bracketed_type_params_spelled, lemma_ident_spelled,
    lemma_opt_doc_string_spelled, lemma_pragmas_spelled, opt_doc_string_at,
    opt_doc_string_tokens, parse_bracketed_type_params, parse_ident, parse_opt_doc_string,
    parse_pragmas, Pragma, pragmas_at, pragmas_tokens, PragmaView, TypeParam, TypeParamView,
};
use crate::ast::grammar::{
    close, closing, complete, expect, fail, kind_at, lemma_spelled_nothing, lemma_spelled_then,
    lemma_spelled_token, Listed, listed, Parsed, parsed, parsed_whole, ParseError, ParseFailure,
    peek, plain, spelled, whole,
};
use crate::ast::records::{lemma_slots_spelled, parse_slots, Slot, slots_at, slots_tokens, SlotView};
use crate::lexer::{Token, TokenKind, TokenView};
use vstd::prelude::*;

verus! {

/// A union: its name, its type parameters and its cases.
#[derive(Debug, PartialEq)]
pub struct UnionDecl {
    pub doc_string: Option<DocString>,
    pub pragmas: Vec<Pragma>,
    pub name: Ident,
    pub type_params: Vec<TypeParam>,
    pub cases: Vec<Case>,
}

/// A value of `UnionDecl` as plain data.
pub struct UnionDeclView {
    pub doc_string: Option<Seq<char>>,
    pub pragmas: Seq<PragmaView>,
    pub name: Seq<char>,
    pub type_params: Seq<TypeParamView>,
    pub cases: Seq<CaseView>,
}

impl DeepView for UnionDecl {
    type V = UnionDeclView;

    open spec fn deep_view(&self) -> UnionDeclView {
        UnionDeclView {
            doc_string: self.doc_string.deep_view(),
            pragmas: self.pragmas.deep_view(),
            name: self.name.deep_view(),
            type_params: self.type_params.deep_view(),
            cases: self.cases.deep_view(),
        }
    }
}

/// A case of a union: its name and its slots.
#[derive(Debug, PartialEq, Eq, Hash)]
pub struct Case {
    pub doc_string: Option<DocString>,
    pub name: Ident,
    pub fields: Vec<Slot>,
}

/// A value of `Case` as plain data.
pub struct CaseView {
    pub doc_string: Option<Seq<char>>,
    pub name: Seq<char>,
    pub fields: Seq<SlotView>,
}

impl DeepView for Case {
    type V = CaseView;

    open spec fn deep_view(&self) -> CaseView {
        CaseView {
            doc_string: self.doc_string.deep_view(),
            name: self.name.deep_view(),
            fields: self.fields.deep_view(),
        }
    }
}

/// The slots of a case: `is` and slots, or nothing.
#[verifier::opaque]
pub open spec fn case_fields_at(ts: Seq<Token>, pos: int) -> Parsed<Seq<SlotView>>
{
    if kind_at(ts, pos) != TokenKind::Is {
        Ok((Seq::empty(), 0))
    } else {
        let fields_list = slots_at(ts, pos + 1, Seq::empty());
        let fields = fields_list.items;
        let n1 = fields_list.taken;
        Ok((fields, n1 + 1))
    }
}

/// Parses by the rule `case_fields_at` at a position: the value and the
/// position after it, or the failure.
pub fn parse_case_fields(ts: &[Token], pos: usize) -> (r: Result<(Vec<Slot>, usize), ParseError>)
    requires
        pos <= ts.len(),
    ensures
        parsed(r, pos, ts.len(), case_fields_at(ts@, pos as int)),
{
    proof {
        reveal(case_fields_at);
    }
    if peek(ts, pos) != TokenKind::Is {
        let none: Vec<Slot> = Vec::new();
        assert(none.deep_view() =~= Seq::empty());
        return Ok((none, pos));
    }
    let p1 = expect(ts, pos, TokenKind::Is)?;
    let (fields, p2, _) = parse_slots(ts, p1);
    Ok((fields, p2))
}

/// What the rule `case_fields_at` gives, as tokens.
pub open spec fn case_fields_tokens(v: Seq<SlotView>) -> Seq<TokenView>
{
    if v.len() == 0 {
        Seq::empty()
    } else {
        plain(TokenKind::Is) + slots_tokens(v, 0)
    }
}

/// The tokens that the rule `case_fields_at` read are the tokens that its value prints
/// as, unless it read a token that the value does not show.
pub proof fn lemma_case_fields_spelled(ts: Seq<Token>, pos: int)
    requires
        0 <= pos <= ts.len(),
        case_fields_at(ts, pos) is Ok,
    ensures
        spelled(
            ts,
            pos,
            case_fields_at(ts, pos)->Ok_0.1,
            case_fields_tokens(case_fields_at(ts, pos)->Ok_0.0),
        ),
{
    reveal(case_fields_at);
    if kind_at(ts, pos) != TokenKind::Is {
        lemma_spelled_nothing(ts, pos, 0);
    } else {
        lemma_spelled_token(ts, pos, TokenKind::Is);
        let fields_list = slots_at(ts, pos + 1, Seq::empty());
        let fields = fields_list.items;
        let n1 = fields_list.taken;
        lemma_slots_spelled(ts, pos + 1, Seq::empty());
        lemma_spelled_then(ts, pos, 1, plain(TokenKind::Is), n1, slots_tokens(fields, 0));
        if (case_fields_at(ts, pos))->Ok_0.0.len() == 0 {
            lemma_spelled_nothing(ts, pos, 1 + n1);
        }
    }
}

/// The rule of cases: a docstring if there is one, then `case Name;` or `case Name is slots;`.
#[verifier::opaque]
pub open spec fn case_at(ts: Seq<Token>, pos: int) -> Parsed<CaseView>
{
    let (doc_string, n1) = opt_doc_string_at(ts, pos);
    if kind_at(ts, pos + n1) != TokenKind::Case {
        fail(pos + n1, seq![TokenKind::Case])
    } else {
        match ident_at(ts, pos + n1 + 1) {
            Err(f) => Err(f),
            Ok((name, n2)) => {
                match case_fields_at(ts, pos + n1 + n2 + 1) {
                    Err(f) => Err(f),
                    Ok((fields, n3)) => {
                        if kind_at(ts, pos + n1 + n2 + n3 + 1) != TokenKind::Semi {
                            fail(pos + n1 + n2 + n3 + 1, seq![TokenKind::Semi])
                        } else {
                            Ok((CaseView { doc_string, name, fields }, n1 + n2 + n3 + 2))
                        }
                    },
                }
            },
        }
    }
}

/// Parses by the rule `case_at` at a position: the value and the position after
/// it, or the failure.
pub fn parse_case(ts: &[Token], pos: usize) -> (r: Result<(Case, usize), ParseError>)
    requires
        pos <= ts.len(),
    ensures
        parsed(r, pos, ts.len(), case_at(ts@, pos as int)),
        r is Ok ==> r->Ok_0.1 > pos,
{
    proof {
        reveal(case_at);
    }
    let (doc_string, p1) = parse_opt_doc_string(ts, pos);
    let p2 = expect(ts, p1, TokenKind::Case)?;
    let (name, p3) = parse_ident(ts, p2)?;
    let (fields, p4) = parse_case_fields(ts, p3)?;
    let p5 = expect(ts, p4, TokenKind::Semi)?;
    Ok((Case { doc_string, name, fields }, p5))
}

/// What the rule `case_at` gives, as tokens.
pub open spec fn case_tokens(v: CaseView) -> Seq<TokenView>
{
    opt_doc_string_tokens(v.doc_string)
        + plain(TokenKind::Case)
        + ident_tokens(v.name)
        + case_fields_tokens(v.fields)
        + plain(TokenKind::Semi)
}

/// The tokens that the rule `case_at` read are the tokens that its value prints
/// as, unless it read a token that the value does not show.
pub proof fn lemma_case_spelled(ts: Seq<Token>, pos: int)
    requires
        0 <= pos <= ts.len(),
        case_at(ts, pos) is Ok,
    ensures
        spelled(ts, pos, case_at(ts, pos)->Ok_0.1, case_tokens(case_at(ts, pos)->Ok_0.0)),
{
    reveal(case_at);
    let (doc_string, n1) = opt_doc_string_at(ts, pos);
    lemma_opt_doc_string_spelled(ts, pos);
    lemma_spelled_token(ts, pos + n1, TokenKind::Case);
    let (name, n2) = ident_at(ts, pos + n1 + 1)->Ok_0;
    lemma_ident_spelled(ts, pos + n1 + 1);
    let (fields, n3) = case_fields_at(ts, pos + n1 + n2 + 1)->Ok_0;
    lemma_case_fields_spelled(ts, pos + n1 + n2 + 1);
    lemma_spelled_token(ts, pos + n1 + n2 + n3 + 1, TokenKind::Semi);
    lemma_spelled_then(ts, pos, n1, opt_doc_string_tokens(doc_string), 1, plain(TokenKind::Case));
    lemma_spelled_then(
        ts,
        pos,
        n1 + 1,
        opt_doc_string_tokens(doc_string) + plain(TokenKind::Case),
        n2,
        ident_tokens(name),
    );
    lemma_spelled_then(
        ts,
        pos,
        n1 + 1 + n2,
        opt_doc_string_tokens(doc_string) + plain(TokenKind::Case) + ident_tokens(name),
        n3,
        case_fields_tokens(fields),
    );
    lemma_spelled_then(
        ts,
        pos,
        n1 + 1 + n2 + n3,
        opt_doc_string_tokens(doc_string)
            + plain(TokenKind::Case)
            + ident_tokens(name)
            + case_fields_tokens(fields),
        1,
        plain(TokenKind::Semi),
    );
}

/// The cases of a union: as many as can be read.
#[verifier::opaque]
pub open spec fn cases_at(ts: Seq<Token>, pos: int, acc: Seq<CaseView>) -> Listed<CaseView>
    decreases ts.len() - pos,
{
    match case_at(ts, pos) {
        Err(f) => Listed { items: acc, taken: 0, stopped: f },
        Ok((item, n)) => if 0 < n && pos + n <= ts.len() {
            cases_at(ts, pos + n, acc.push(item)).advance(n)
        } else {
            Listed { items: acc, taken: 0, stopped: ParseFailure { at: pos, expected: seq![] } }
        },
    }
}

/// Parses the items of a list from a position by the rule `cases_at`: the
/// items, the position after them, and the failure that ended the list.
pub fn parse_cases(ts: &[Token], pos: usize) -> (r: (Vec<Case>, usize, ParseError))
    requires
        pos <= ts.len(),
    ensures
        listed(r, pos, ts.len(), cases_at(ts@, pos as int, Seq::empty())),
{
    let mut items: Vec<Case> = Vec::new();
    let mut cur: usize = pos;
    let mut stopped: Option<ParseError> = None;
    assert(items.deep_view() =~= Seq::empty());
    while stopped.is_none()
        invariant
            pos <= cur <= ts.len(),
            stopped is None ==> cases_at(ts@, pos as int, Seq::empty()) == cases_at(
                ts@,
                cur as int,
                items.deep_view(),
            ).advance((cur - pos) as nat),
            stopped is Some ==> cases_at(ts@, pos as int, Seq::empty()) == (Listed {
                items: items.deep_view(),
                taken: (cur - pos) as nat,
                stopped: stopped->0@,
            }),
        decreases ts.len() - cur + (if stopped is None { 1int } else { 0int }),
    {
        proof {
            reveal(cases_at);
        }
        match parse_case(ts, cur) {
            Err(e) => {
                stopped = Some(e);
            },
            Ok((item, p)) => {
                let ghost before = items.deep_view();
                let ghost added = item.deep_view();
                items.push(item);
                assert(items.deep_view() =~= before.push(added));
                cur = p;
            },
        }
    }
    (items, cur, stopped.unwrap())
}

/// The items of a list that the rule `cases_at` gives, from index `from` on, as
/// tokens, one after the other.
pub open spec fn cases_tokens(items: Seq<CaseView>, from: nat) -> Seq<TokenView>
    decreases items.len() - from,
{
    if from >= items.len() {
        Seq::empty()
    } else {
        case_tokens(items[from as int]) + cases_tokens(items, from + 1)
    }
}

/// The tokens that the list rule `cases_at` read are the tokens that the
/// items it added print as, unless it read a token that they do not show.
/// The list keeps the items it started from.
pub proof fn lemma_cases_spelled(ts: Seq<Token>, pos: int, acc: Seq<CaseView>)
    requires
        0 <= pos <= ts.len(),
    ensures
        cases_at(ts, pos, acc).items.len() >= acc.len(),
        cases_at(ts, pos, acc).items.len() == acc.len() ==> cases_at(ts, pos, acc).taken == 0,
        forall|i: int| 0 <= i < acc.len() ==> cases_at(ts, pos, acc).items[i] == acc[i],
        spelled(
            ts,
            pos,
            cases_at(ts, pos, acc).taken,
            cases_tokens(cases_at(ts, pos, acc).items, acc.len()),
        ),
    decreases ts.len() - pos,
{
    reveal(cases_at);
    match case_at(ts, pos) {
        Err(_) => {
            lemma_spelled_nothing(ts, pos, 0);
        },
        Ok((item, n)) => {
            let pushed = acc.push(item);
            assert forall|i: int| 0 <= i < acc.len() implies pushed[i] == acc[i] by {}
            lemma_case_spelled(ts, pos);
            if 0 < n && pos + n <= ts.len() {
                let rest = cases_at(ts, pos + n, pushed);
                lemma_cases_spelled(ts, pos + n, pushed);
                assert(pushed[acc.len() as int] == item);
                assert(rest.items[acc.len() as int] == pushed[acc.len() as int]);
                lemma_spelled_then(
                    ts,
                    pos,
                    n,
                    case_tokens(item),
                    rest.taken,
                    cases_tokens(rest.items, pushed.len()),
                );
            } else {
                lemma_spelled_nothing(ts, pos, 0);
            }
        },
    }
}

/// The rule of unions: a docstring and pragmas if there are any, then `union Name[parameters] is cases end;`.
#[verifier::opaque]
pub open spec fn union_at(ts: Seq<Token>, pos: int) -> Parsed<UnionDeclView>
{
    let (doc_string, n1) = opt_doc_string_at(ts, pos);
    let pragmas_list = pragmas_at(ts, pos + n1, Seq::empty());
    let pragmas = pragmas_list.items;
    let n2 = pragmas_list.taken;
    if kind_at(ts, pos + n1 + n2) != TokenKind::Union {
        fail(pos + n1 + n2, seq![TokenKind::Union])
    } else {
        match ident_at(ts, pos + n1 + n2 + 1) {
            Err(f) => Err(f),
            Ok((name, n3)) => {
                match bracketed_type_params_at(ts, pos + n1 + n2 + n3 + 1) {
                    Err(f) => Err(f),
                    Ok((type_params, n4)) => {
                        if kind_at(ts, pos + n1 + n2 + n3 + n4 + 1) != TokenKind::Is {
                            fail(pos + n1 + n2 + n3 + n4 + 1, seq![TokenKind::Is])
                        } else {
                            let cases_list = cases_at(
                                ts,
                                pos + n1 + n2 + n3 + n4 + 2,
                                Seq::empty(),
                            );
                            let cases = cases_list.items;
                            let n5 = cases_list.taken;
                            match closing(
                                ts,
                                pos + n1 + n2 + n3 + n4 + n5 + 2,
                                TokenKind::End,
                                cases_list.stopped,
                            ) {
                                Some(f) => Err(f),
                                None => {
                                    if kind_at(
                                        ts,
                                        pos + n1 + n2 + n3 + n4 + n5 + 3,
                                    ) != TokenKind::Semi {
                                        fail(
                                            pos + n1 + n2 + n3 + n4 + n5 + 3,
                                            seq![TokenKind::Semi],
                                        )
                                    } else {
                                        Ok((UnionDeclView { doc_string, pragmas, name, type_params, cases }, n1 + n2 + n3 + n4 + n5 + 4))
                                    }
                                },
                            }
                        }
                    },
                }
            },
        }
    }
}

/// Parses by the rule `union_at` at a position: the value and the position
/// after it, or the failure.
pub fn parse_union(ts: &[Token], pos: usize) -> (r: Result<(UnionDecl, usize), ParseError>)
    requires
        pos <= ts.len(),
    ensures
        parsed(r, pos, ts.len(), union_at(ts@, pos as int)),
        r is Ok ==> r->Ok_0.1 > pos,
{
    proof {
        reveal(union_at);
    }
    let (doc_string, p1) = parse_opt_doc_string(ts, pos);
    let (pragmas, p2, _) = parse_pragmas(ts, p1);
    let p3 = expect(ts, p2, TokenKind::Union)?;
    let (name, p4) = parse_ident(ts, p3)?;
    let (type_params, p5) = parse_bracketed_type_params(ts, p4)?;
    let p6 = expect(ts, p5, TokenKind::Is)?;
    let (cases, cases_end, cases_stopped) = parse_cases(ts, p6);
    let p7 = close(ts, cases_end, TokenKind::End, cases_stopped)?;
    let p8 = expect(ts, p7, TokenKind::Semi)?;
    Ok((UnionDecl { doc_string, pragmas, name, type_params, cases }, p8))
}

/// What the rule `union_at` gives, as tokens.
pub open spec fn union_tokens(v: UnionDeclView) -> Seq<TokenView>
{
    opt_doc_string_tokens(v.doc_string)
        + pragmas_tokens(v.pragmas, 0)
        + plain(TokenKind::Union)
        + ident_tokens(v.name)
        + bracketed_type_params_tokens(v.type_params)
        + plain(TokenKind::Is)
        + cases_tokens(v.cases, 0)
        + plain(TokenKind::End)
        + plain(TokenKind::Semi)
}

/// The tokens that the rule `union_at` read are the tokens that its value prints
/// as, unless it read a token that the value does not show.
pub proof fn lemma_union_spelled(ts: Seq<Token>, pos: int)
    requires
        0 <= pos <= ts.len(),
        union_at(ts, pos) is Ok,
    ensures
        spelled(ts, pos, union_at(ts, pos)->Ok_0.1, union_tokens(union_at(ts, pos)->Ok_0.0)),
{
    reveal(union_at);
    let (doc_string, n1) = opt_doc_string_at(ts, pos);
    lemma_opt_doc_string_spelled(ts, pos);
    let pragmas_list = pragmas_at(ts, pos + n1, Seq::empty());
    let pragmas = pragmas_list.items;
    let n2 = pragmas_list.taken;
    lemma_pragmas_spelled(ts, pos + n1, Seq::empty());
    lemma_spelled_token(ts, pos + n1 + n2, TokenKind::Union);
    let (name, n3) = ident_at(ts, pos + n1 + n2 + 1)->Ok_0;
    lemma_ident_spelled(ts, pos + n1 + n2 + 1);
    let (type_params, n4) = bracketed_type_params_at(ts, pos + n1 + n2 + n3 + 1)->Ok_0;
    lemma_bracketed_type_params_spelled(ts, pos + n1 + n2 + n3 + 1);
    lemma_spelled_token(ts, pos + n1 + n2 + n3 + n4 + 1, TokenKind::Is);
    let cases_list = cases_at(ts, pos + n1 + n2 + n3 + n4 + 2, Seq::empty());
    let cases = cases_list.items;
    let n5 = cases_list.taken;
    lemma_cases_spelled(ts, pos + n1 + n2 + n3 + n4 + 2, Seq::empty());
    lemma_spelled_token(ts, pos + n1 + n2 + n3 + n4 + n5 + 2, TokenKind::End);
    lemma_spelled_token(ts, pos + n1 + n2 + n3 + n4 + n5 + 3, TokenKind::Semi);
    lemma_spelled_then(
        ts,
        pos,
        n1,
        opt_doc_string_tokens(doc_string),
        n2,
        pragmas_tokens(pragmas, 0),
    );
    lemma_spelled_then(
        ts,
        pos,
        n1 + n2,
        opt_doc_string_tokens(doc_string) + pragmas_tokens(pragmas, 0),
        1,
        plain(TokenKind::Union),
    );
    lemma_spelled_then(
        ts,
        pos,
        n1 + n2 + 1,
        opt_doc_string_tokens(doc_string) + pragmas_tokens(pragmas, 0) + plain(TokenKind::Union),
        n3,
        ident_tokens(name),
    );
    lemma_spelled_then(
        ts,
        pos,
        n1 + n2 + 1 + n3,
        opt_doc_string_tokens(doc_string)
            + pragmas_tokens(pragmas, 0)
            + plain(TokenKind::Union)
            + ident_tokens(name),
        n4,
        bracketed_type_params_tokens(type_params),
    );
    lemma_spelled_then(
        ts,
        pos,
        n1 + n2 + 1 + n3 + n4,
        opt_doc_string_tokens(doc_string)
            + pragmas_tokens(pragmas, 0)
            + plain(TokenKind::Union)
            + ident_tokens(name)
            + bracketed_type_params_tokens(type_params),
        1,
        plain(TokenKind::Is),
    );
    lemma_spelled_then(
        ts,
        pos,
        n1 + n2 + 1 + n3 + n4 + 1,
        opt_doc_string_tokens(doc_string)
            + pragmas_tokens(pragmas, 0)
            + plain(TokenKind::Union)
            + ident_tokens(name)
            + bracketed_type_params_tokens(type_params)
            + plain(TokenKind::Is),
        n5,
        cases_tokens(cases, 0),
    );
    lemma_spelled_then(
        ts,
        pos,
        n1 + n2 + 1 + n3 + n4 + 1 + n5,
        opt_doc_string_tokens(doc_string)
            + pragmas_tokens(pragmas, 0)
            + plain(TokenKind::Union)
            + ident_tokens(name)
            + bracketed_type_params_tokens(type_params)
            + plain(TokenKind::Is)
            + cases_tokens(cases, 0),
        1,
        plain(TokenKind::End),
    );
    lemma_spelled_then(
        ts,
        pos,
        n1 + n2 + 1 + n3 + n4 + 1 + n5 + 1,
        opt_doc_string_tokens(doc_string)
            + pragmas_tokens(pragmas, 0)
            + plain(TokenKind::Union)
            + ident_tokens(name)
            + bracketed_type_params_tokens(type_params)
            + plain(TokenKind::Is)
            + cases_tokens(cases, 0)
            + plain(TokenKind::End),
        1,
        plain(TokenKind::Semi),
    );
}

impl UnionDecl {
    /// Parses the whole of `tokens` by the rule `union_at`.
    pub fn parser(tokens: &[Token]) -> (r: Result<UnionDecl, ParseError>)
        ensures
            parsed_whole(r, whole(union_at(tokens@, 0), tokens@.len())),
    {
        complete(parse_union(tokens, 0), tokens.len(), Ghost(union_at(tokens@, 0)))
    }
}

impl Case {
    /// Parses the whole of `tokens` by the rule `case_at`.
    pub fn parser(tokens: &[Token]) -> (r: Result<Case, ParseError>)
        ensures
            parsed_whole(r, whole(case_at(tokens@, 0), tokens@.len())),
    {
        complete(parse_case(tokens, 0), tokens.len(), Ghost(case_at(tokens@, 0)))
    }
}

} // verus!
