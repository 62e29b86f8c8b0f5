//! Records and their slots.

use crate::ast::common::{
    bracketed_type_params_at, bracketed_type_params_tokens, DocString, Ident, ident_at,
    ident_tokens, lemma_bracketed_type_params_spelled, lemma_ident_spelled,
    lemma_opt_doc_string_spelled, lemma_pragmas_spelled, lemma_universe_spelled,
    opt_doc_string_at, opt_doc_string_tokens, parse_bracketed_type_params, parse_ident,
    parse_opt_doc_string, parse_pragmas, parse_universe, Pragma, pragmas_at, pragmas_tokens,
    PragmaView, TypeParam, TypeParamView, Universe, universe_at, universe_tokens,
};
use crate::ast::grammar::{
    close, closing, complete, expect, fail, kind_at, lemma_spelled_nothing, lemma_spelled_then,
    lemma_spelled_token, Listed, listed, Parsed, parsed, parsed_whole, ParseError, ParseFailure,
    plain, spelled, whole,
};
use crate::ast::types::{
    lemma_type_spec_spelled, parse_type_spec, type_spec_at, type_spec_tokens, TypeSpec,
    TypeSpecView,
};
use crate::lexer::{Token, TokenKind, TokenView};
use vstd::prelude::*;

verus! {

/// A record: its name, its type parameters, its universe and its slots.
#[derive(Debug, PartialEq)]
pub struct RecordDecl {
    pub doc_string: Option<DocString>,
    pub pragmas: Vec<Pragma>,
    pub name: Ident,
    pub type_params: Vec<TypeParam>,
    pub universe: Universe,
    pub slots: Vec<Slot>,
}

/// A value of `RecordDecl` as plain data.
pub struct RecordDeclView {
    pub doc_string: Option<Seq<char>>,
    pub pragmas: Seq<PragmaView>,
    pub name: Seq<char>,
    pub type_params: Seq<TypeParamView>,
    pub universe: crate::lexer::Universe,
    pub slots: Seq<SlotView>,
}

impl DeepView for RecordDecl {
    type V = RecordDeclView;

    open spec fn deep_view(&self) -> RecordDeclView {
        RecordDeclView {
            doc_string: self.doc_string.deep_view(),
            pragmas: self.pragmas.deep_view(),
            name: self.name.deep_view(),
            type_params: self.type_params.deep_view(),
            universe: self.universe.deep_view(),
            slots: self.slots.deep_view(),
        }
    }
}

/// A slot of a record or of a case of a union: its name and its type.
#[derive(Debug, PartialEq, Eq, Hash)]
pub struct Slot {
    pub doc_string: Option<DocString>,
    pub name: Ident,
    pub ty: TypeSpec,
}

/// A value of `Slot` as plain data.
pub struct SlotView {
    pub doc_string: Option<Seq<char>>,
    pub name: Seq<char>,
    pub ty: TypeSpecView,
}

impl DeepView for Slot {
    type V = SlotView;

    open spec fn deep_view(&self) -> SlotView {
        SlotView {
            doc_string: self.doc_string.deep_view(),
            name: self.name.deep_view(),
            ty: self.ty.deep_view(),
        }
    }
}

/// The rule of slots: a docstring if there is one, then `name : T`.
#[verifier::opaque]
pub open spec fn slot_at(ts: Seq<Token>, pos: int) -> Parsed<SlotView>
{
    let (doc_string, n1) = opt_doc_string_at(ts, pos);
    match ident_at(ts, pos + n1) {
        Err(f) => Err(f),
        Ok((name, n2)) => {
            if kind_at(ts, pos + n1 + n2) != TokenKind::Colon {
                fail(pos + n1 + n2, seq![TokenKind::Colon])
            } else {
                match type_spec_at(ts, pos + n1 + n2 + 1) {
                    Err(f) => Err(f),
                    Ok((ty, n3)) => {
                        Ok((SlotView { doc_string, name, ty }, n1 + n2 + n3 + 1))
                    },
                }
            }
        },
    }
}

/// Parses by the rule `slot_at` at a position: the value and the position after
/// it, or the failure.
pub fn parse_slot(ts: &[Token], pos: usize) -> (r: Result<(Slot, usize), ParseError>)
    requires
        pos <= ts.len(),
    ensures
        parsed(r, pos, ts.len(), slot_at(ts@, pos as int)),
        r is Ok ==> r->Ok_0.1 > pos,
{
    proof {
        reveal(slot_at);
    }
    let (doc_string, p1) = parse_opt_doc_string(ts, pos);
    let (name, p2) = parse_ident(ts, p1)?;
    let p3 = expect(ts, p2, TokenKind::Colon)?;
    let (ty, p4) = parse_type_spec(ts, p3)?;
    Ok((Slot { doc_string, name, ty }, p4))
}

/// What the rule `slot_at` gives, as tokens.
pub open spec fn slot_tokens(v: SlotView) -> Seq<TokenView>
{
    opt_doc_string_tokens(v.doc_string)
        + ident_tokens(v.name)
        + plain(TokenKind::Colon)
        + type_spec_tokens(v.ty)
}

/// The tokens that the rule `slot_at` read are the tokens that its value prints
/// as, unless it read a token that the value does not show.
pub proof fn lemma_slot_spelled(ts: Seq<Token>, pos: int)
    requires
        0 <= pos <= ts.len(),
        slot_at(ts, pos) is Ok,
    ensures
        spelled(ts, pos, slot_at(ts, pos)->Ok_0.1, slot_tokens(slot_at(ts, pos)->Ok_0.0)),
{
    reveal(slot_at);
    let (doc_string, n1) = opt_doc_string_at(ts, pos);
    lemma_opt_doc_string_spelled(ts, pos);
    let (name, n2) = ident_at(ts, pos + n1)->Ok_0;
    lemma_ident_spelled(ts, pos + n1);
    lemma_spelled_token(ts, pos + n1 + n2, TokenKind::Colon);
    let (ty, n3) = type_spec_at(ts, pos + n1 + n2 + 1)->Ok_0;
    lemma_type_spec_spelled(ts, pos + n1 + n2 + 1);
    lemma_spelled_then(ts, pos, n1, opt_doc_string_tokens(doc_string), n2, ident_tokens(name));
    lemma_spelled_then(
        ts,
        pos,
        n1 + n2,
        opt_doc_string_tokens(doc_string) + ident_tokens(name),
        1,
        plain(TokenKind::Colon),
    );
    lemma_spelled_then(
        ts,
        pos,
        n1 + n2 + 1,
        opt_doc_string_tokens(doc_string) + ident_tokens(name) + plain(TokenKind::Colon),
        n3,
        type_spec_tokens(ty),
    );
}

/// Slots one after the other: as many as can be read.
#[verifier::opaque]
pub open spec fn slots_at(ts: Seq<Token>, pos: int, acc: Seq<SlotView>) -> Listed<SlotView>
    decreases ts.len() - pos,
{
    match slot_at(ts, pos) {
        Err(f) => Listed { items: acc, taken: 0, stopped: f },
        Ok((item, n)) => if 0 < n && pos + n <= ts.len() {
            slots_at(ts, pos + n, acc.push(item)).advance(n)
        } else {
            Listed { items: acc, taken: 0, stopped: ParseFailure { at: pos, expected: seq![] } }
        },
    }
}

/// Parses the items of a list from a position by the rule `slots_at`: the
/// items, the position after them, and the failure that ended the list.
pub fn parse_slots(ts: &[Token], pos: usize) -> (r: (Vec<Slot>, usize, ParseError))
    requires
        pos <= ts.len(),
    ensures
        listed(r, pos, ts.len(), slots_at(ts@, pos as int, Seq::empty())),
{
    let mut items: Vec<Slot> = Vec::new();
    let mut cur: usize = pos;
    let mut stopped: Option<ParseError> = None;
    assert(items.deep_view() =~= Seq::empty());
    while stopped.is_none()
        invariant
            pos <= cur <= ts.len(),
            stopped is None ==> slots_at(ts@, pos as int, Seq::empty()) == slots_at(
                ts@,
                cur as int,
                items.deep_view(),
            ).advance((cur - pos) as nat),
            stopped is Some ==> slots_at(ts@, pos as int, Seq::empty()) == (Listed {
                items: items.deep_view(),
                taken: (cur - pos) as nat,
                stopped: stopped->0@,
            }),
        decreases ts.len() - cur + (if stopped is None { 1int } else { 0int }),
    {
        proof {
            reveal(slots_at);
        }
        match parse_slot(ts, cur) {
            Err(e) => {
                stopped = Some(e);
            },
            Ok((item, p)) => {
                let ghost before = items.deep_view();
                let ghost added = item.deep_view();
                items.push(item);
                assert(items.deep_view() =~= before.push(added));
                cur = p;
            },
        }
    }
    (items, cur, stopped.unwrap())
}

/// The items of a list that the rule `slots_at` gives, from index `from` on, as
/// tokens, one after the other.
pub open spec fn slots_tokens(items: Seq<SlotView>, from: nat) -> Seq<TokenView>
    decreases items.len() - from,
{
    if from >= items.len() {
        Seq::empty()
    } else {
        slot_tokens(items[from as int]) + slots_tokens(items, from + 1)
    }
}

/// The tokens that the list rule `slots_at` read are the tokens that the
/// items it added print as, unless it read a token that they do not show.
/// The list keeps the items it started from.
pub proof fn lemma_slots_spelled(ts: Seq<Token>, pos: int, acc: Seq<SlotView>)
    requires
        0 <= pos <= ts.len(),
    ensures
        slots_at(ts, pos, acc).items.len() >= acc.len(),
        slots_at(ts, pos, acc).items.len() == acc.len() ==> slots_at(ts, pos, acc).taken == 0,
        forall|i: int| 0 <= i < acc.len() ==> slots_at(ts, pos, acc).items[i] == acc[i],
        spelled(
            ts,
            pos,
            slots_at(ts, pos, acc).taken,
            slots_tokens(slots_at(ts, pos, acc).items, acc.len()),
        ),
    decreases ts.len() - pos,
{
    reveal(slots_at);
    match slot_at(ts, pos) {
        Err(_) => {
            lemma_spelled_nothing(ts, pos, 0);
        },
        Ok((item, n)) => {
            let pushed = acc.push(item);
            assert forall|i: int| 0 <= i < acc.len() implies pushed[i] == acc[i] by {}
            lemma_slot_spelled(ts, pos);
            if 0 < n && pos + n <= ts.len() {
                let rest = slots_at(ts, pos + n, pushed);
                lemma_slots_spelled(ts, pos + n, pushed);
                assert(pushed[acc.len() as int] == item);
                assert(rest.items[acc.len() as int] == pushed[acc.len() as int]);
                lemma_spelled_then(
                    ts,
                    pos,
                    n,
                    slot_tokens(item),
                    rest.taken,
                    slots_tokens(rest.items, pushed.len()),
                );
            } else {
                lemma_spelled_nothing(ts, pos, 0);
            }
        },
    }
}

/// A slot of a record: a slot and `;`.
#[verifier::opaque]
pub open spec fn record_slot_at(ts: Seq<Token>, pos: int) -> Parsed<SlotView>
{
    match slot_at(ts, pos) {
        Err(f) => Err(f),
        Ok((slot, n1)) => {
            if kind_at(ts, pos + n1) != TokenKind::Semi {
                fail(pos + n1, seq![TokenKind::Semi])
            } else {
                Ok((slot, n1 + 1))
            }
        },
    }
}

/// Parses by the rule `record_slot_at` at a position: the value and the
/// position after it, or the failure.
pub fn parse_record_slot(ts: &[Token], pos: usize) -> (r: Result<(Slot, usize), ParseError>)
    requires
        pos <= ts.len(),
    ensures
        parsed(r, pos, ts.len(), record_slot_at(ts@, pos as int)),
        r is Ok ==> r->Ok_0.1 > pos,
{
    proof {
        reveal(record_slot_at);
    }
    let (slot, p1) = parse_slot(ts, pos)?;
    let p2 = expect(ts, p1, TokenKind::Semi)?;
    Ok((slot, p2))
}

/// What the rule `record_slot_at` gives, as tokens.
pub open spec fn record_slot_tokens(v: SlotView) -> Seq<TokenView>
{
    slot_tokens(v) + plain(TokenKind::Semi)
}

/// The tokens that the rule `record_slot_at` read are the tokens that its value prints
/// as, unless it read a token that the value does not show.
pub proof fn lemma_record_slot_spelled(ts: Seq<Token>, pos: int)
    requires
        0 <= pos <= ts.len(),
        record_slot_at(ts, pos) is Ok,
    ensures
        spelled(
            ts,
            pos,
            record_slot_at(ts, pos)->Ok_0.1,
            record_slot_tokens(record_slot_at(ts, pos)->Ok_0.0),
        ),
{
    reveal(record_slot_at);
    let (slot, n1) = slot_at(ts, pos)->Ok_0;
    lemma_slot_spelled(ts, pos);
    lemma_spelled_token(ts, pos + n1, TokenKind::Semi);
    lemma_spelled_then(ts, pos, n1, slot_tokens(slot), 1, plain(TokenKind::Semi));
}

/// The slots of a record, each with its `;`: as many as can be read.
#[verifier::opaque]
pub open spec fn record_slots_at(ts: Seq<Token>, pos: int, acc: Seq<SlotView>) -> Listed<SlotView>
    decreases ts.len() - pos,
{
    match record_slot_at(ts, pos) {
        Err(f) => Listed { items: acc, taken: 0, stopped: f },
        Ok((item, n)) => if 0 < n && pos + n <= ts.len() {
            record_slots_at(ts, pos + n, acc.push(item)).advance(n)
        } else {
            Listed { items: acc, taken: 0, stopped: ParseFailure { at: pos, expected: seq![] } }
        },
    }
}

/// Parses the items of a list from a position by the rule `record_slots_at`:
/// the items, the position after them, and the failure that ended the list.
pub fn parse_record_slots(ts: &[Token], pos: usize) -> (r: (Vec<Slot>, usize, ParseError))
    requires
        pos <= ts.len(),
    ensures
        listed(r, pos, ts.len(), record_slots_at(ts@, pos as int, Seq::empty())),
{
    let mut items: Vec<Slot> = Vec::new();
    let mut cur: usize = pos;
    let mut stopped: Option<ParseError> = None;
    assert(items.deep_view() =~= Seq::empty());
    while stopped.is_none()
        invariant
            pos <= cur <= ts.len(),
            stopped is None ==> record_slots_at(ts@, pos as int, Seq::empty()) == record_slots_at(
                ts@,
                cur as int,
                items.deep_view(),
            ).advance((cur - pos) as nat),
            stopped is Some ==> record_slots_at(ts@, pos as int, Seq::empty()) == (Listed {
                items: items.deep_view(),
                taken: (cur - pos) as nat,
                stopped: stopped->0@,
            }),
        decreases ts.len() - cur + (if stopped is None { 1int } else { 0int }),
    {
        proof {
            reveal(record_slots_at);
        }
        match parse_record_slot(ts, cur) {
            Err(e) => {
                stopped = Some(e);
            },
            Ok((item, p)) => {
                let ghost before = items.deep_view();
                let ghost added = item.deep_view();
                items.push(item);
                assert(items.deep_view() =~= before.push(added));
                cur = p;
            },
        }
    }
    (items, cur, stopped.unwrap())
}

/// The items of a list that the rule `record_slots_at` gives, from index `from` on, as
/// tokens, one after the other.
pub open spec fn record_slots_tokens(items: Seq<SlotView>, from: nat) -> Seq<TokenView>
    decreases items.len() - from,
{
    if from >= items.len() {
        Seq::empty()
    } else {
        record_slot_tokens(items[from as int]) + record_slots_tokens(items, from + 1)
    }
}

/// The tokens that the list rule `record_slots_at` read are the tokens that the
/// items it added print as, unless it read a token that they do not show.
/// The list keeps the items it started from.
pub proof fn lemma_record_slots_spelled(ts: Seq<Token>, pos: int, acc: Seq<SlotView>)
    requires
        0 <= pos <= ts.len(),
    ensures
        record_slots_at(ts, pos, acc).items.len() >= acc.len(),
        record_slots_at(
            ts,
            pos,
            acc,
        ).items.len() == acc.len() ==> record_slots_at(ts, pos, acc).taken == 0,
        forall|i: int| 0 <= i < acc.len() ==> record_slots_at(ts, pos, acc).items[i] == acc[i],
        spelled(
            ts,
            pos,
            record_slots_at(ts, pos, acc).taken,
            record_slots_tokens(record_slots_at(ts, pos, acc).items, acc.len()),
        ),
    decreases ts.len() - pos,
{
    reveal(record_slots_at);
    match record_slot_at(ts, pos) {
        Err(_) => {
            lemma_spelled_nothing(ts, pos, 0);
        },
        Ok((item, n)) => {
            let pushed = acc.push(item);
            assert forall|i: int| 0 <= i < acc.len() implies pushed[i] == acc[i] by {}
            lemma_record_slot_spelled(ts, pos);
            if 0 < n && pos + n <= ts.len() {
                let rest = record_slots_at(ts, pos + n, pushed);
                lemma_record_slots_spelled(ts, pos + n, pushed);
                assert(pushed[acc.len() as int] == item);
                assert(rest.items[acc.len() as int] == pushed[acc.len() as int]);
                lemma_spelled_then(
                    ts,
                    pos,
                    n,
                    record_slot_tokens(item),
                    rest.taken,
                    record_slots_tokens(rest.items, pushed.len()),
                );
            } else {
                lemma_spelled_nothing(ts, pos, 0);
            }
        },
    }
}

/// The rule of records: a docstring and pragmas if there are any, then `record Name[parameters] : Universe is slot; ... end;`.
#[verifier::opaque]
pub open spec fn record_at(ts: Seq<Token>, pos: int) -> Parsed<RecordDeclView>
{
    let (doc_string, n1) = opt_doc_string_at(ts, pos);
    let pragmas_list = pragmas_at(ts, pos + n1, Seq::empty());
    let pragmas = pragmas_list.items;
    let n2 = pragmas_list.taken;
    if kind_at(ts, pos + n1 + n2) != TokenKind::Record {
        fail(pos + n1 + n2, seq![TokenKind::Record])
    } else {
        match ident_at(ts, pos + n1 + n2 + 1) {
            Err(f) => Err(f),
            Ok((name, n3)) => {
                match bracketed_type_params_at(ts, pos + n1 + n2 + n3 + 1) {
                    Err(f) => Err(f),
                    Ok((type_params, n4)) => {
                        if kind_at(ts, pos + n1 + n2 + n3 + n4 + 1) != TokenKind::Colon {
                            fail(pos + n1 + n2 + n3 + n4 + 1, seq![TokenKind::Colon])
                        } else {
                            match universe_at(ts, pos + n1 + n2 + n3 + n4 + 2) {
                                Err(f) => Err(f),
                                Ok((universe, n5)) => {
                                    if kind_at(
                                        ts,
                                        pos + n1 + n2 + n3 + n4 + n5 + 2,
                                    ) != TokenKind::Is {
                                        fail(pos + n1 + n2 + n3 + n4 + n5 + 2, seq![TokenKind::Is])
                                    } else {
                                        let slots_list = record_slots_at(
                                            ts,
                                            pos + n1 + n2 + n3 + n4 + n5 + 3,
                                            Seq::empty(),
                                        );
                                        let slots = slots_list.items;
                                        let n6 = slots_list.taken;
                                        match closing(
                                            ts,
                                            pos + n1 + n2 + n3 + n4 + n5 + n6 + 3,
                                            TokenKind::End,
                                            slots_list.stopped,
                                        ) {
                                            Some(f) => Err(f),
                                            None => {
                                                if kind_at(
                                                    ts,
                                                    pos + n1 + n2 + n3 + n4 + n5 + n6 + 4,
                                                ) != TokenKind::Semi {
                                                    fail(
                                                        pos + n1 + n2 + n3 + n4 + n5 + n6 + 4,
                                                        seq![TokenKind::Semi],
                                                    )
                                                } else {
                                                    Ok((RecordDeclView { doc_string, pragmas, name, type_params, universe, slots }, n1 + n2 + n3 + n4 + n5 + n6 + 5))
                                                }
                                            },
                                        }
                                    }
                                },
                            }
                        }
                    },
                }
            },
        }
    }
}

/// Parses by the rule `record_at` at a position: the value and the position
/// after it, or the failure.
pub fn parse_record(ts: &[Token], pos: usize) -> (r: Result<(RecordDecl, usize), ParseError>)
    requires
        pos <= ts.len(),
    ensures
        parsed(r, pos, ts.len(), record_at(ts@, pos as int)),
        r is Ok ==> r->Ok_0.1 > pos,
{
    proof {
        reveal(record_at);
    }
    let (doc_string, p1) = parse_opt_doc_string(ts, pos);
    let (pragmas, p2, _) = parse_pragmas(ts, p1);
    let p3 = expect(ts, p2, TokenKind::Record)?;
    let (name, p4) = parse_ident(ts, p3)?;
    let (type_params, p5) = parse_bracketed_type_params(ts, p4)?;
    let p6 = expect(ts, p5, TokenKind::Colon)?;
    let (universe, p7) = parse_universe(ts, p6)?;
    let p8 = expect(ts, p7, TokenKind::Is)?;
    let (slots, slots_end, slots_stopped) = parse_record_slots(ts, p8);
    let p9 = close(ts, slots_end, TokenKind::End, slots_stopped)?;
    let p10 = expect(ts, p9, TokenKind::Semi)?;
    Ok((RecordDecl { doc_string, pragmas, name, type_params, universe, slots }, p10))
}

/// What the rule `record_at` gives, as tokens.
pub open spec fn record_tokens(v: RecordDeclView) -> Seq<TokenView>
{
    opt_doc_string_tokens(v.doc_string)
        + pragmas_tokens(v.pragmas, 0)
        + plain(TokenKind::Record)
        + ident_tokens(v.name)
        + bracketed_type_params_tokens(v.type_params)
        + plain(TokenKind::Colon)
        + universe_tokens(v.universe)
        + plain(TokenKind::Is)
        + record_slots_tokens(v.slots, 0)
        + plain(TokenKind::End)
        + plain(TokenKind::Semi)
}

/// The tokens that the rule `record_at` read are the tokens that its value prints
/// as, unless it read a token that the value does not show.
pub proof fn lemma_record_spelled(ts: Seq<Token>, pos: int)
    requires
        0 <= pos <= ts.len(),
        record_at(ts, pos) is Ok,
    ensures
        spelled(ts, pos, record_at(ts, pos)->Ok_0.1, record_tokens(record_at(ts, pos)->Ok_0.0)),
{
    reveal(record_at);
    let (doc_string, n1) = opt_doc_string_at(ts, pos);
    lemma_opt_doc_string_spelled(ts, pos);
    let pragmas_list = pragmas_at(ts, pos + n1, Seq::empty());
    let pragmas = pragmas_list.items;
    let n2 = pragmas_list.taken;
    lemma_pragmas_spelled(ts, pos + n1, Seq::empty());
    lemma_spelled_token(ts, pos + n1 + n2, TokenKind::Record);
    let (name, n3) = ident_at(ts, pos + n1 + n2 + 1)->Ok_0;
    lemma_ident_spelled(ts, pos + n1 + n2 + 1);
    let (type_params, n4) = bracketed_type_params_at(ts, pos + n1 + n2 + n3 + 1)->Ok_0;
    lemma_bracketed_type_params_spelled(ts, pos + n1 + n2 + n3 + 1);
    lemma_spelled_token(ts, pos + n1 + n2 + n3 + n4 + 1, TokenKind::Colon);
    let (universe, n5) = universe_at(ts, pos + n1 + n2 + n3 + n4 + 2)->Ok_0;
    lemma_universe_spelled(ts, pos + n1 + n2 + n3 + n4 + 2);
    lemma_spelled_token(ts, pos + n1 + n2 + n3 + n4 + n5 + 2, TokenKind::Is);
    let slots_list = record_slots_at(ts, pos + n1 + n2 + n3 + n4 + n5 + 3, Seq::empty());
    let slots = slots_list.items;
    let n6 = slots_list.taken;
    lemma_record_slots_spelled(ts, pos + n1 + n2 + n3 + n4 + n5 + 3, Seq::empty());
    lemma_spelled_token(ts, pos + n1 + n2 + n3 + n4 + n5 + n6 + 3, TokenKind::End);
    lemma_spelled_token(ts, pos + n1 + n2 + n3 + n4 + n5 + n6 + 4, TokenKind::Semi);
    lemma_spelled_then(
        ts,
        pos,
        n1,
        opt_doc_string_tokens(doc_string),
        n2,
        pragmas_tokens(pragmas, 0),
    );
    lemma_spelled_then(
        ts,
        pos,
        n1 + n2,
        opt_doc_string_tokens(doc_string) + pragmas_tokens(pragmas, 0),
        1,
        plain(TokenKind::Record),
    );
    lemma_spelled_then(
        ts,
        pos,
        n1 + n2 + 1,
        opt_doc_string_tokens(doc_string) + pragmas_tokens(pragmas, 0) + plain(TokenKind::Record),
        n3,
        ident_tokens(name),
    );
    lemma_spelled_then(
        ts,
        pos,
        n1 + n2 + 1 + n3,
        opt_doc_string_tokens(doc_string)
            + pragmas_tokens(pragmas, 0)
            + plain(TokenKind::Record)
            + ident_tokens(name),
        n4,
        bracketed_type_params_tokens(type_params),
    );
    lemma_spelled_then(
        ts,
        pos,
        n1 + n2 + 1 + n3 + n4,
        opt_doc_string_tokens(doc_string)
            + pragmas_tokens(pragmas, 0)
            + plain(TokenKind::Record)
            + ident_tokens(name)
            + bracketed_type_params_tokens(type_params),
        1,
        plain(TokenKind::Colon),
    );
    lemma_spelled_then(
        ts,
        pos,
        n1 + n2 + 1 + n3 + n4 + 1,
        opt_doc_string_tokens(doc_string)
            + pragmas_tokens(pragmas, 0)
            + plain(TokenKind::Record)
            + ident_tokens(name)
            + bracketed_type_params_tokens(type_params)
            + plain(TokenKind::Colon),
        n5,
        universe_tokens(universe),
    );
    lemma_spelled_then(
        ts,
        pos,
        n1 + n2 + 1 + n3 + n4 + 1 + n5,
        opt_doc_string_tokens(doc_string)
            + pragmas_tokens(pragmas, 0)
            + plain(TokenKind::Record)
            + ident_tokens(name)
            + bracketed_type_params_tokens(type_params)
            + plain(TokenKind::Colon)
            + universe_tokens(universe),
        1,
        plain(TokenKind::Is),
    );
    lemma_spelled_then(
        ts,
        pos,
        n1 + n2 + 1 + n3 + n4 + 1 + n5 + 1,
        opt_doc_string_tokens(doc_string)
            + pragmas_tokens(pragmas, 0)
            + plain(TokenKind::Record)
            + ident_tokens(name)
            + bracketed_type_params_tokens(type_params)
            + plain(TokenKind::Colon)
            + universe_tokens(universe)
            + plain(TokenKind::Is),
        n6,
        record_slots_tokens(slots, 0),
    );
    lemma_spelled_then(
        ts,
        pos,
        n1 + n2 + 1 + n3 + n4 + 1 + n5 + 1 + n6,
        opt_doc_string_tokens(doc_string)
            + pragmas_tokens(pragmas, 0)
            + plain(TokenKind::Record)
            + ident_tokens(name)
            + bracketed_type_params_tokens(type_params)
            + plain(TokenKind::Colon)
            + universe_tokens(universe)
            + plain(TokenKind::Is)
            + record_slots_tokens(slots, 0),
        1,
        plain(TokenKind::End),
    );
    lemma_spelled_then(
        ts,
        pos,
        n1 + n2 + 1 + n3 + n4 + 1 + n5 + 1 + n6 + 1,
        opt_doc_string_tokens(doc_string)
            + pragmas_tokens(pragmas, 0)
            + plain(TokenKind::Record)
            + ident_tokens(name)
            + bracketed_type_params_tokens(type_params)
            + plain(TokenKind::Colon)
            + universe_tokens(universe)
            + plain(TokenKind::Is)
            + record_slots_tokens(slots, 0)
            + plain(TokenKind::End),
        1,
        plain(TokenKind::Semi),
    );
}

impl RecordDecl {
    /// Parses the whole of `tokens` by the rule `record_at`.
    pub fn parser(tokens: &[Token]) -> (r: Result<RecordDecl, ParseError>)
        ensures
            parsed_whole(r, whole(record_at(tokens@, 0), tokens@.len())),
    {
        complete(parse_record(tokens, 0), tokens.len(), Ghost(record_at(tokens@, 0)))
    }
}

impl Slot {
    /// Parses the whole of `tokens` by the rule `slot_at`.
    pub fn parser(tokens: &[Token]) -> (r: Result<Slot, ParseError>)
        ensures
            parsed_whole(r, whole(slot_at(tokens@, 0), tokens@.len())),
    {
        complete(parse_slot(tokens, 0), tokens.len(), Ghost(slot_at(tokens@, 0)))
    }
}

} // verus!
