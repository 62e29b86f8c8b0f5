//! What the grammar rules share: positions in a token sequence, parse
//! failures, and how a rule's result is held against its definition.
//!
//! Every rule of the grammar is a function from a token sequence and a
//! position to either a value and the number of tokens that it takes, or a
//! failure: the position of the token that does not fit and the kinds of
//! token that would have.

use crate::ast::common::{Ident, Universe};
use crate::lexer::{Token, TokenKind, TokenView};
use vstd::prelude::*;

verus! {

/// A parse failure: the index of the first token that does not fit, and the
/// kinds of token that would have fitted there.
#[derive(Debug, PartialEq)]
pub struct ParseError {
    pub position: usize,
    pub expected: Vec<TokenKind>,
}

/// A parse failure as a plain value.
pub struct ParseFailure {
    pub at: int,
    pub expected: Seq<TokenKind>,
}

impl View for ParseError {
    type V = ParseFailure;

    open spec fn view(&self) -> ParseFailure {
        ParseFailure { at: self.position as int, expected: self.expected@ }
    }
}

/// What a rule gives at a position: a value and the number of tokens taken,
/// or a failure.
pub type Parsed<V> = Result<(V, nat), ParseFailure>;

/// The token at a position, if there is one.
pub open spec fn token_at(ts: Seq<Token>, pos: int) -> Option<Token> {
    if 0 <= pos < ts.len() {
        Some(ts[pos])
    } else {
        None
    }
}

/// The kind of the token at a position; `EndOfInput` where there is none.
pub open spec fn kind_at(ts: Seq<Token>, pos: int) -> TokenKind {
    if 0 <= pos < ts.len() {
        ts[pos].kind_of()
    } else {
        TokenKind::EndOfInput
    }
}

/// The failure at `pos` for want of one of the kinds `expected`.
pub open spec fn fail<V>(pos: int, expected: Seq<TokenKind>) -> Parsed<V> {
    Err(ParseFailure { at: pos, expected })
}

/// The later of two failures; where both are at one position, that position
/// with the kinds that either expected.
pub open spec fn furthest(a: ParseFailure, b: ParseFailure) -> ParseFailure {
    if b.at > a.at {
        b
    } else if a.at > b.at {
        a
    } else {
        ParseFailure { at: a.at, expected: a.expected + b.expected }
    }
}

/// What a list rule gives at a position. A list never fails: it ends where
/// no further item can be read, and `stopped` says why none could.
pub struct Listed<V> {
    pub items: Seq<V>,
    pub taken: nat,
    pub stopped: ParseFailure,
}

impl<V> Listed<V> {
    /// The same list with `by` more tokens taken.
    pub open spec fn advance(self, by: nat) -> Listed<V> {
        Listed { items: self.items, taken: self.taken + by, stopped: self.stopped }
    }
}

/// The token that must follow a list: none is missing if it is there; else
/// the failure is the later of the list's own and the want of that token.
pub open spec fn closing(
    ts: Seq<Token>,
    pos: int,
    kind: TokenKind,
    stopped: ParseFailure,
) -> Option<
    ParseFailure,
> {
    if kind_at(ts, pos) == kind {
        None
    } else {
        Some(furthest(stopped, ParseFailure { at: pos, expected: seq![kind] }))
    }
}

/// Whether what a list parser returned from `pos` is what its rule gives.
pub open spec fn listed<T: DeepView>(
    r: (Vec<T>, usize, ParseError),
    pos: usize,
    len: usize,
    rule: Listed<T::V>,
) -> bool {
    &&& r.0.deep_view() == rule.items
    &&& r.1 == pos + rule.taken
    &&& r.1 <= len
    &&& r.2@ == rule.stopped
}

/// A rule applied to the whole input: its value if it takes every token,
/// else a failure for want of the end of input.
pub open spec fn whole<V>(r: Parsed<V>, len: nat) -> Result<V, ParseFailure> {
    match r {
        Ok((v, n)) => if n == len {
            Ok(v)
        } else {
            Err(ParseFailure { at: n as int, expected: seq![TokenKind::EndOfInput] })
        },
        Err(f) => Err(f),
    }
}

/// Whether what a parser returned from `pos` is what its rule gives there:
/// the same value and the position after the tokens taken, which is within
/// the input, or the same failure.
pub open spec fn parsed<T: DeepView>(
    r: Result<(T, usize), ParseError>,
    pos: usize,
    len: usize,
    rule: Parsed<T::V>,
) -> bool {
    match (r, rule) {
        (Ok((v, p)), Ok((m, n))) => v.deep_view() == m && p == pos + n && p <= len,
        (Err(e), Err(f)) => e@ == f,
        _ => false,
    }
}

/// Whether what a parser of the whole input returned is what its rule gives.
pub open spec fn parsed_whole<T: DeepView>(
    r: Result<T, ParseError>,
    rule: Result<T::V, ParseFailure>,
) -> bool {
    match (r, rule) {
        (Ok(v), Ok(m)) => v.deep_view() == m,
        (Err(e), Err(f)) => e@ == f,
        _ => false,
    }
}

/// The kind of the token at a position.
pub fn peek(ts: &[Token], pos: usize) -> (k: TokenKind)
    ensures
        k == kind_at(ts@, pos as int),
{
    if pos < ts.len() {
        ts[pos].kind()
    } else {
        TokenKind::EndOfInput
    }
}

/// The failure at `pos` for want of one of the kinds `expected`.
pub fn unexpected(pos: usize, expected: Vec<TokenKind>) -> (e: ParseError)
    ensures
        e@ == (ParseFailure { at: pos as int, expected: expected@ }),
{
    ParseError { position: pos, expected }
}

/// The failure at `pos` for want of a token of kind `kind`.
pub fn missing(pos: usize, kind: TokenKind) -> (e: ParseError)
    ensures
        e@ == (ParseFailure { at: pos as int, expected: seq![kind] }),
{
    let mut expected: Vec<TokenKind> = Vec::new();
    expected.push(kind);
    assert(expected@ =~= seq![kind]);
    ParseError { position: pos, expected }
}

/// The later of two failures, or both together where they are at one position.
pub fn later(a: ParseError, b: ParseError) -> (e: ParseError)
    ensures
        e@ == furthest(a@, b@),
{
    if b.position > a.position {
        b
    } else if a.position > b.position {
        a
    } else {
        let mut merged = a;
        let mut more = b.expected;
        merged.expected.append(&mut more);
        merged
    }
}

/// Takes the token of kind `kind` at `pos`, or fails for want of it.
pub fn expect(ts: &[Token], pos: usize, kind: TokenKind) -> (r: Result<usize, ParseError>)
    requires
        kind != TokenKind::EndOfInput,
    ensures
        kind_at(ts@, pos as int) == kind ==> r == Ok::<usize, ParseError>((pos + 1) as usize)
            && pos < ts.len(),
        kind_at(ts@, pos as int) != kind ==> r is Err && r->Err_0@ == (ParseFailure {
            at: pos as int,
            expected: seq![kind],
        }),
{
    if pos < ts.len() && ts[pos].kind() == kind {
        Ok(pos + 1)
    } else {
        Err(missing(pos, kind))
    }
}

/// Takes the token of kind `kind` that must follow a list which stopped for
/// the reason `stopped`.
pub fn close(ts: &[Token], pos: usize, kind: TokenKind, stopped: ParseError) -> (r: Result<
    usize,
    ParseError,
>)
    requires
        kind != TokenKind::EndOfInput,
    ensures
        match closing(ts@, pos as int, kind, stopped@) {
            None => r == Ok::<usize, ParseError>((pos + 1) as usize) && pos < ts.len(),
            Some(f) => r is Err && r->Err_0@ == f,
        },
{
    if pos < ts.len() && ts[pos].kind() == kind {
        Ok(pos + 1)
    } else {
        Err(later(stopped, missing(pos, kind)))
    }
}

/// Ends a parse of the whole input: the value, if every token was taken.
pub fn complete<T: DeepView>(
    r: Result<(T, usize), ParseError>,
    len: usize,
    Ghost(rule): Ghost<Parsed<T::V>>,
) -> (out: Result<T, ParseError>)
    requires
        parsed(r, 0, len, rule),
    ensures
        parsed_whole(out, whole(rule, len as nat)),
{
    match r {
        Ok((v, p)) => {
            if p == len {
                Ok(v)
            } else {
                Err(missing(p, TokenKind::EndOfInput))
            }
        },
        Err(e) => Err(e),
    }
}

/// The `n` tokens from `pos` on, as plain values.
pub open spec fn views(ts: Seq<Token>, pos: int, n: nat) -> Seq<TokenView> {
    Seq::new(n, |k: int| ts[pos + k]@)
}

/// The one token of a kind that carries nothing.
pub open spec fn plain(kind: TokenKind) -> Seq<TokenView> {
    seq![TokenView::Plain(kind)]
}

/// The kinds of token that carry something.
pub open spec fn carries(kind: TokenKind) -> bool {
    kind == TokenKind::Universe || kind == TokenKind::String || kind == TokenKind::TripleString
        || kind == TokenKind::Char || kind == TokenKind::Decimal || kind == TokenKind::Float || kind
        == TokenKind::Ident
}

/// Whether `printed`, the printed form of a value that a rule read from the
/// `n` tokens at `pos`, agrees with those tokens: they are in the input,
/// the printed form is not longer than they are, and if it is as long, it
/// is those tokens. It is shorter where the rule took a token that the
/// value does not show: a comma after the last item of a list, or brackets
/// around nothing.
pub open spec fn spelled(ts: Seq<Token>, pos: int, n: nat, printed: Seq<TokenView>) -> bool {
    &&& 0 <= pos
    &&& pos + n <= ts.len()
    &&& printed.len() <= n
    &&& printed.len() == n ==> printed == views(ts, pos, n)
}

/// Two parts that agree with the tokens they were read from, one after the
/// other, agree with the tokens of both.
pub proof fn lemma_spelled_then(
    ts: Seq<Token>,
    pos: int,
    n1: nat,
    first: Seq<TokenView>,
    n2: nat,
    second: Seq<TokenView>,
)
    requires
        spelled(ts, pos, n1, first),
        spelled(ts, pos + n1, n2, second),
    ensures
        spelled(ts, pos, n1 + n2, first + second),
{
    if (first + second).len() == n1 + n2 {
        assert(first + second =~= views(ts, pos, n1 + n2));
    }
}

/// A token of a kind that carries nothing agrees with its printed form.
pub proof fn lemma_spelled_token(ts: Seq<Token>, pos: int, kind: TokenKind)
    requires
        0 <= pos,
        kind_at(ts, pos) == kind,
        kind != TokenKind::EndOfInput,
        !carries(kind),
    ensures
        spelled(ts, pos, 1, plain(kind)),
{
    assert(plain(kind) =~= views(ts, pos, 1));
}

/// A part that agrees with the tokens it was read from still agrees when a
/// token after them was taken too.
pub proof fn lemma_spelled_more(
    ts: Seq<Token>,
    pos: int,
    n: nat,
    printed: Seq<TokenView>,
    more: nat,
)
    requires
        spelled(ts, pos, n, printed),
        more > 0,
        pos + n + more <= ts.len(),
    ensures
        spelled(ts, pos, n + more, printed),
{
}

/// Nothing printed agrees with any tokens of the input.
pub proof fn lemma_spelled_nothing(ts: Seq<Token>, pos: int, n: nat)
    requires
        0 <= pos,
        pos + n <= ts.len(),
    ensures
        spelled(ts, pos, n, Seq::empty()),
{
    if n == 0 {
        assert(Seq::<TokenView>::empty() =~= views(ts, pos, 0));
    }
}

} // verus!
