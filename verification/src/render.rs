//! The spelling of tokens: the text that a token sequence is written as,
//! and the proof that the lexer reads that text back as the same tokens.

use crate::ast::grammar::whole;
use crate::ast::modules::{
    law_parse_then_print, module_at, module_tokens, token_views, Module,
};
use crate::ast::printer::print;
use crate::lexer::{
    chars_of, Token,
    char_at, char_literal_at, decimal_value, digit_run, embed_at, escapes, exponent_len, ident_run,
    is_blank, is_digit, is_ident_char, is_ident_start, keyword, lex_from, lexeme_at, number_at,
    operator_at, string_at, string_end, tokens_of, triple_string_end, unescape, word_at, Lexed,
    Lexeme, TokenKind, TokenView, Universe,
};
use vstd::prelude::*;

verus! {

/// The digits that write a number in base ten, the last digit last.
pub open spec fn decimal_digits(n: nat) -> Seq<char>
    decreases n,
{
    if n < 10 {
        seq![digit_char(n)]
    } else {
        decimal_digits(n / 10).push(digit_char(n % 10))
    }
}

/// The character of a digit.
pub open spec fn digit_char(d: nat) -> char {
    if d == 0 {
        '0'
    } else if d == 1 {
        '1'
    } else if d == 2 {
        '2'
    } else if d == 3 {
        '3'
    } else if d == 4 {
        '4'
    } else if d == 5 {
        '5'
    } else if d == 6 {
        '6'
    } else if d == 7 {
        '7'
    } else if d == 8 {
        '8'
    } else {
        '9'
    }
}

fn digit_of(d: u64) -> (c: char)
    requires
        d < 10,
    ensures
        c == digit_char(d as nat),
{
    if d == 0 {
        '0'
    } else if d == 1 {
        '1'
    } else if d == 2 {
        '2'
    } else if d == 3 {
        '3'
    } else if d == 4 {
        '4'
    } else if d == 5 {
        '5'
    } else if d == 6 {
        '6'
    } else if d == 7 {
        '7'
    } else if d == 8 {
        '8'
    } else {
        '9'
    }
}

/// Writes a number in base ten.
pub fn decimal_text(n: u64) -> (text: String)
    ensures
        text@ == decimal_digits(n as nat),
    decreases n,
{
    if n < 10 {
        let mut text = String::new();
        text.push(digit_of(n));
        assert(text@ =~= seq![digit_char(n as nat)]);
        text
    } else {
        let mut text = decimal_text(n / 10);
        text.push(digit_of(n % 10));
        text
    }
}

/// How an operator or a mark of punctuation is spelled; no text for any
/// other kind of token.
pub open spec fn operator_text(kind: TokenKind) -> Seq<char> {
    match kind {
        TokenKind::LParen => seq!['('],
        TokenKind::RParen => seq![')'],
        TokenKind::LBracket => seq!['['],
        TokenKind::RBracket => seq![']'],
        TokenKind::LBrace => seq!['{'],
        TokenKind::RBrace => seq!['}'],
        TokenKind::Add => seq!['+'],
        TokenKind::Sub => seq!['-'],
        TokenKind::Mul => seq!['*'],
        TokenKind::Div => seq!['/'],
        TokenKind::Eq => seq!['='],
        TokenKind::NotEq => seq!['/', '='],
        TokenKind::Lt => seq!['<'],
        TokenKind::LtEq => seq!['<', '='],
        TokenKind::Gt => seq!['>'],
        TokenKind::GtEq => seq!['>', '='],
        TokenKind::BorrowRead => seq!['&'],
        TokenKind::BorrowWrite => seq!['&', '!'],
        TokenKind::ReBorrow => seq!['&', '~'],
        TokenKind::RefTransform => seq!['&', '('],
        TokenKind::Semi => seq![';'],
        TokenKind::Comma => seq![','],
        TokenKind::Period => seq!['.'],
        TokenKind::Colon => seq![':'],
        TokenKind::HypenRight => seq!['-', '>'],
        TokenKind::ArrowRight => seq!['=', '>'],
        TokenKind::Assign => seq![':', '='],
        TokenKind::Deref => seq!['!'],
        _ => Seq::empty(),
    }
}

/// How a reserved word is spelled; no text for any other kind of token.
pub open spec fn word_text(kind: TokenKind) -> Seq<char> {
    match kind {
        TokenKind::And => "and"@,
        TokenKind::Or => "or"@,
        TokenKind::Not => "not"@,
        TokenKind::SpanRead => "Span"@,
        TokenKind::Module => "module"@,
        TokenKind::Is => "is"@,
        TokenKind::Body => "body"@,
        TokenKind::Import => "import"@,
        TokenKind::As => "as"@,
        TokenKind::End => "end"@,
        TokenKind::Constant => "constant"@,
        TokenKind::Type => "type"@,
        TokenKind::Function => "function"@,
        TokenKind::Generic => "generic"@,
        TokenKind::Record => "record"@,
        TokenKind::Union => "union"@,
        TokenKind::Case => "case"@,
        TokenKind::Of => "of"@,
        TokenKind::When => "when"@,
        TokenKind::TypeClass => "typeclass"@,
        TokenKind::Instance => "instance"@,
        TokenKind::Method => "method"@,
        TokenKind::If => "if"@,
        TokenKind::Then => "then"@,
        TokenKind::Else => "else"@,
        TokenKind::Let => "let"@,
        TokenKind::Var => "var"@,
        TokenKind::While => "while"@,
        TokenKind::For => "for"@,
        TokenKind::Do => "do"@,
        TokenKind::From => "from"@,
        TokenKind::To => "to"@,
        TokenKind::Borrow => "borrow"@,
        TokenKind::Return => "return"@,
        TokenKind::Skip => "skip"@,
        TokenKind::Pragma => "pragma"@,
        TokenKind::SizeOf => "sizeof"@,
        TokenKind::Nil => "nil"@,
        TokenKind::True => "true"@,
        TokenKind::False => "false"@,
        TokenKind::SpanWrite => "Span"@.push('!'),
        TokenKind::Embed => "@embed"@,
        _ => Seq::empty(),
    }
}

/// Whether a kind of token is an operator or a mark of punctuation.
pub open spec fn is_operator(kind: TokenKind) -> bool {
    match kind {
        TokenKind::LParen | TokenKind::RParen | TokenKind::LBracket | TokenKind::RBracket | TokenKind::LBrace | TokenKind::RBrace | TokenKind::Add | TokenKind::Sub | TokenKind::Mul | TokenKind::Div | TokenKind::Eq | TokenKind::NotEq | TokenKind::Lt | TokenKind::LtEq | TokenKind::Gt | TokenKind::GtEq | TokenKind::BorrowRead | TokenKind::BorrowWrite | TokenKind::ReBorrow | TokenKind::RefTransform | TokenKind::Semi | TokenKind::Comma | TokenKind::Period | TokenKind::Colon | TokenKind::HypenRight | TokenKind::ArrowRight | TokenKind::Assign | TokenKind::Deref => true,
        _ => false,
    }
}

/// How the name of a universe is spelled.
pub open spec fn universe_text(u: Universe) -> Seq<char> {
    match u {
        Universe::Free => "Free"@,
        Universe::Linear => "Linear"@,
        Universe::Type => "Type"@,
        Universe::Region => "Region"@,
    }
}

/// The contents of a string with their escapes: a backslash before each
/// `"` and each backslash.
pub open spec fn escaped(s: Seq<char>) -> Seq<char>
    decreases s.len(),
{
    if s.len() == 0 {
        s
    } else if s[0] == '"' || s[0] == '\\' {
        seq!['\\', s[0]] + escaped(s.skip(1))
    } else {
        seq![s[0]] + escaped(s.skip(1))
    }
}

/// How a token is spelled. A decimal is spelled without leading zeros, a
/// float as the token holds it, and a string with its escapes.
pub open spec fn spelling(t: TokenView) -> Seq<char> {
    match t {
        TokenView::Plain(kind) => if is_operator(kind) {
            operator_text(kind)
        } else {
            word_text(kind)
        },
        TokenView::Universe(u) => universe_text(u),
        TokenView::String(s) => seq!['"'] + escaped(s) + seq!['"'],
        TokenView::TripleString(s) => seq!['"', '"', '"'] + escaped(s) + seq!['"', '"', '"'],
        TokenView::Char(c) => if c == '\'' {
            seq!['\'', '\\', '\'', '\'']
        } else {
            seq!['\'', c, '\'']
        },
        TokenView::Decimal(n) => decimal_digits(n as nat),
        TokenView::Float(text) => text,
        TokenView::Ident(text) => text,
    }
}

/// The text of the tokens from index `k` on: each token as it is spelled,
/// with a space after it.
pub open spec fn render(ts: Seq<TokenView>, k: nat) -> Seq<char>
    decreases ts.len() - k,
{
    if k >= ts.len() {
        Seq::empty()
    } else {
        spelling(ts[k as int]).push(' ') + render(ts, k + 1)
    }
}

/// Whether a token is one that the lexer gives: some source holds it.
pub open spec fn lexed_token(t: TokenView) -> bool {
    exists|src: Seq<char>, pos: int, n: nat| lexeme_at(src, pos) == Lexeme::Token(t, n)
}

/// The tokens of what the lexer read, without their places.
pub open spec fn tokens_in(found: Seq<Lexed>) -> Seq<TokenView> {
    Seq::new(found.len(), |i: int| found[i].token)
}

/// Whether `text`, and a space after it, stand in `b` at `p`.
pub open spec fn stands(b: Seq<char>, p: int, text: Seq<char>) -> bool {
    &&& 0 <= p
    &&& p + text.len() < b.len()
    &&& b.subrange(p, p + text.len()) == text
    &&& b[p + text.len()] == ' '
}

proof fn lemma_stands(b: Seq<char>, p: int, text: Seq<char>)
    requires
        stands(b, p, text),
    ensures
        forall|j: int| 0 <= j < text.len() ==> b[p + j] == #[trigger] text[j],
{
    assert forall|j: int| 0 <= j < text.len() implies b[p + j] == #[trigger] text[j] by {
        assert(b.subrange(p, p + text.len())[j] == b[p + j]);
    }
}

proof fn lemma_ident_run(src: Seq<char>, pos: int)
    requires
        0 <= pos,
    ensures
        pos + ident_run(src, pos) <= src.len() || ident_run(src, pos) == 0,
        forall|j: int| 0 <= j < ident_run(src, pos) ==> is_ident_char(#[trigger] src[pos + j]),
        pos + ident_run(src, pos) < src.len() ==> !is_ident_char(src[pos + ident_run(src, pos)]),
    decreases src.len() - pos,
{
    if pos < src.len() && is_ident_char(src[pos]) {
        lemma_ident_run(src, pos + 1);
        assert forall|j: int| 0 <= j < ident_run(src, pos) implies is_ident_char(
            #[trigger] src[pos + j],
        ) by {
            if j > 0 {
                assert(is_ident_char(src[pos + 1 + (j - 1)]));
            }
        }
    }
}

proof fn lemma_ident_run_is(b: Seq<char>, p: int, m: nat)
    requires
        0 <= p,
        p + m <= b.len(),
        forall|j: int| 0 <= j < m ==> is_ident_char(#[trigger] b[p + j]),
        p + m < b.len() ==> !is_ident_char(b[p + m]),
    ensures
        ident_run(b, p) == m,
    decreases m,
{
    if m > 0 {
        assert(is_ident_char(b[p + 0]));
        assert forall|j: int| 0 <= j < m - 1 implies is_ident_char(#[trigger] b[p + 1 + j]) by {
            assert(is_ident_char(b[p + (j + 1)]));
        }
        lemma_ident_run_is(b, p + 1, (m - 1) as nat);
    }
}

proof fn lemma_digit_run_bound(src: Seq<char>, pos: int)
    requires
        0 <= pos,
    ensures
        pos + digit_run(src, pos) <= src.len() || digit_run(src, pos) == 0,
    decreases src.len() - pos,
{
    if pos < src.len() && is_digit(src[pos]) {
        lemma_digit_run_bound(src, pos + 1);
    }
}

/// Two texts that hold the same characters in a range hold the same run
/// of digits in it, if the run ends inside the range or where the second
/// text has no digit.
proof fn lemma_digits_agree(a: Seq<char>, pa: int, b: Seq<char>, pb: int, n: nat, i: int)
    requires
        0 <= pa,
        0 <= pb,
        pa + n <= a.len(),
        pb + n < b.len(),
        forall|j: int| 0 <= j < n ==> a[pa + j] == #[trigger] b[pb + j],
        !is_digit(b[pb + n]),
        0 <= i <= n,
        i + digit_run(a, pa + i) <= n,
    ensures
        digit_run(b, pb + i) == digit_run(a, pa + i),
    decreases n - i,
{
    if i < n {
        assert(a[pa + i] == b[pb + i]);
        if is_digit(a[pa + i]) {
            lemma_digits_agree(a, pa, b, pb, n, i + 1);
        }
    }
}

proof fn lemma_digit_run_is(b: Seq<char>, p: int, m: nat)
    requires
        0 <= p,
        p + m <= b.len(),
        forall|j: int| 0 <= j < m ==> is_digit(#[trigger] b[p + j]),
        p + m < b.len() ==> !is_digit(b[p + m]),
    ensures
        digit_run(b, p) == m,
    decreases m,
{
    if m > 0 {
        assert(is_digit(b[p + 0]));
        assert forall|j: int| 0 <= j < m - 1 implies is_digit(#[trigger] b[p + 1 + j]) by {
            assert(is_digit(b[p + (j + 1)]));
        }
        lemma_digit_run_is(b, p + 1, (m - 1) as nat);
    }
}

/// The digits of a number are digits, and they write the number.
pub proof fn lemma_decimal_digits(n: nat)
    ensures
        decimal_digits(n).len() > 0,
        forall|j: int| 0 <= j < decimal_digits(n).len() ==> is_digit(#[trigger] decimal_digits(n)[j]),
        decimal_value(decimal_digits(n)) == n,
    decreases n,
{
    if n < 10 {
        let d = decimal_digits(n);
        assert(d.drop_last() =~= Seq::<char>::empty());
        assert(decimal_value(d.drop_last()) == 0);
        assert(d.last() == digit_char(n));
    } else {
        lemma_decimal_digits(n / 10);
        let d = decimal_digits(n);
        assert(d.drop_last() =~= decimal_digits(n / 10));
        assert(d.last() == digit_char(n % 10));
        assert forall|j: int| 0 <= j < d.len() implies is_digit(#[trigger] d[j]) by {
            if j < d.len() - 1 {
                assert(d[j] == decimal_digits(n / 10)[j]);
            }
        }
    }
}

proof fn lemma_word(src: Seq<char>, pos: int, t: TokenView, n: nat, b: Seq<char>, p: int)
    requires
        0 <= pos < src.len(),
        is_ident_start(src[pos]),
        word_at(src, pos) == Some((t, n)),
        stands(b, p, spelling(t)),
    ensures
        word_at(b, p) == Some((t, spelling(t).len())),
        is_ident_start(b[p]),
        spelling(t).len() > 0,
{
    let m = ident_run(src, pos);
    let text = src.subrange(pos, pos + m);
    lemma_ident_run(src, pos);
    assert(m >= 1);
    assert forall|j: int| 0 <= j < m implies is_ident_char(#[trigger] text[j]) by {
        assert(text[j] == src[pos + j]);
    }
    assert(text[0] == src[pos + 0]);
    lemma_stands(b, p, spelling(t));
    if text == "Span"@ && char_at(src, pos + m) == Some('!') {
        let sp = spelling(t);
        assert(sp == text.push('!'));
        assert forall|j: int| 0 <= j < m implies is_ident_char(#[trigger] b[p + j]) by {
            assert(b[p + j] == sp[j]);
            assert(sp[j] == text[j]);
        }
        assert(b[p + m] == sp[m as int]);
        lemma_ident_run_is(b, p, m);
        assert(b.subrange(p, p + m) =~= text);
        assert(b[p + 0] == sp[0]);
    } else {
        assert(spelling(t) == text) by {
            lemma_keyword_text(text, t);
        }
        assert forall|j: int| 0 <= j < m implies is_ident_char(#[trigger] b[p + j]) by {
            assert(b[p + j] == text[j]);
        }
        lemma_ident_run_is(b, p, m);
        assert(b[p + 0] == text[0]);
    }
}

/// A reserved word is spelled as the text that the lexer knows it by.
proof fn lemma_keyword_text(text: Seq<char>, t: TokenView)
    requires
        match keyword(text) {
            Some(token) => t == token,
            None => t == TokenView::Ident(text),
        },
    ensures
        spelling(t) == text,
{
}

proof fn lemma_float(src: Seq<char>, pos: int, text: Seq<char>, n: nat, b: Seq<char>, p: int)
    requires
        0 <= pos < src.len(),
        number_at(src, pos) == Some((TokenView::Float(text), n)),
        stands(b, p, text),
    ensures
        number_at(b, p) == Some((TokenView::Float(text), n)),
        text.len() == n,
        n > 0,
        b[p] == src[pos],
{
    let sign: nat = if char_at(src, pos) == Some('+') || char_at(src, pos) == Some('-') {
        1
    } else {
        0
    };
    let whole = digit_run(src, pos + sign);
    lemma_digit_run_bound(src, pos + sign);
    let fraction = digit_run(src, pos + sign + whole + 1);
    lemma_digit_run_bound(src, pos + sign + whole + 1);
    let at = sign + whole + 1 + fraction;
    let exponent = exponent_len(src, pos + at);
    let esign: nat = if char_at(src, pos + at + 1) == Some('+') || char_at(src, pos + at + 1) == Some('-') {
        1
    } else {
        0
    };
    lemma_digit_run_bound(src, pos + at + 1 + esign);
    assert(n == at + exponent);
    assert(pos + n <= src.len());
    assert(text == src.subrange(pos, pos + n));
    lemma_stands(b, p, text);
    assert forall|j: int| 0 <= j < n implies src[pos + j] == #[trigger] b[p + j] by {
        assert(text[j] == src[pos + j]);
        assert(b[p + j] == text[j]);
    }
    assert(src[pos + 0] == b[p + 0]);
    lemma_digits_agree(src, pos, b, p, n, sign as int);
    assert(src[pos + (sign + whole)] == b[p + (sign + whole)]);
    lemma_digits_agree(src, pos, b, p, n, (sign + whole + 1) as int);
    if exponent > 0 {
        assert(src[pos + at] == b[p + at]);
        assert(src[pos + (at + 1)] == b[p + (at + 1)]);
        lemma_digits_agree(src, pos, b, p, n, (at + 1 + esign) as int);
    }
    assert(b.subrange(p, p + n) == text);
}

proof fn lemma_decimal(v: u64, b: Seq<char>, p: int)
    requires
        stands(b, p, decimal_digits(v as nat)),
    ensures
        number_at(b, p) == Some((TokenView::Decimal(v), decimal_digits(v as nat).len())),
        is_digit(b[p]),
{
    let d = decimal_digits(v as nat);
    lemma_decimal_digits(v as nat);
    lemma_stands(b, p, d);
    assert forall|j: int| 0 <= j < d.len() implies is_digit(#[trigger] b[p + j]) by {
        assert(b[p + j] == d[j]);
    }
    lemma_digit_run_is(b, p, d.len());
    assert(b[p + 0] == d[0]);
}

/// Whether a text holds no line feed.
pub open spec fn one_line(s: Seq<char>) -> bool {
    forall|i: int| 0 <= i < s.len() ==> #[trigger] s[i] != '\n'
}

proof fn lemma_string_end(src: Seq<char>, q: int)
    requires
        0 <= q,
    ensures
        string_end(src, q) matches Some(end) ==> q <= end < src.len() && forall|i: int|
            q <= i < end ==> #[trigger] src[i] != '\n',
    decreases src.len() - q,
{
    if q < src.len() && src[q] != '"' && src[q] != '\n' {
        if escapes(src, q) {
            lemma_string_end(src, q + 2);
        } else {
            lemma_string_end(src, q + 1);
        }
    }
}

proof fn lemma_triple_string_end(src: Seq<char>, q: int)
    requires
        0 <= q,
    ensures
        triple_string_end(src, q) matches Some(end) ==> q <= end < src.len(),
    decreases src.len() - q,
{
    if q < src.len() && !(src[q] == '"' && char_at(src, q + 1) == Some('"') && char_at(src, q + 2)
        == Some('"')) {
        if escapes(src, q) {
            lemma_triple_string_end(src, q + 2);
        } else {
            lemma_triple_string_end(src, q + 1);
        }
    }
}

proof fn lemma_unescape_one_line(s: Seq<char>)
    requires
        one_line(s),
    ensures
        one_line(unescape(s)),
    decreases s.len(),
{
    if s.len() > 0 {
        if escapes(s, 0) {
            let rest = s.skip(2);
            assert forall|i: int| 0 <= i < rest.len() implies #[trigger] rest[i] != '\n' by {
                assert(rest[i] == s[i + 2]);
            }
            lemma_unescape_one_line(rest);
            let r = seq![s[1]] + unescape(rest);
            assert forall|i: int| 0 <= i < r.len() implies #[trigger] r[i] != '\n' by {
                if i > 0 {
                    assert(r[i] == unescape(rest)[i - 1]);
                }
            }
        } else {
            let rest = s.skip(1);
            assert forall|i: int| 0 <= i < rest.len() implies #[trigger] rest[i] != '\n' by {
                assert(rest[i] == s[i + 1]);
            }
            lemma_unescape_one_line(rest);
            let r = seq![s[0]] + unescape(rest);
            assert forall|i: int| 0 <= i < r.len() implies #[trigger] r[i] != '\n' by {
                if i > 0 {
                    assert(r[i] == unescape(rest)[i - 1]);
                }
            }
        }
    }
}

/// Taking the escapes out of a text with its escapes gives the text.
pub proof fn lemma_unescape_escaped(s: Seq<char>)
    ensures
        unescape(escaped(s)) == s,
    decreases s.len(),
{
    if s.len() > 0 {
        let rest = s.skip(1);
        let e = escaped(s);
        lemma_unescape_escaped(rest);
        if s[0] == '"' || s[0] == '\\' {
            assert(e[0] == '\\');
            assert(e[1] == s[0]);
            assert(e.skip(2) =~= escaped(rest));
            assert(unescape(e) =~= seq![s[0]] + rest);
        } else {
            assert(e[0] == s[0]);
            assert(e.skip(1) =~= escaped(rest));
            assert(unescape(e) =~= seq![s[0]] + rest);
        }
        assert(seq![s[0]] + rest =~= s);
    } else {
        assert(escaped(s) =~= s);
    }
}

proof fn lemma_string_end_escaped(b: Seq<char>, q: int, s: Seq<char>)
    requires
        one_line(s),
        0 <= q,
        q + escaped(s).len() < b.len(),
        b.subrange(q, q + escaped(s).len()) == escaped(s),
        b[q + escaped(s).len()] == '"',
    ensures
        string_end(b, q) == Some(q + escaped(s).len()),
    decreases s.len(),
{
    let e = escaped(s);
    if s.len() > 0 {
        let rest = s.skip(1);
        assert(s[0] != '\n');
        assert forall|i: int| 0 <= i < rest.len() implies #[trigger] rest[i] != '\n' by {
            assert(rest[i] == s[i + 1]);
        }
        assert(b[q] == e[0]) by {
            assert(b.subrange(q, q + e.len())[0] == b[q]);
        }
        if s[0] == '"' || s[0] == '\\' {
            assert(b[q + 1] == e[1]) by {
                assert(b.subrange(q, q + e.len())[1] == b[q + 1]);
            }
            assert(e.skip(2) =~= escaped(rest));
            assert(b.subrange(q + 2, q + 2 + escaped(rest).len()) =~= b.subrange(q, q + e.len()).skip(2));
            lemma_string_end_escaped(b, q + 2, rest);
        } else {
            assert(e.skip(1) =~= escaped(rest));
            assert(b.subrange(q + 1, q + 1 + escaped(rest).len()) =~= b.subrange(q, q + e.len()).skip(1));
            lemma_string_end_escaped(b, q + 1, rest);
        }
    }
}

proof fn lemma_triple_end_escaped(b: Seq<char>, q: int, s: Seq<char>)
    requires
        0 <= q,
        q + escaped(s).len() + 2 < b.len(),
        b.subrange(q, q + escaped(s).len()) == escaped(s),
        b[q + escaped(s).len()] == '"',
        b[q + escaped(s).len() + 1] == '"',
        b[q + escaped(s).len() + 2] == '"',
    ensures
        triple_string_end(b, q) == Some(q + escaped(s).len()),
    decreases s.len(),
{
    let e = escaped(s);
    if s.len() > 0 {
        let rest = s.skip(1);
        assert(b[q] == e[0]) by {
            assert(b.subrange(q, q + e.len())[0] == b[q]);
        }
        if s[0] == '"' || s[0] == '\\' {
            assert(b[q + 1] == e[1]) by {
                assert(b.subrange(q, q + e.len())[1] == b[q + 1]);
            }
            assert(e.skip(2) =~= escaped(rest));
            assert(b.subrange(q + 2, q + 2 + escaped(rest).len()) =~= b.subrange(q, q + e.len()).skip(2));
            lemma_triple_end_escaped(b, q + 2, rest);
        } else {
            assert(e.skip(1) =~= escaped(rest));
            assert(b.subrange(q + 1, q + 1 + escaped(rest).len()) =~= b.subrange(q, q + e.len()).skip(1));
            lemma_triple_end_escaped(b, q + 1, rest);
        }
    }
}

proof fn lemma_string(src: Seq<char>, pos: int, t: TokenView, n: nat, b: Seq<char>, p: int)
    requires
        0 <= pos < src.len(),
        string_at(src, pos) == Some((t, n)),
        stands(b, p, spelling(t)),
    ensures
        string_at(b, p) == Some((t, spelling(t).len())),
        b[p] == '"',
        spelling(t).len() > 0,
{
    let sp = spelling(t);
    lemma_stands(b, p, sp);
    if char_at(src, pos + 1) == Some('"') && char_at(src, pos + 2) == Some('"') {
        lemma_triple_string_end(src, pos + 3);
        let s = t->TripleString_0;
        let e = escaped(s);
        assert(sp.len() == e.len() + 6);
        assert(b[p + 0] == sp[0]);
        assert(b[p + 1] == sp[1]);
        assert(b[p + 2] == sp[2]);
        assert(b[p + (3 + e.len())] == sp[3 + e.len() as int]);
        assert(b[p + (4 + e.len())] == sp[4 + e.len() as int]);
        assert(b[p + (5 + e.len())] == sp[5 + e.len() as int]);
        assert(b.subrange(p + 3, p + 3 + e.len()) =~= e) by {
            assert forall|j: int| 0 <= j < e.len() implies b[p + 3 + j] == #[trigger] e[j] by {
                assert(b[p + (3 + j)] == sp[3 + j]);
            }
        }
        lemma_triple_end_escaped(b, p + 3, s);
        lemma_unescape_escaped(s);
    } else {
        lemma_string_end(src, pos + 1);
        let end = string_end(src, pos + 1)->0;
        let raw = src.subrange(pos + 1, end);
        assert forall|i: int| 0 <= i < raw.len() implies #[trigger] raw[i] != '\n' by {
            assert(raw[i] == src[pos + 1 + i]);
        }
        lemma_unescape_one_line(raw);
        let s = t->String_0;
        let e = escaped(s);
        assert(sp.len() == e.len() + 2);
        assert(b[p + 0] == sp[0]);
        assert(b[p + (1 + e.len())] == sp[1 + e.len() as int]);
        assert(b.subrange(p + 1, p + 1 + e.len()) =~= e) by {
            assert forall|j: int| 0 <= j < e.len() implies b[p + 1 + j] == #[trigger] e[j] by {
                assert(b[p + (1 + j)] == sp[1 + j]);
            }
        }
        lemma_string_end_escaped(b, p + 1, s);
        lemma_unescape_escaped(s);
        if s.len() > 0 {
            assert(b[p + 1] == sp[1]);
            assert(sp[1] == e[0]);
        } else {
            assert(b[p + 1] == sp[1]);
            assert(b[p + 2] == ' ');
        }
    }
}

proof fn lemma_char(src: Seq<char>, pos: int, t: TokenView, n: nat, b: Seq<char>, p: int)
    requires
        char_literal_at(src, pos) == Some((t, n)),
        stands(b, p, spelling(t)),
    ensures
        char_literal_at(b, p) == Some((t, spelling(t).len())),
        b[p] == '\'',
        spelling(t).len() > 0,
{
    let sp = spelling(t);
    lemma_stands(b, p, sp);
    assert(b[p + 0] == sp[0]);
    assert(b[p + 1] == sp[1]);
    assert(b[p + 2] == sp[2]);
    if sp.len() == 4 {
        assert(b[p + 3] == sp[3]);
    }
}

proof fn lemma_embed(src: Seq<char>, pos: int, t: TokenView, n: nat, b: Seq<char>, p: int)
    requires
        0 <= pos < src.len(),
        src[pos] == '@',
        embed_at(src, pos) == Some((t, n)),
        stands(b, p, spelling(t)),
    ensures
        embed_at(b, p) == Some((t, spelling(t).len())),
        b[p] == '@',
        spelling(t).len() > 0,
{
    let sp = spelling(t);
    assert(sp == "@embed"@);
    assert(src.subrange(pos, pos + 6).len() == 6);
    assert(src.subrange(pos, pos + 6)[0] == src[pos]);
    lemma_stands(b, p, sp);
    assert(b[p + 0] == sp[0]);
}

proof fn lemma_operator(src: Seq<char>, pos: int, kind: TokenKind, n: nat, b: Seq<char>, p: int)
    requires
        operator_at(src, pos) == Some((kind, n)),
        stands(b, p, spelling(TokenView::Plain(kind))),
    ensures
        operator_at(b, p) == Some((kind, spelling(TokenView::Plain(kind)).len())),
        spelling(TokenView::Plain(kind)).len() > 0,
        !is_blank(b[p]),
        !is_ident_start(b[p]),
        number_at(b, p) is None,
        b[p] != '\'',
        b[p] != '"',
        b[p] != '@',
{
    let sp = spelling(TokenView::Plain(kind));
    assert(is_operator(kind));
    lemma_stands(b, p, sp);
    assert(b[p + 0] == sp[0]);
    if sp.len() == 2 {
        assert(b[p + 1] == sp[1]);
        assert(b[p + 2] == ' ');
    } else {
        assert(b[p + 1] == ' ');
    }
    assert(digit_run(b, p) == 0);
    assert(digit_run(b, p + 1) == 0);
}

/// A token that the lexer gives is read back from its spelling: where the
/// spelling and a space stand in a text, the lexer finds the token there,
/// as long as its spelling.
pub proof fn lemma_read_back(src: Seq<char>, pos: int, t: TokenView, n: nat, b: Seq<char>, p: int)
    requires
        lexeme_at(src, pos) == Lexeme::Token(t, n),
        stands(b, p, spelling(t)),
    ensures
        lexeme_at(b, p) == Lexeme::Token(t, spelling(t).len()),
        spelling(t).len() > 0,
{
    let c = src[pos];
    if is_ident_start(c) {
        lemma_word(src, pos, t, n, b, p);
    } else if number_at(src, pos) is Some {
        match t {
            TokenView::Float(text) => {
                lemma_float(src, pos, text, n, b, p);
            },
            TokenView::Decimal(v) => {
                lemma_decimal(v, b, p);
            },
            _ => {},
        }
    } else if c == '\'' {
        lemma_char(src, pos, t, n, b, p);
        assert(digit_run(b, p) == 0);
    } else if c == '"' {
        lemma_string(src, pos, t, n, b, p);
        assert(digit_run(b, p) == 0);
    } else if c == '@' {
        lemma_embed(src, pos, t, n, b, p);
        assert(digit_run(b, p) == 0);
    } else {
        match operator_at(src, pos) {
            Some((kind, m)) => lemma_operator(src, pos, kind, m, b, p),
            None => {},
        }
    }
}

proof fn lemma_render_lexes(ts: Seq<TokenView>, k: nat, src: Seq<char>, pos: int, acc: Seq<Lexed>)
    requires
        forall|i: int| 0 <= i < ts.len() ==> lexed_token(#[trigger] ts[i]),
        k <= ts.len(),
        0 <= pos <= src.len(),
        src.subrange(pos, src.len() as int) == render(ts, k),
    ensures
        lex_from(src, pos, acc) matches Ok(r) && tokens_in(r) == tokens_in(acc) + ts.subrange(
            k as int,
            ts.len() as int,
        ),
    decreases ts.len() - k,
{
    let tail = src.subrange(pos, src.len() as int);
    if k >= ts.len() {
        assert(tail.len() == 0);
        assert(tokens_in(acc) + ts.subrange(k as int, ts.len() as int) =~= tokens_in(acc));
    } else {
        let t = ts[k as int];
        let sp = spelling(t);
        let rest = render(ts, k + 1);
        assert(tail == sp.push(' ') + rest);
        assert(tail.len() == sp.len() + 1 + rest.len());
        assert(src.subrange(pos, pos + sp.len()) =~= sp) by {
            assert forall|j: int| 0 <= j < sp.len() implies src[pos + j] == #[trigger] sp[j] by {
                assert(tail[j] == src[pos + j]);
                assert(tail[j] == sp.push(' ')[j]);
            }
        }
        assert(src[pos + sp.len()] == ' ') by {
            assert(tail[sp.len() as int] == src[pos + sp.len()]);
            assert(tail[sp.len() as int] == sp.push(' ')[sp.len() as int]);
        }
        assert(lexed_token(t));
        let (s0, p0, n0) = choose|s0: Seq<char>, p0: int, n0: nat|
            lexeme_at(s0, p0) == Lexeme::Token(t, n0);
        lemma_read_back(s0, p0, t, n0, src, pos);
        let next = pos + sp.len() + 1;
        let more = acc.push(Lexed { token: t, start: pos, end: pos + sp.len() });
        assert(src.subrange(next, src.len() as int) =~= rest) by {
            assert forall|j: int| 0 <= j < rest.len() implies src[next + j] == #[trigger] rest[j] by {
                assert(tail[sp.len() + 1 + j] == src[next + j]);
            }
        }
        lemma_render_lexes(ts, k + 1, src, next, more);
        assert(lexeme_at(src, pos + sp.len()) == Lexeme::Blank);
        assert(lex_from(src, pos, acc) == lex_from(src, pos + sp.len(), more));
        assert(lex_from(src, pos + sp.len(), more) == lex_from(src, next, more));
        assert(tokens_in(more) =~= tokens_in(acc).push(t));
        assert(tokens_in(acc).push(t) + ts.subrange(k as int + 1, ts.len() as int) =~= tokens_in(acc)
            + ts.subrange(k as int, ts.len() as int));
    }
}

proof fn lemma_lexed_tokens(src: Seq<char>, pos: int, acc: Seq<Lexed>)
    requires
        forall|i: int| 0 <= i < acc.len() ==> lexed_token((#[trigger] acc[i]).token),
    ensures
        lex_from(src, pos, acc) matches Ok(r) ==> forall|i: int|
            0 <= i < r.len() ==> lexed_token((#[trigger] r[i]).token),
    decreases src.len() - pos,
{
    if 0 <= pos < src.len() {
        match lexeme_at(src, pos) {
            Lexeme::Blank => lemma_lexed_tokens(src, pos + 1, acc),
            Lexeme::Token(token, n) => if 0 < n && pos + n <= src.len() {
                assert(lexed_token(token));
                lemma_lexed_tokens(
                    src,
                    pos + n,
                    acc.push(Lexed { token, start: pos, end: pos + n }),
                );
            },
            Lexeme::Unknown => {},
        }
    }
}

/// Every token that the lexer reads in a source is a token that the lexer
/// gives.
pub proof fn lemma_tokens_are_lexed(src: Seq<char>)
    ensures
        tokens_of(src) matches Ok(found) ==> forall|i: int|
            0 <= i < found.len() ==> lexed_token((#[trigger] found[i]).token),
{
    lemma_lexed_tokens(src, 0, Seq::empty());
}

/// Printing tokens and reading the text again gives the tokens: the
/// lexer reads the text of a sequence of tokens that it can give as that
/// sequence.
pub proof fn law_render_then_lex(ts: Seq<TokenView>)
    requires
        forall|i: int| 0 <= i < ts.len() ==> lexed_token(#[trigger] ts[i]),
    ensures
        tokens_of(render(ts, 0)) matches Ok(found) && tokens_in(found) == ts,
{
    let src = render(ts, 0);
    assert(src.subrange(0, src.len() as int) =~= src);
    lemma_render_lexes(ts, 0, src, 0, Seq::empty());
    assert(tokens_in(Seq::<Lexed>::empty()) + ts.subrange(0, ts.len() as int) =~= ts);
}

/// Round trip. The tokens of a source that parses as a module are read
/// again from the printed module: the module prints as tokens, the tokens
/// as text, and the lexer reads in that text the tokens that it read in
/// the source. This holds of a source in which the parser read no token
/// that the tree does not show.
pub proof fn law_round_trip(src: Seq<char>, ts: Seq<Token>)
    requires
        tokens_of(src) matches Ok(found) && tokens_in(found) == token_views(ts),
        whole(module_at(ts, 0), ts.len()) is Ok,
        module_tokens(whole(module_at(ts, 0), ts.len())->Ok_0).len() == ts.len(),
    ensures
        tokens_of(render(module_tokens(whole(module_at(ts, 0), ts.len())->Ok_0), 0)) matches Ok(again)
            && tokens_in(again) == tokens_in(tokens_of(src)->Ok_0),
{
    let found = tokens_of(src)->Ok_0;
    let views = token_views(ts);
    law_parse_then_print(ts);
    lemma_tokens_are_lexed(src);
    assert forall|i: int| 0 <= i < views.len() implies lexed_token(#[trigger] views[i]) by {
        assert(views[i] == tokens_in(found)[i]);
        assert(lexed_token(found[i].token));
    }
    law_render_then_lex(views);
}

/// The escapes of two texts, one after the other, are the escapes of both.
proof fn lemma_escaped_then(a: Seq<char>, b: Seq<char>)
    ensures
        escaped(a + b) == escaped(a) + escaped(b),
    decreases a.len(),
{
    if a.len() == 0 {
        assert(a + b =~= b);
        assert(escaped(a) + escaped(b) =~= escaped(b));
    } else {
        lemma_escaped_then(a.skip(1), b);
        assert((a + b).skip(1) =~= a.skip(1) + b);
        assert((a + b)[0] == a[0]);
        if a[0] == '"' || a[0] == '\\' {
            assert(escaped(a + b) =~= seq!['\\', a[0]] + (escaped(a.skip(1)) + escaped(b)));
            assert(escaped(a) + escaped(b) =~= seq!['\\', a[0]] + (escaped(a.skip(1)) + escaped(b)));
        } else {
            assert(escaped(a + b) =~= seq![a[0]] + (escaped(a.skip(1)) + escaped(b)));
            assert(escaped(a) + escaped(b) =~= seq![a[0]] + (escaped(a.skip(1)) + escaped(b)));
        }
    }
}

fn append(out: &mut String, text: &str)
    ensures
        final(out)@ == old(out)@ + text@,
{
    let chars = chars_of(text);
    let ghost start = out@;
    let mut i: usize = 0;
    while i < chars.len()
        invariant
            0 <= i <= chars.len(),
            chars@ == text@,
            out@ == start + chars@.take(i as int),
        decreases chars.len() - i,
    {
        out.push(chars[i]);
        assert(chars@.take(i + 1) =~= chars@.take(i as int).push(chars@[i as int]));
        i = i + 1;
    }
    assert(chars@.take(chars.len() as int) =~= chars@);
}

fn append_escaped(out: &mut String, text: &str)
    ensures
        final(out)@ == old(out)@ + escaped(text@),
{
    let chars = chars_of(text);
    let ghost start = out@;
    let mut i: usize = 0;
    assert(escaped(chars@.take(0)) =~= Seq::<char>::empty());
    while i < chars.len()
        invariant
            0 <= i <= chars.len(),
            chars@ == text@,
            out@ == start + escaped(chars@.take(i as int)),
        decreases chars.len() - i,
    {
        let c = chars[i];
        proof {
            let one = seq![c];
            assert(chars@.take(i + 1) =~= chars@.take(i as int) + one);
            lemma_escaped_then(chars@.take(i as int), one);
            assert(one.skip(1) =~= Seq::<char>::empty());
            assert(escaped(one.skip(1)) =~= Seq::<char>::empty());
            if c == '"' || c == '\\' {
                assert(escaped(one) =~= seq!['\\', c]);
            } else {
                assert(escaped(one) =~= seq![c]);
            }
        }
        if c == '"' || c == '\\' {
            out.push('\\');
        }
        out.push(c);
        i = i + 1;
    }
    assert(chars@.take(chars.len() as int) =~= chars@);
}

/// Writes a token, as it is spelled, at the end of a text.
pub fn spell(token: &Token, out: &mut String)
    ensures
        final(out)@ == old(out)@ + spelling(token@),
{
    let ghost start = out@;
    match token {
        Token::LParen => {
            out.push('(');
        },
        Token::RParen => {
            out.push(')');
        },
        Token::LBracket => {
            out.push('[');
        },
        Token::RBracket => {
            out.push(']');
        },
        Token::LBrace => {
            out.push('{');
        },
        Token::RBrace => {
            out.push('}');
        },
        Token::Add => {
            out.push('+');
        },
        Token::Sub => {
            out.push('-');
        },
        Token::Mul => {
            out.push('*');
        },
        Token::Div => {
            out.push('/');
        },
        Token::Eq => {
            out.push('=');
        },
        Token::NotEq => {
            out.push('/');
            out.push('=');
        },
        Token::Lt => {
            out.push('<');
        },
        Token::LtEq => {
            out.push('<');
            out.push('=');
        },
        Token::Gt => {
            out.push('>');
        },
        Token::GtEq => {
            out.push('>');
            out.push('=');
        },
        Token::BorrowRead => {
            out.push('&');
        },
        Token::BorrowWrite => {
            out.push('&');
            out.push('!');
        },
        Token::ReBorrow => {
            out.push('&');
            out.push('~');
        },
        Token::RefTransform => {
            out.push('&');
            out.push('(');
        },
        Token::Semi => {
            out.push(';');
        },
        Token::Comma => {
            out.push(',');
        },
        Token::Period => {
            out.push('.');
        },
        Token::Colon => {
            out.push(':');
        },
        Token::HypenRight => {
            out.push('-');
            out.push('>');
        },
        Token::ArrowRight => {
            out.push('=');
            out.push('>');
        },
        Token::Assign => {
            out.push(':');
            out.push('=');
        },
        Token::Deref => {
            out.push('!');
        },
        Token::And => append(out, "and"),
        Token::Or => append(out, "or"),
        Token::Not => append(out, "not"),
        Token::SpanRead => append(out, "Span"),
        Token::Module => append(out, "module"),
        Token::Is => append(out, "is"),
        Token::Body => append(out, "body"),
        Token::Import => append(out, "import"),
        Token::As => append(out, "as"),
        Token::End => append(out, "end"),
        Token::Constant => append(out, "constant"),
        Token::Type => append(out, "type"),
        Token::Function => append(out, "function"),
        Token::Generic => append(out, "generic"),
        Token::Record => append(out, "record"),
        Token::Union => append(out, "union"),
        Token::Case => append(out, "case"),
        Token::Of => append(out, "of"),
        Token::When => append(out, "when"),
        Token::TypeClass => append(out, "typeclass"),
        Token::Instance => append(out, "instance"),
        Token::Method => append(out, "method"),
        Token::If => append(out, "if"),
        Token::Then => append(out, "then"),
        Token::Else => append(out, "else"),
        Token::Let => append(out, "let"),
        Token::Var => append(out, "var"),
        Token::While => append(out, "while"),
        Token::For => append(out, "for"),
        Token::Do => append(out, "do"),
        Token::From => append(out, "from"),
        Token::To => append(out, "to"),
        Token::Borrow => append(out, "borrow"),
        Token::Return => append(out, "return"),
        Token::Skip => append(out, "skip"),
        Token::Pragma => append(out, "pragma"),
        Token::SizeOf => append(out, "sizeof"),
        Token::Nil => append(out, "nil"),
        Token::True => append(out, "true"),
        Token::False => append(out, "false"),
        Token::Embed => append(out, "@embed"),
        Token::SpanWrite => {
            append(out, "Span");
            out.push('!');
        },
        Token::Universe(u) => match u {
            Universe::Free => append(out, "Free"),
            Universe::Linear => append(out, "Linear"),
            Universe::Type => append(out, "Type"),
            Universe::Region => append(out, "Region"),
        },
        Token::String(s) => {
            out.push('"');
            append_escaped(out, s.as_str());
            out.push('"');
        },
        Token::TripleString(s) => {
            append(out, "\"\"\"");
            append_escaped(out, s.as_str());
            append(out, "\"\"\"");
            proof {
                reveal_strlit("\"\"\"");
                assert("\"\"\""@ =~= seq!['"', '"', '"']);
            }
        },
        Token::Char(c) => {
            out.push('\'');
            if *c == '\'' {
                out.push('\\');
            }
            out.push(*c);
            out.push('\'');
        },
        Token::Decimal(n) => {
            let digits = decimal_text(*n);
            append(out, digits.as_str());
        },
        Token::Float(text) => append(out, text.as_str()),
        Token::Ident(text) => append(out, text.as_str()),
    }
    assert(out@ =~= start + spelling(token@));
}

/// Writes tokens as text: each token as it is spelled, with a space after
/// it.
pub fn render_tokens(tokens: &Vec<Token>) -> (text: String)
    ensures
        text@ == render(token_views(tokens@), 0),
{
    let ghost views = token_views(tokens@);
    let mut out = String::new();
    let mut i: usize = 0;
    assert(out@ + render(views, 0) =~= render(views, 0));
    while i < tokens.len()
        invariant
            0 <= i <= tokens.len(),
            views == token_views(tokens@),
            out@ + render(views, i as nat) == render(views, 0),
        decreases tokens.len() - i,
    {
        let ghost before = out@;
        spell(&tokens[i], &mut out);
        out.push(' ');
        proof {
            assert(views[i as int] == tokens[i as int]@);
            assert(out@ + render(views, (i + 1) as nat) =~= before + render(views, i as nat));
        }
        i = i + 1;
    }
    assert(out@ + render(views, tokens.len() as nat) =~= out@);
    out
}

/// Prints a module as text: the tokens that the parser reads it from, each
/// as it is spelled, with a space after it.
pub fn pretty(module: &Module) -> (text: String)
    ensures
        text@ == render(module_tokens(module.deep_view()), 0),
{
    let tokens = print(module);
    render_tokens(&tokens)
}

} // verus!
