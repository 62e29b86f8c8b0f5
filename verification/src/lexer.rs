//! Tokens of the Austral language and the lexer that reads them from source
//! text.

use crate::error::lexer::{Error, ErrorView};
use crate::span::{Span, SpanContext, SpanLocation};
use std::ops::Range;
use vstd::prelude::*;

verus! {

/// `String::push` appends one character to the end of the string.
pub assume_specification[ std::string::String::push ](s: &mut std::string::String, ch: char)
    ensures
        final(s)@ == old(s)@.push(ch),
;

/// A universe, as source text names it.
#[derive(Clone, Copy, Debug, PartialEq, Eq, Hash, Structural)]
pub enum Universe {
    Free,
    Linear,
    Region,
    Type,
}

/// A token of the source. A name, a literal and the name of a universe carry
/// what they hold.
#[derive(Clone, Debug, PartialEq)]
pub enum Token {
    LParen,
    RParen,
    LBracket,
    RBracket,
    LBrace,
    RBrace,
    Add,
    Sub,
    Mul,
    Div,
    Eq,
    NotEq,
    Lt,
    LtEq,
    Gt,
    GtEq,
    And,
    Or,
    Not,
    BorrowRead,
    BorrowWrite,
    SpanRead,
    SpanWrite,
    ReBorrow,
    RefTransform,
    Module,
    Is,
    Body,
    Import,
    As,
    End,
    Constant,
    Type,
    Function,
    Generic,
    Record,
    Union,
    Case,
    Of,
    When,
    TypeClass,
    Instance,
    Method,
    If,
    Then,
    Else,
    Let,
    Var,
    While,
    For,
    Do,
    From,
    To,
    Borrow,
    Return,
    Skip,
    Universe(Universe),
    Pragma,
    SizeOf,
    Semi,
    Comma,
    Period,
    Colon,
    HypenRight,
    ArrowRight,
    Assign,
    Deref,
    /// A single-quoted string, unescaped.
    String(String),
    /// A triple-quoted string, unescaped.
    TripleString(String),
    Nil,
    True,
    False,
    Char(char),
    Decimal(u64),
    /// A float literal, as the source spells it.
    Float(String),
    Ident(String),
    Embed,
}

/// A token without what it carries; `EndOfInput` stands for the place after
/// the last token.
#[derive(Clone, Copy, Debug, PartialEq, Eq, Structural)]
pub enum TokenKind {
    LParen,
    RParen,
    LBracket,
    RBracket,
    LBrace,
    RBrace,
    Add,
    Sub,
    Mul,
    Div,
    Eq,
    NotEq,
    Lt,
    LtEq,
    Gt,
    GtEq,
    And,
    Or,
    Not,
    BorrowRead,
    BorrowWrite,
    SpanRead,
    SpanWrite,
    ReBorrow,
    RefTransform,
    Module,
    Is,
    Body,
    Import,
    As,
    End,
    Constant,
    Type,
    Function,
    Generic,
    Record,
    Union,
    Case,
    Of,
    When,
    TypeClass,
    Instance,
    Method,
    If,
    Then,
    Else,
    Let,
    Var,
    While,
    For,
    Do,
    From,
    To,
    Borrow,
    Return,
    Skip,
    Universe,
    Pragma,
    SizeOf,
    Semi,
    Comma,
    Period,
    Colon,
    HypenRight,
    ArrowRight,
    Assign,
    Deref,
    String,
    TripleString,
    Nil,
    True,
    False,
    Char,
    Decimal,
    Float,
    Ident,
    Embed,
    EndOfInput,
}

impl DeepView for TokenKind {
    type V = TokenKind;

    open spec fn deep_view(&self) -> TokenKind {
        *self
    }
}

impl Token {
    /// The kind of a token.
    pub open spec fn kind_of(self) -> TokenKind {
        match self {
            Token::LParen => TokenKind::LParen,
            Token::RParen => TokenKind::RParen,
            Token::LBracket => TokenKind::LBracket,
            Token::RBracket => TokenKind::RBracket,
            Token::LBrace => TokenKind::LBrace,
            Token::RBrace => TokenKind::RBrace,
            Token::Add => TokenKind::Add,
            Token::Sub => TokenKind::Sub,
            Token::Mul => TokenKind::Mul,
            Token::Div => TokenKind::Div,
            Token::Eq => TokenKind::Eq,
            Token::NotEq => TokenKind::NotEq,
            Token::Lt => TokenKind::Lt,
            Token::LtEq => TokenKind::LtEq,
            Token::Gt => TokenKind::Gt,
            Token::GtEq => TokenKind::GtEq,
            Token::And => TokenKind::And,
            Token::Or => TokenKind::Or,
            Token::Not => TokenKind::Not,
            Token::BorrowRead => TokenKind::BorrowRead,
            Token::BorrowWrite => TokenKind::BorrowWrite,
            Token::SpanRead => TokenKind::SpanRead,
            Token::SpanWrite => TokenKind::SpanWrite,
            Token::ReBorrow => TokenKind::ReBorrow,
            Token::RefTransform => TokenKind::RefTransform,
            Token::Module => TokenKind::Module,
            Token::Is => TokenKind::Is,
            Token::Body => TokenKind::Body,
            Token::Import => TokenKind::Import,
            Token::As => TokenKind::As,
            Token::End => TokenKind::End,
            Token::Constant => TokenKind::Constant,
            Token::Type => TokenKind::Type,
            Token::Function => TokenKind::Function,
            Token::Generic => TokenKind::Generic,
            Token::Record => TokenKind::Record,
            Token::Union => TokenKind::Union,
            Token::Case => TokenKind::Case,
            Token::Of => TokenKind::Of,
            Token::When => TokenKind::When,
            Token::TypeClass => TokenKind::TypeClass,
            Token::Instance => TokenKind::Instance,
            Token::Method => TokenKind::Method,
            Token::If => TokenKind::If,
            Token::Then => TokenKind::Then,
            Token::Else => TokenKind::Else,
            Token::Let => TokenKind::Let,
            Token::Var => TokenKind::Var,
            Token::While => TokenKind::While,
            Token::For => TokenKind::For,
            Token::Do => TokenKind::Do,
            Token::From => TokenKind::From,
            Token::To => TokenKind::To,
            Token::Borrow => TokenKind::Borrow,
            Token::Return => TokenKind::Return,
            Token::Skip => TokenKind::Skip,
            Token::Universe(_) => TokenKind::Universe,
            Token::Pragma => TokenKind::Pragma,
            Token::SizeOf => TokenKind::SizeOf,
            Token::Semi => TokenKind::Semi,
            Token::Comma => TokenKind::Comma,
            Token::Period => TokenKind::Period,
            Token::Colon => TokenKind::Colon,
            Token::HypenRight => TokenKind::HypenRight,
            Token::ArrowRight => TokenKind::ArrowRight,
            Token::Assign => TokenKind::Assign,
            Token::Deref => TokenKind::Deref,
            Token::String(_) => TokenKind::String,
            Token::TripleString(_) => TokenKind::TripleString,
            Token::Nil => TokenKind::Nil,
            Token::True => TokenKind::True,
            Token::False => TokenKind::False,
            Token::Char(_) => TokenKind::Char,
            Token::Decimal(_) => TokenKind::Decimal,
            Token::Float(_) => TokenKind::Float,
            Token::Ident(_) => TokenKind::Ident,
            Token::Embed => TokenKind::Embed,
        }
    }

    /// The kind of the token.
    pub fn kind(&self) -> (r: TokenKind)
        ensures
            r == self.kind_of(),
    {
        match self {
            Token::LParen => TokenKind::LParen,
            Token::RParen => TokenKind::RParen,
            Token::LBracket => TokenKind::LBracket,
            Token::RBracket => TokenKind::RBracket,
            Token::LBrace => TokenKind::LBrace,
            Token::RBrace => TokenKind::RBrace,
            Token::Add => TokenKind::Add,
            Token::Sub => TokenKind::Sub,
            Token::Mul => TokenKind::Mul,
            Token::Div => TokenKind::Div,
            Token::Eq => TokenKind::Eq,
            Token::NotEq => TokenKind::NotEq,
            Token::Lt => TokenKind::Lt,
            Token::LtEq => TokenKind::LtEq,
            Token::Gt => TokenKind::Gt,
            Token::GtEq => TokenKind::GtEq,
            Token::And => TokenKind::And,
            Token::Or => TokenKind::Or,
            Token::Not => TokenKind::Not,
            Token::BorrowRead => TokenKind::BorrowRead,
            Token::BorrowWrite => TokenKind::BorrowWrite,
            Token::SpanRead => TokenKind::SpanRead,
            Token::SpanWrite => TokenKind::SpanWrite,
            Token::ReBorrow => TokenKind::ReBorrow,
            Token::RefTransform => TokenKind::RefTransform,
            Token::Module => TokenKind::Module,
            Token::Is => TokenKind::Is,
            Token::Body => TokenKind::Body,
            Token::Import => TokenKind::Import,
            Token::As => TokenKind::As,
            Token::End => TokenKind::End,
            Token::Constant => TokenKind::Constant,
            Token::Type => TokenKind::Type,
            Token::Function => TokenKind::Function,
            Token::Generic => TokenKind::Generic,
            Token::Record => TokenKind::Record,
            Token::Union => TokenKind::Union,
            Token::Case => TokenKind::Case,
            Token::Of => TokenKind::Of,
            Token::When => TokenKind::When,
            Token::TypeClass => TokenKind::TypeClass,
            Token::Instance => TokenKind::Instance,
            Token::Method => TokenKind::Method,
            Token::If => TokenKind::If,
            Token::Then => TokenKind::Then,
            Token::Else => TokenKind::Else,
            Token::Let => TokenKind::Let,
            Token::Var => TokenKind::Var,
            Token::While => TokenKind::While,
            Token::For => TokenKind::For,
            Token::Do => TokenKind::Do,
            Token::From => TokenKind::From,
            Token::To => TokenKind::To,
            Token::Borrow => TokenKind::Borrow,
            Token::Return => TokenKind::Return,
            Token::Skip => TokenKind::Skip,
            Token::Universe(_) => TokenKind::Universe,
            Token::Pragma => TokenKind::Pragma,
            Token::SizeOf => TokenKind::SizeOf,
            Token::Semi => TokenKind::Semi,
            Token::Comma => TokenKind::Comma,
            Token::Period => TokenKind::Period,
            Token::Colon => TokenKind::Colon,
            Token::HypenRight => TokenKind::HypenRight,
            Token::ArrowRight => TokenKind::ArrowRight,
            Token::Assign => TokenKind::Assign,
            Token::Deref => TokenKind::Deref,
            Token::String(_) => TokenKind::String,
            Token::TripleString(_) => TokenKind::TripleString,
            Token::Nil => TokenKind::Nil,
            Token::True => TokenKind::True,
            Token::False => TokenKind::False,
            Token::Char(_) => TokenKind::Char,
            Token::Decimal(_) => TokenKind::Decimal,
            Token::Float(_) => TokenKind::Float,
            Token::Ident(_) => TokenKind::Ident,
            Token::Embed => TokenKind::Embed,
        }
    }
}

/// A token as a plain value: its kind, and what it carries if it carries
/// anything.
pub enum TokenView {
    Plain(TokenKind),
    Universe(Universe),
    String(Seq<char>),
    TripleString(Seq<char>),
    Char(char),
    Decimal(u64),
    Float(Seq<char>),
    Ident(Seq<char>),
}

impl View for Token {
    type V = TokenView;

    open spec fn view(&self) -> TokenView {
        match self {
            Token::Universe(u) => TokenView::Universe(*u),
            Token::String(s) => TokenView::String(s@),
            Token::TripleString(s) => TokenView::TripleString(s@),
            Token::Char(c) => TokenView::Char(*c),
            Token::Decimal(n) => TokenView::Decimal(*n),
            Token::Float(s) => TokenView::Float(s@),
            Token::Ident(s) => TokenView::Ident(s@),
            _ => TokenView::Plain(self.kind_of()),
        }
    }
}

/// The characters between tokens: space, tab, line feed, carriage return
/// and form feed.
pub open spec fn is_blank(c: char) -> bool {
    c == ' ' || c == '\t' || c == '\n' || c == '\r' || c == '\x0c'
}

/// The decimal digits.
pub open spec fn is_digit(c: char) -> bool {
    '0' <= c <= '9'
}

/// The characters that an identifier can start with.
pub open spec fn is_ident_start(c: char) -> bool {
    ('a' <= c <= 'z') || ('A' <= c <= 'Z') || c == '_'
}

/// The characters that an identifier can go on with.
pub open spec fn is_ident_char(c: char) -> bool {
    is_ident_start(c) || is_digit(c)
}

/// The character at a position, if there is one.
pub open spec fn char_at(src: Seq<char>, pos: int) -> Option<char> {
    if 0 <= pos < src.len() {
        Some(src[pos])
    } else {
        None
    }
}

/// How many identifier characters stand at `pos` without a break.
pub open spec fn ident_run(src: Seq<char>, pos: int) -> nat
    decreases src.len() - pos,
{
    if 0 <= pos < src.len() && is_ident_char(src[pos]) {
        1 + ident_run(src, pos + 1)
    } else {
        0
    }
}

/// How many digits stand at `pos` without a break.
pub open spec fn digit_run(src: Seq<char>, pos: int) -> nat
    decreases src.len() - pos,
{
    if 0 <= pos < src.len() && is_digit(src[pos]) {
        1 + digit_run(src, pos + 1)
    } else {
        0
    }
}

/// The number that a sequence of digits writes in base ten.
pub open spec fn decimal_value(digits: Seq<char>) -> nat
    decreases digits.len(),
{
    if digits.len() == 0 {
        0
    } else {
        10 * decimal_value(digits.drop_last()) + (digits.last() as nat - '0' as nat) as nat
    }
}

/// How many characters the exponent of a float takes at `pos`: `e` or `E`,
/// a sign if there is one, and at least one digit; none where that is not
/// there.
pub open spec fn exponent_len(src: Seq<char>, pos: int) -> nat {
    if char_at(src, pos) == Some('e') || char_at(src, pos) == Some('E') {
        let sign: nat = if char_at(src, pos + 1) == Some('+') || char_at(src, pos + 1) == Some('-') {
            1
        } else {
            0
        };
        let digits = digit_run(src, pos + 1 + sign);
        if digits > 0 {
            1 + sign + digits
        } else {
            0
        }
    } else {
        0
    }
}

/// The number that starts at `pos`, if one does. Digits followed by `.` are
/// a float, with a sign before them if there is one, the digits after the
/// `.` and the exponent; the token holds the float as it is spelled. Digits
/// alone, without a sign, are a decimal; the token holds their value, and
/// there is no token if the value is beyond `u64`.
pub open spec fn number_at(src: Seq<char>, pos: int) -> Option<(TokenView, nat)> {
    let sign: nat = if char_at(src, pos) == Some('+') || char_at(src, pos) == Some('-') {
        1
    } else {
        0
    };
    let whole = digit_run(src, pos + sign);
    if whole == 0 {
        None
    } else if char_at(src, pos + sign + whole) == Some('.') {
        let fraction = digit_run(src, pos + sign + whole + 1);
        let exponent = exponent_len(src, pos + sign + whole + 1 + fraction);
        let n = sign + whole + 1 + fraction + exponent;
        Some((TokenView::Float(src.subrange(pos, pos + n)), n))
    } else if sign == 0 && decimal_value(src.subrange(pos, pos + whole)) <= u64::MAX {
        Some((TokenView::Decimal(decimal_value(src.subrange(pos, pos + whole)) as u64), whole))
    } else {
        None
    }
}

/// The character literal that starts at `pos`, if one does: `'\''` is the
/// quote, and `'c'` is `c` for any `c` but the quote.
pub open spec fn char_literal_at(src: Seq<char>, pos: int) -> Option<(TokenView, nat)> {
    if char_at(src, pos) != Some('\'') {
        None
    } else if char_at(src, pos + 1) == Some('\\') && char_at(src, pos + 2) == Some('\'') && char_at(
        src,
        pos + 3,
    ) == Some('\'') {
        Some((TokenView::Char('\''), 4))
    } else if char_at(src, pos + 1) is Some && char_at(src, pos + 1) != Some('\'') && char_at(
        src,
        pos + 2,
    ) == Some('\'') {
        Some((TokenView::Char(src[pos + 1]), 3))
    } else {
        None
    }
}

/// Whether a backslash at `pos` escapes the character after it: it does if
/// that character is `"` or a backslash.
pub open spec fn escapes(src: Seq<char>, pos: int) -> bool {
    char_at(src, pos) == Some('\\') && (char_at(src, pos + 1) == Some('"') || char_at(src, pos + 1)
        == Some('\\'))
}

/// The position of the `"` that ends a string whose contents start at
/// `pos`. There is none if the line or the input ends first.
pub open spec fn string_end(src: Seq<char>, pos: int) -> Option<int>
    decreases src.len() - pos,
{
    if pos < 0 || pos >= src.len() {
        None
    } else if src[pos] == '"' {
        Some(pos)
    } else if src[pos] == '\n' {
        None
    } else if escapes(src, pos) {
        string_end(src, pos + 2)
    } else {
        string_end(src, pos + 1)
    }
}

/// The position of the `"""` that ends a triple-quoted string whose contents
/// start at `pos`. There is none if the input ends first.
pub open spec fn triple_string_end(src: Seq<char>, pos: int) -> Option<int>
    decreases src.len() - pos,
{
    if pos < 0 || pos >= src.len() {
        None
    } else if src[pos] == '"' && char_at(src, pos + 1) == Some('"') && char_at(src, pos + 2)
        == Some('"') {
        Some(pos)
    } else if escapes(src, pos) {
        triple_string_end(src, pos + 2)
    } else {
        triple_string_end(src, pos + 1)
    }
}

/// The contents of a string without its escapes: `\\` is a backslash and
/// `\"` a quote; any other backslash stays.
pub open spec fn unescape(s: Seq<char>) -> Seq<char>
    decreases s.len(),
{
    if s.len() == 0 {
        s
    } else if escapes(s, 0) {
        seq![s[1]] + unescape(s.skip(2))
    } else {
        seq![s[0]] + unescape(s.skip(1))
    }
}

/// The string that starts at `pos`, if one does: a triple-quoted one if
/// `"""` stands there, else a single-quoted one if `"` does.
pub open spec fn string_at(src: Seq<char>, pos: int) -> Option<(TokenView, nat)> {
    if char_at(src, pos) != Some('"') {
        None
    } else if char_at(src, pos + 1) == Some('"') && char_at(src, pos + 2) == Some('"') {
        match triple_string_end(src, pos + 3) {
            Some(end) => Some(
                (
                    TokenView::TripleString(unescape(src.subrange(pos + 3, end))),
                    (end + 3 - pos) as nat,
                ),
            ),
            None => None,
        }
    } else {
        match string_end(src, pos + 1) {
            Some(end) => Some(
                (TokenView::String(unescape(src.subrange(pos + 1, end))), (end + 1 - pos) as nat),
            ),
            None => None,
        }
    }
}

/// The operator or the punctuation that starts at `pos`, if one does: the
/// longest that fits.
pub open spec fn operator_at(src: Seq<char>, pos: int) -> Option<(TokenKind, nat)> {
    let next = char_at(src, pos + 1);
    match char_at(src, pos) {
        Some('(') => Some((TokenKind::LParen, 1)),
        Some(')') => Some((TokenKind::RParen, 1)),
        Some('[') => Some((TokenKind::LBracket, 1)),
        Some(']') => Some((TokenKind::RBracket, 1)),
        Some('{') => Some((TokenKind::LBrace, 1)),
        Some('}') => Some((TokenKind::RBrace, 1)),
        Some('+') => Some((TokenKind::Add, 1)),
        Some('-') => if next == Some('>') {
            Some((TokenKind::HypenRight, 2))
        } else {
            Some((TokenKind::Sub, 1))
        },
        Some('*') => Some((TokenKind::Mul, 1)),
        Some('/') => if next == Some('=') {
            Some((TokenKind::NotEq, 2))
        } else {
            Some((TokenKind::Div, 1))
        },
        Some('=') => if next == Some('>') {
            Some((TokenKind::ArrowRight, 2))
        } else {
            Some((TokenKind::Eq, 1))
        },
        Some('<') => if next == Some('=') {
            Some((TokenKind::LtEq, 2))
        } else {
            Some((TokenKind::Lt, 1))
        },
        Some('>') => if next == Some('=') {
            Some((TokenKind::GtEq, 2))
        } else {
            Some((TokenKind::Gt, 1))
        },
        Some('&') => if next == Some('!') {
            Some((TokenKind::BorrowWrite, 2))
        } else if next == Some('~') {
            Some((TokenKind::ReBorrow, 2))
        } else if next == Some('(') {
            Some((TokenKind::RefTransform, 2))
        } else {
            Some((TokenKind::BorrowRead, 1))
        },
        Some(';') => Some((TokenKind::Semi, 1)),
        Some(',') => Some((TokenKind::Comma, 1)),
        Some('.') => Some((TokenKind::Period, 1)),
        Some(':') => if next == Some('=') {
            Some((TokenKind::Assign, 2))
        } else {
            Some((TokenKind::Colon, 1))
        },
        Some('!') => Some((TokenKind::Deref, 1)),
        _ => None,
    }
}

/// The reserved word that `text` spells, if it spells one. The names of the
/// universes are reserved words.
pub open spec fn keyword(text: Seq<char>) -> Option<TokenView> {
    if text == "and"@ {
        Some(TokenView::Plain(TokenKind::And))
    } else if text == "or"@ {
        Some(TokenView::Plain(TokenKind::Or))
    } else if text == "not"@ {
        Some(TokenView::Plain(TokenKind::Not))
    } else if text == "Span"@ {
        Some(TokenView::Plain(TokenKind::SpanRead))
    } else if text == "module"@ {
        Some(TokenView::Plain(TokenKind::Module))
    } else if text == "is"@ {
        Some(TokenView::Plain(TokenKind::Is))
    } else if text == "body"@ {
        Some(TokenView::Plain(TokenKind::Body))
    } else if text == "import"@ {
        Some(TokenView::Plain(TokenKind::Import))
    } else if text == "as"@ {
        Some(TokenView::Plain(TokenKind::As))
    } else if text == "end"@ {
        Some(TokenView::Plain(TokenKind::End))
    } else if text == "constant"@ {
        Some(TokenView::Plain(TokenKind::Constant))
    } else if text == "type"@ {
        Some(TokenView::Plain(TokenKind::Type))
    } else if text == "function"@ {
        Some(TokenView::Plain(TokenKind::Function))
    } else if text == "generic"@ {
        Some(TokenView::Plain(TokenKind::Generic))
    } else if text == "record"@ {
        Some(TokenView::Plain(TokenKind::Record))
    } else if text == "union"@ {
        Some(TokenView::Plain(TokenKind::Union))
    } else if text == "case"@ {
        Some(TokenView::Plain(TokenKind::Case))
    } else if text == "of"@ {
        Some(TokenView::Plain(TokenKind::Of))
    } else if text == "when"@ {
        Some(TokenView::Plain(TokenKind::When))
    } else if text == "typeclass"@ {
        Some(TokenView::Plain(TokenKind::TypeClass))
    } else if text == "instance"@ {
        Some(TokenView::Plain(TokenKind::Instance))
    } else if text == "method"@ {
        Some(TokenView::Plain(TokenKind::Method))
    } else if text == "if"@ {
        Some(TokenView::Plain(TokenKind::If))
    } else if text == "then"@ {
        Some(TokenView::Plain(TokenKind::Then))
    } else if text == "else"@ {
        Some(TokenView::Plain(TokenKind::Else))
    } else if text == "let"@ {
        Some(TokenView::Plain(TokenKind::Let))
    } else if text == "var"@ {
        Some(TokenView::Plain(TokenKind::Var))
    } else if text == "while"@ {
        Some(TokenView::Plain(TokenKind::While))
    } else if text == "for"@ {
        Some(TokenView::Plain(TokenKind::For))
    } else if text == "do"@ {
        Some(TokenView::Plain(TokenKind::Do))
    } else if text == "from"@ {
        Some(TokenView::Plain(TokenKind::From))
    } else if text == "to"@ {
        Some(TokenView::Plain(TokenKind::To))
    } else if text == "borrow"@ {
        Some(TokenView::Plain(TokenKind::Borrow))
    } else if text == "return"@ {
        Some(TokenView::Plain(TokenKind::Return))
    } else if text == "skip"@ {
        Some(TokenView::Plain(TokenKind::Skip))
    } else if text == "pragma"@ {
        Some(TokenView::Plain(TokenKind::Pragma))
    } else if text == "sizeof"@ {
        Some(TokenView::Plain(TokenKind::SizeOf))
    } else if text == "nil"@ {
        Some(TokenView::Plain(TokenKind::Nil))
    } else if text == "true"@ {
        Some(TokenView::Plain(TokenKind::True))
    } else if text == "false"@ {
        Some(TokenView::Plain(TokenKind::False))
    } else if text == "Free"@ {
        Some(TokenView::Universe(Universe::Free))
    } else if text == "Linear"@ {
        Some(TokenView::Universe(Universe::Linear))
    } else if text == "Type"@ {
        Some(TokenView::Universe(Universe::Type))
    } else if text == "Region"@ {
        Some(TokenView::Universe(Universe::Region))
    } else {
        None
    }
}

/// The word that starts at `pos`, if one does: `Span!`, a reserved word, or
/// an identifier. A word is the whole run of identifier characters, so a
/// reserved word is recognised only where it is not part of a longer name.
pub open spec fn word_at(src: Seq<char>, pos: int) -> Option<(TokenView, nat)> {
    match char_at(src, pos) {
        Some(c) => if is_ident_start(c) {
            let n = ident_run(src, pos);
            let text = src.subrange(pos, pos + n);
            if text == "Span"@ && char_at(src, pos + n) == Some('!') {
                Some((TokenView::Plain(TokenKind::SpanWrite), n + 1))
            } else {
                match keyword(text) {
                    Some(token) => Some((token, n)),
                    None => Some((TokenView::Ident(text), n)),
                }
            }
        } else {
            None
        },
        None => None,
    }
}

/// The intrinsic's name at `pos`, if it stands there: `@embed`.
pub open spec fn embed_at(src: Seq<char>, pos: int) -> Option<(TokenView, nat)> {
    if 0 <= pos && pos + 6 <= src.len() && src.subrange(pos, pos + 6) == "@embed"@ {
        Some((TokenView::Plain(TokenKind::Embed), 6))
    } else {
        None
    }
}

/// What stands at a position of the source.
pub enum Lexeme {
    /// A character between tokens.
    Blank,
    /// A token and the number of characters it takes.
    Token(TokenView, nat),
    /// A character that no token can start with.
    Unknown,
}

/// What stands at `pos`: the longest token that starts there. A blank is
/// no token; a letter or `_` starts a word; a digit, or a sign before a
/// float, starts a number; `'` a character literal, `"` a string, `@` the
/// intrinsic's name; anything else is an operator or unknown.
pub open spec fn lexeme_at(src: Seq<char>, pos: int) -> Lexeme {
    match char_at(src, pos) {
        None => Lexeme::Unknown,
        Some(c) => {
            let found = if is_blank(c) {
                None
            } else if is_ident_start(c) {
                word_at(src, pos)
            } else if number_at(src, pos) is Some {
                number_at(src, pos)
            } else if c == '\'' {
                char_literal_at(src, pos)
            } else if c == '"' {
                string_at(src, pos)
            } else if c == '@' {
                embed_at(src, pos)
            } else {
                match operator_at(src, pos) {
                    Some((kind, n)) => Some((TokenView::Plain(kind), n)),
                    None => None,
                }
            };
            if is_blank(c) {
                Lexeme::Blank
            } else {
                match found {
                    Some((token, n)) => Lexeme::Token(token, n),
                    None => Lexeme::Unknown,
                }
            }
        },
    }
}

/// A token of the source with the range of characters that it takes.
pub struct Lexed {
    pub token: TokenView,
    pub start: int,
    pub end: int,
}

/// The tokens of the source from `pos` on, added to those read before, or
/// the position of the first character that no token can start with.
pub open spec fn lex_from(src: Seq<char>, pos: int, acc: Seq<Lexed>) -> Result<Seq<Lexed>, int>
    decreases src.len() - pos,
{
    if pos < 0 || pos >= src.len() {
        Ok(acc)
    } else {
        match lexeme_at(src, pos) {
            Lexeme::Blank => lex_from(src, pos + 1, acc),
            Lexeme::Token(token, n) => if 0 < n && pos + n <= src.len() {
                lex_from(src, pos + n, acc.push(Lexed { token, start: pos, end: pos + n }))
            } else {
                Err(pos)
            },
            Lexeme::Unknown => Err(pos),
        }
    }
}

/// The tokens of a source text, or the position of the first character that
/// no token can start with.
pub open spec fn tokens_of(src: Seq<char>) -> Result<Seq<Lexed>, int> {
    lex_from(src, 0, Seq::empty())
}

/// A count one higher, as far as `usize` goes.
pub open spec fn bump(n: usize) -> usize {
    if n < usize::MAX {
        (n + 1) as usize
    } else {
        n
    }
}

/// The position after the character `c`, which stands at `loc`: the start
/// of the next line after a line feed, the next column otherwise.
pub open spec fn after_char(loc: SpanLocation, c: char) -> SpanLocation {
    if c == '\n' {
        SpanLocation { line: bump(loc.line), column: 1 }
    } else {
        SpanLocation { line: loc.line, column: bump(loc.column) }
    }
}

/// The line and column of the character at index `pos` of the source, both
/// counted from one.
pub open spec fn location_at(src: Seq<char>, pos: int) -> SpanLocation
    decreases pos,
{
    if pos <= 0 || pos > src.len() {
        SpanLocation { line: 1, column: 1 }
    } else {
        after_char(location_at(src, pos - 1), src[pos - 1])
    }
}

/// The number of bytes that a character takes in UTF-8.
pub open spec fn utf8_len(c: char) -> usize {
    if (c as u32) < 0x80 {
        1
    } else if (c as u32) < 0x800 {
        2
    } else if (c as u32) < 0x10000 {
        3
    } else {
        4
    }
}

/// The sum of two byte counts, as far as `usize` goes.
pub open spec fn clipped_add(a: usize, b: usize) -> usize {
    if a + b > usize::MAX {
        usize::MAX
    } else {
        (a + b) as usize
    }
}

/// The number of bytes that the characters before index `pos` take.
pub open spec fn byte_offset(src: Seq<char>, pos: int) -> usize
    decreases pos,
{
    if pos <= 0 || pos > src.len() {
        0
    } else {
        clipped_add(byte_offset(src, pos - 1), utf8_len(src[pos - 1]))
    }
}

/// The span of the characters from index `start` up to index `end`.
pub open spec fn span_between(src: Seq<char>, start: int, end: int) -> Span {
    Span {
        context: SpanContext { path: None },
        range: Range { start: location_at(src, start), end: location_at(src, end) },
    }
}

/// Whether what the lexer returned is what the source holds: the tokens in
/// order, each with the span of its characters, or the first character that
/// no token can start with and the bytes that it takes.
pub open spec fn lexed(r: Result<Vec<(Token, Span)>, Error>, src: Seq<char>) -> bool {
    match (r, tokens_of(src)) {
        (Ok(v), Ok(found)) => {
            &&& v.len() == found.len()
            &&& forall|i: int|
                0 <= i < v.len() ==> (#[trigger] v[i]).0@ == found[i].token && v[i].1 == span_between(
                    src,
                    found[i].start,
                    found[i].end,
                )
        },
        (Err(e), Err(pos)) => {
            &&& 0 <= pos < src.len()
            &&& e@ == (ErrorView {
                text: seq![src[pos]],
                start: byte_offset(src, pos) as int,
                end: byte_offset(src, pos + 1) as int,
            })
        },
        _ => false,
    }
}

/// The characters of a string, in order.
pub fn chars_of(s: &str) -> (v: Vec<char>)
    ensures
        v@ == s@,
{
    let mut v: Vec<char> = Vec::new();
    for c in iter: s.chars()
        invariant
            iter.seq() == s@,
            v@ == iter.seq().take(iter.index() as int),
    {
        v.push(c);
    }
    assert(v@ =~= s@);
    v
}

fn blank(c: char) -> (r: bool)
    ensures
        r == is_blank(c),
{
    c == ' ' || c == '\t' || c == '\n' || c == '\r' || c == '\x0c'
}

fn digit(c: char) -> (r: bool)
    ensures
        r == is_digit(c),
{
    '0' <= c && c <= '9'
}

fn ident_start(c: char) -> (r: bool)
    ensures
        r == is_ident_start(c),
{
    ('a' <= c && c <= 'z') || ('A' <= c && c <= 'Z') || c == '_'
}

/// The position after the identifier characters that stand at `pos`.
fn ident_end(chars: &[char], pos: usize) -> (end: usize)
    requires
        pos <= chars.len(),
    ensures
        end == pos + ident_run(chars@, pos as int),
        end <= chars.len(),
{
    let mut end = pos;
    while end < chars.len() && (ident_start(chars[end]) || digit(chars[end]))
        invariant
            pos <= end <= chars.len(),
            ident_run(chars@, pos as int) == (end - pos) + ident_run(chars@, end as int),
        decreases chars.len() - end,
    {
        end = end + 1;
    }
    end
}

/// The position after the digits that stand at `pos`.
fn digit_end(chars: &[char], pos: usize) -> (end: usize)
    requires
        pos <= chars.len(),
    ensures
        end == pos + digit_run(chars@, pos as int),
        end <= chars.len(),
{
    let mut end = pos;
    while end < chars.len() && digit(chars[end])
        invariant
            pos <= end <= chars.len(),
            digit_run(chars@, pos as int) == (end - pos) + digit_run(chars@, end as int),
        decreases chars.len() - end,
    {
        end = end + 1;
    }
    end
}

/// The characters from `from` up to `to` as a string.
fn text_of(chars: &[char], from: usize, to: usize) -> (text: String)
    requires
        from <= to <= chars.len(),
    ensures
        text@ == chars@.subrange(from as int, to as int),
{
    let mut text = String::new();
    let mut i = from;
    while i < to
        invariant
            from <= i <= to <= chars.len(),
            text@ == chars@.subrange(from as int, i as int),
        decreases to - i,
    {
        text.push(chars[i]);
        assert(chars@.subrange(from as int, i + 1) =~= chars@.subrange(from as int, i as int).push(
            chars@[i as int],
        ));
        i = i + 1;
    }
    text
}

/// Whether a string spells what a literal does.
fn same_text(text: &String, word: &str) -> (r: bool)
    ensures
        r == (text@ == word@),
{
    let other = String::from_str(word);
    *text == other
}

/// The reserved word that `text` spells, if it spells one.
fn keyword_token(text: &String) -> (r: Option<Token>)
    ensures
        match r {
            Some(token) => keyword(text@) == Some(token@),
            None => keyword(text@) is None,
        },
{
    if same_text(text, "and") {
        Some(Token::And)
    } else if same_text(text, "or") {
        Some(Token::Or)
    } else if same_text(text, "not") {
        Some(Token::Not)
    } else if same_text(text, "Span") {
        Some(Token::SpanRead)
    } else if same_text(text, "module") {
        Some(Token::Module)
    } else if same_text(text, "is") {
        Some(Token::Is)
    } else if same_text(text, "body") {
        Some(Token::Body)
    } else if same_text(text, "import") {
        Some(Token::Import)
    } else if same_text(text, "as") {
        Some(Token::As)
    } else if same_text(text, "end") {
        Some(Token::End)
    } else if same_text(text, "constant") {
        Some(Token::Constant)
    } else if same_text(text, "type") {
        Some(Token::Type)
    } else if same_text(text, "function") {
        Some(Token::Function)
    } else if same_text(text, "generic") {
        Some(Token::Generic)
    } else if same_text(text, "record") {
        Some(Token::Record)
    } else if same_text(text, "union") {
        Some(Token::Union)
    } else if same_text(text, "case") {
        Some(Token::Case)
    } else if same_text(text, "of") {
        Some(Token::Of)
    } else if same_text(text, "when") {
        Some(Token::When)
    } else if same_text(text, "typeclass") {
        Some(Token::TypeClass)
    } else if same_text(text, "instance") {
        Some(Token::Instance)
    } else if same_text(text, "method") {
        Some(Token::Method)
    } else if same_text(text, "if") {
        Some(Token::If)
    } else if same_text(text, "then") {
        Some(Token::Then)
    } else if same_text(text, "else") {
        Some(Token::Else)
    } else if same_text(text, "let") {
        Some(Token::Let)
    } else if same_text(text, "var") {
        Some(Token::Var)
    } else if same_text(text, "while") {
        Some(Token::While)
    } else if same_text(text, "for") {
        Some(Token::For)
    } else if same_text(text, "do") {
        Some(Token::Do)
    } else if same_text(text, "from") {
        Some(Token::From)
    } else if same_text(text, "to") {
        Some(Token::To)
    } else if same_text(text, "borrow") {
        Some(Token::Borrow)
    } else if same_text(text, "return") {
        Some(Token::Return)
    } else if same_text(text, "skip") {
        Some(Token::Skip)
    } else if same_text(text, "pragma") {
        Some(Token::Pragma)
    } else if same_text(text, "sizeof") {
        Some(Token::SizeOf)
    } else if same_text(text, "nil") {
        Some(Token::Nil)
    } else if same_text(text, "true") {
        Some(Token::True)
    } else if same_text(text, "false") {
        Some(Token::False)
    } else if same_text(text, "Free") {
        Some(Token::Universe(Universe::Free))
    } else if same_text(text, "Linear") {
        Some(Token::Universe(Universe::Linear))
    } else if same_text(text, "Type") {
        Some(Token::Universe(Universe::Type))
    } else if same_text(text, "Region") {
        Some(Token::Universe(Universe::Region))
    } else {
        None
    }
}

/// Every character of a run of digits is a digit.
proof fn lemma_digit_run(src: Seq<char>, pos: int, i: int)
    requires
        0 <= pos <= i < pos + digit_run(src, pos),
    ensures
        i < src.len(),
        is_digit(src[i]),
    decreases i - pos,
{
    if i > pos {
        lemma_digit_run(src, pos + 1, i);
    }
}

/// More digits do not write a smaller number.
proof fn lemma_decimal_grows(src: Seq<char>, from: int, mid: int, to: int)
    requires
        0 <= from <= mid <= to <= src.len(),
    ensures
        decimal_value(src.subrange(from, mid)) <= decimal_value(src.subrange(from, to)),
    decreases to - mid,
{
    if mid < to {
        lemma_decimal_grows(src, from, mid, to - 1);
        assert(src.subrange(from, to).drop_last() =~= src.subrange(from, to - 1));
    }
}

/// The value of the digits from `from` up to `to`, if `u64` holds it.
fn decimal(chars: &[char], from: usize, to: usize) -> (r: Option<u64>)
    requires
        from <= to <= chars.len(),
        forall|i: int| from <= i < to ==> is_digit(chars@[i]),
    ensures
        match r {
            Some(v) => v == decimal_value(chars@.subrange(from as int, to as int)),
            None => decimal_value(chars@.subrange(from as int, to as int)) > u64::MAX,
        },
{
    let mut value: u64 = 0;
    let mut i = from;
    while i < to
        invariant
            from <= i <= to <= chars.len(),
            forall|j: int| from <= j < to ==> is_digit(chars@[j]),
            value == decimal_value(chars@.subrange(from as int, i as int)),
        decreases to - i,
    {
        let d = (chars[i] as u32 - '0' as u32) as u64;
        proof {
            assert(chars@.subrange(from as int, i + 1).drop_last() =~= chars@.subrange(
                from as int,
                i as int,
            ));
            assert(decimal_value(chars@.subrange(from as int, i + 1)) == 10 * value + d);
        }
        if value > (u64::MAX - d) / 10 {
            proof {
                lemma_decimal_grows(chars@, from as int, i + 1, to as int);
            }
            return None;
        }
        value = value * 10 + d;
        i = i + 1;
    }
    Some(value)
}

/// The position after the exponent of a float that stands at `pos`; `pos`
/// itself where none stands there.
fn exponent_end(chars: &[char], pos: usize) -> (end: usize)
    requires
        pos <= chars.len(),
    ensures
        end == pos + exponent_len(chars@, pos as int),
        end <= chars.len(),
{
    if pos < chars.len() && (chars[pos] == 'e' || chars[pos] == 'E') {
        let signed = pos + 1 < chars.len() && (chars[pos + 1] == '+' || chars[pos + 1] == '-');
        let digits_start = if signed {
            pos + 2
        } else {
            pos + 1
        };
        let end = digit_end(chars, digits_start);
        if end > digits_start {
            end
        } else {
            pos
        }
    } else {
        pos
    }
}

/// Reads the number that starts at `pos`, if one does.
fn scan_number(chars: &[char], pos: usize) -> (r: Option<(Token, usize)>)
    requires
        pos < chars.len(),
    ensures
        match r {
            Some((token, end)) => number_at(
                chars@,
                pos as int,
            ) == Some((token@, (end - pos) as nat))
                && pos < end <= chars.len(),
            None => number_at(chars@, pos as int) is None,
        },
{
    let signed = chars[pos] == '+' || chars[pos] == '-';
    let digits_start = if signed {
        pos + 1
    } else {
        pos
    };
    let whole_end = digit_end(chars, digits_start);
    if whole_end == digits_start {
        return None;
    }
    if whole_end < chars.len() && chars[whole_end] == '.' {
        let fraction_end = digit_end(chars, whole_end + 1);
        let end = exponent_end(chars, fraction_end);
        let text = text_of(chars, pos, end);
        Some((Token::Float(text), end))
    } else if !signed {
        proof {
            assert forall|i: int| pos <= i < whole_end implies is_digit(chars@[i]) by {
                lemma_digit_run(chars@, pos as int, i);
            }
        }
        match decimal(chars, pos, whole_end) {
            Some(value) => Some((Token::Decimal(value), whole_end)),
            None => None,
        }
    } else {
        None
    }
}

/// Reads the word that starts at `pos`.
fn scan_word(chars: &[char], pos: usize) -> (r: (Token, usize))
    requires
        pos < chars.len(),
        is_ident_start(chars@[pos as int]),
    ensures
        word_at(chars@, pos as int) == Some((r.0@, (r.1 - pos) as nat)),
        pos < r.1 <= chars.len(),
{
    let end = ident_end(chars, pos);
    let text = text_of(chars, pos, end);
    if same_text(&text, "Span") && end < chars.len() && chars[end] == '!' {
        return (Token::SpanWrite, end + 1);
    }
    match keyword_token(&text) {
        Some(token) => (token, end),
        None => (Token::Ident(text), end),
    }
}

/// Reads the character literal that starts at `pos`, if one does.
fn scan_char(chars: &[char], pos: usize) -> (r: Option<(Token, usize)>)
    requires
        pos < chars.len(),
    ensures
        match r {
            Some((token, end)) => char_literal_at(chars@, pos as int) == Some(
                (token@, (end - pos) as nat),
            ) && pos < end <= chars.len(),
            None => char_literal_at(chars@, pos as int) is None,
        },
{
    if chars[pos] != '\'' {
        return None;
    }
    if chars.len() - pos >= 4 && chars[pos + 1] == '\\' && chars[pos + 2] == '\'' && chars[pos + 3]
        == '\'' {
        Some((Token::Char('\''), pos + 4))
    } else if chars.len() - pos >= 3 && chars[pos + 1] != '\'' && chars[pos + 2] == '\'' {
        Some((Token::Char(chars[pos + 1]), pos + 3))
    } else {
        None
    }
}

/// Whether the backslash at `pos` escapes the character after it.
fn escaping(chars: &[char], pos: usize) -> (r: bool)
    requires
        pos < chars.len(),
    ensures
        r == escapes(chars@, pos as int),
{
    chars[pos] == '\\' && pos + 1 < chars.len() && (chars[pos + 1] == '"' || chars[pos + 1] == '\\')
}

/// Finds the `"` that ends a string whose contents start at `pos`.
fn find_string_end(chars: &[char], pos: usize) -> (r: Option<usize>)
    requires
        pos <= chars.len(),
    ensures
        match r {
            Some(end) => string_end(chars@, pos as int) == Some(end as int) && pos <= end
                < chars.len(),
            None => string_end(chars@, pos as int) is None,
        },
{
    let mut cur = pos;
    while cur < chars.len()
        invariant
            pos <= cur <= chars.len(),
            string_end(chars@, pos as int) == string_end(chars@, cur as int),
        decreases chars.len() - cur,
    {
        if chars[cur] == '"' {
            return Some(cur);
        } else if chars[cur] == '\n' {
            return None;
        } else if escaping(chars, cur) {
            cur = cur + 2;
        } else {
            cur = cur + 1;
        }
    }
    None
}

/// Finds the `"""` that ends a triple-quoted string whose contents start at
/// `pos`.
fn find_triple_string_end(chars: &[char], pos: usize) -> (r: Option<usize>)
    requires
        pos <= chars.len(),
    ensures
        match r {
            Some(end) => triple_string_end(chars@, pos as int) == Some(end as int) && pos <= end
                && end + 3 <= chars.len(),
            None => triple_string_end(chars@, pos as int) is None,
        },
{
    let mut cur = pos;
    while cur < chars.len()
        invariant
            pos <= cur <= chars.len(),
            triple_string_end(chars@, pos as int) == triple_string_end(chars@, cur as int),
        decreases chars.len() - cur,
    {
        if chars[cur] == '"' && chars.len() - cur >= 3 && chars[cur + 1] == '"' && chars[cur + 2]
            == '"' {
            return Some(cur);
        } else if escaping(chars, cur) {
            cur = cur + 2;
        } else {
            cur = cur + 1;
        }
    }
    None
}

/// The characters from `from` up to `to` without their escapes.
fn unescape_range(chars: &[char], from: usize, to: usize) -> (text: String)
    requires
        from <= to <= chars.len(),
    ensures
        text@ == unescape(chars@.subrange(from as int, to as int)),
{
    let ghost whole = chars@.subrange(from as int, to as int);
    let mut text = String::new();
    let mut i = from;
    assert(whole.skip(0) =~= whole);
    while i < to
        invariant
            from <= i <= to <= chars.len(),
            whole == chars@.subrange(from as int, to as int),
            unescape(whole) == text@ + unescape(whole.skip(i - from)),
        decreases to - i,
    {
        let ghost rest = whole.skip(i - from);
        let ghost before = text@;
        assert(rest.len() == to - i);
        assert(rest[0] == chars@[i as int]);
        if chars[i] == '\\' && i + 1 < to && (chars[i + 1] == '"' || chars[i + 1] == '\\') {
            assert(rest[1] == chars@[i + 1]);
            assert(escapes(rest, 0));
            text.push(chars[i + 1]);
            assert(rest.skip(2) =~= whole.skip(i + 2 - from));
            assert(before + (seq![rest[1]] + unescape(rest.skip(2))) =~= before.push(rest[1])
                + unescape(rest.skip(2)));
            i = i + 2;
        } else {
            assert(!escapes(rest, 0)) by {
                if i + 1 < to {
                    assert(rest[1] == chars@[i + 1]);
                }
            }
            text.push(chars[i]);
            assert(rest.skip(1) =~= whole.skip(i + 1 - from));
            assert(before + (seq![rest[0]] + unescape(rest.skip(1))) =~= before.push(rest[0])
                + unescape(rest.skip(1)));
            i = i + 1;
        }
    }
    assert(whole.skip(to - from) =~= Seq::<char>::empty());
    assert(text@ + Seq::<char>::empty() =~= text@);
    text
}

/// A text without its escapes: the text itself, borrowed, where it holds
/// no escape, and a text of its own where it holds one.
#[derive(Clone, Debug, PartialEq)]
pub enum Unescaped<'a> {
    Borrowed(&'a str),
    Owned(String),
}

impl<'a> View for Unescaped<'a> {
    type V = Seq<char>;

    open spec fn view(&self) -> Seq<char> {
        match self {
            Unescaped::Borrowed(text) => text@,
            Unescaped::Owned(text) => text@,
        }
    }
}

impl<'a> Unescaped<'a> {
    /// The text, whichever way it is held.
    pub fn text(&self) -> (r: &str)
        ensures
            r@ == self@,
    {
        match self {
            Unescaped::Borrowed(text) => text,
            Unescaped::Owned(text) => text.as_str(),
        }
    }
}

/// Whether an escape stands somewhere in a text: a backslash before a `"`
/// or before a backslash.
pub open spec fn has_escape(s: Seq<char>) -> bool {
    exists|i: int| 0 <= i < s.len() && escapes(s, i)
}

/// A text that holds no escape is itself without its escapes.
pub proof fn lemma_unescape_plain(s: Seq<char>)
    requires
        !has_escape(s),
    ensures
        unescape(s) == s,
    decreases s.len(),
{
    if s.len() > 0 {
        assert(!escapes(s, 0));
        let rest = s.skip(1);
        assert forall|i: int| 0 <= i < rest.len() implies !escapes(rest, i) by {
            assert(!escapes(s, i + 1));
            assert(rest[i] == s[i + 1]);
            if i + 1 < rest.len() {
                assert(rest[i + 1] == s[i + 2]);
            }
        }
        lemma_unescape_plain(rest);
        assert(seq![s[0]] + rest =~= s);
    }
}

/// The contents of a string without its escapes: `\\` is a backslash and
/// `\"` a quote; any other backslash stays. A text that holds no escape is
/// handed back as it is, borrowed; only a text that holds one is written
/// anew.
pub fn unescape_string<'a>(value: &'a str) -> (text: Unescaped<'a>)
    ensures
        text@ == unescape(value@),
        text is Borrowed <==> !has_escape(value@),
        text matches Unescaped::Borrowed(same) ==> same@ == value@,
{
    let chars = chars_of(value);
    let mut i: usize = 0;
    while i < chars.len()
        invariant
            0 <= i <= chars.len(),
            chars@ == value@,
            forall|j: int| 0 <= j < i ==> !escapes(chars@, j),
        decreases chars.len() - i,
    {
        if escaping(chars.as_slice(), i) {
            assert(has_escape(value@));
            assert(chars@.subrange(0, chars.len() as int) =~= chars@);
            return Unescaped::Owned(unescape_range(chars.as_slice(), 0, chars.len()));
        }
        i = i + 1;
    }
    proof {
        lemma_unescape_plain(value@);
    }
    Unescaped::Borrowed(value)
}

/// Reads a string whose contents start at `pos`, after the opening `"`:
/// the contents without their escapes and the position after the closing
/// `"`, or nothing where the line or the input ends first. What is read
/// is decided by the characters from `pos` on and by nothing else.
pub fn read_string(chars: &[char], pos: usize) -> (r: Option<(String, usize)>)
    ensures
        match string_end(chars@, pos as int) {
            Some(end) => r matches Some((text, after)) && text@ == unescape(
                chars@.subrange(pos as int, end),
            ) && after == end + 1,
            None => r is None,
        },
{
    if pos > chars.len() {
        return None;
    }
    match find_string_end(chars, pos) {
        Some(end) => Some((unescape_range(chars, pos, end), end + 1)),
        None => None,
    }
}

/// Reads a triple-quoted string whose contents start at `pos`, after the
/// opening `"""`: the contents without their escapes and the position
/// after the closing `"""`, or nothing where the input ends first.
pub fn read_triple_string(chars: &[char], pos: usize) -> (r: Option<(String, usize)>)
    ensures
        match triple_string_end(chars@, pos as int) {
            Some(end) => r matches Some((text, after)) && text@ == unescape(
                chars@.subrange(pos as int, end),
            ) && after == end + 3,
            None => r is None,
        },
{
    if pos > chars.len() {
        return None;
    }
    match find_triple_string_end(chars, pos) {
        Some(end) => Some((unescape_range(chars, pos, end), end + 3)),
        None => None,
    }
}

/// Reads the string that starts at `pos`, if one does.
fn scan_string(chars: &[char], pos: usize) -> (r: Option<(Token, usize)>)
    requires
        pos < chars.len(),
    ensures
        match r {
            Some((token, end)) => string_at(
                chars@,
                pos as int,
            ) == Some((token@, (end - pos) as nat))
                && pos < end <= chars.len(),
            None => string_at(chars@, pos as int) is None,
        },
{
    if chars[pos] != '"' {
        return None;
    }
    if chars.len() - pos >= 3 && chars[pos + 1] == '"' && chars[pos + 2] == '"' {
        match read_triple_string(chars, pos + 3) {
            Some((text, after)) => {
                proof {
                    lemma_triple_string_end_bound(chars@, pos as int + 3);
                }
                Some((Token::TripleString(text), after))
            },
            None => None,
        }
    } else {
        match read_string(chars, pos + 1) {
            Some((text, after)) => {
                proof {
                    lemma_string_end_bound(chars@, pos as int + 1);
                }
                Some((Token::String(text), after))
            },
            None => None,
        }
    }
}

/// The `"` that ends a string stands in the text, at or after the start
/// of the contents.
proof fn lemma_string_end_bound(src: Seq<char>, pos: int)
    requires
        0 <= pos,
    ensures
        string_end(src, pos) matches Some(end) ==> pos <= end < src.len(),
    decreases src.len() - pos,
{
    if pos < src.len() && src[pos] != '"' && src[pos] != '\n' {
        if escapes(src, pos) {
            lemma_string_end_bound(src, pos + 2);
        } else {
            lemma_string_end_bound(src, pos + 1);
        }
    }
}

/// The `"""` that ends a triple-quoted string stands in the text, at or
/// after the start of the contents.
proof fn lemma_triple_string_end_bound(src: Seq<char>, pos: int)
    requires
        0 <= pos,
    ensures
        triple_string_end(src, pos) matches Some(end) ==> pos <= end && end + 3 <= src.len(),
    decreases src.len() - pos,
{
    if pos < src.len() && !(src[pos] == '"' && char_at(src, pos + 1) == Some('"') && char_at(
        src,
        pos + 2,
    ) == Some('"')) {
        if escapes(src, pos) {
            lemma_triple_string_end_bound(src, pos + 2);
        } else {
            lemma_triple_string_end_bound(src, pos + 1);
        }
    }
}

/// Reads the intrinsic's name at `pos`, if it stands there.
fn scan_embed(chars: &[char], pos: usize) -> (r: Option<(Token, usize)>)
    requires
        pos < chars.len(),
    ensures
        match r {
            Some((token, end)) => embed_at(chars@, pos as int) == Some((token@, (end - pos) as nat))
                && pos < end <= chars.len(),
            None => embed_at(chars@, pos as int) is None,
        },
{
    if chars.len() - pos >= 6 {
        let text = text_of(chars, pos, pos + 6);
        if same_text(&text, "@embed") {
            return Some((Token::Embed, pos + 6));
        }
    }
    None
}

/// Reads the operator or the punctuation that starts at `pos`, if one does.
fn scan_operator(chars: &[char], pos: usize) -> (r: Option<(Token, usize)>)
    requires
        pos < chars.len(),
    ensures
        match r {
            Some((token, end)) => operator_at(chars@, pos as int) matches Some(found) && token@
                == TokenView::Plain(found.0) && end - pos == found.1 && pos < end <= chars.len(),
            None => operator_at(chars@, pos as int) is None,
        },
{
    let c = chars[pos];
    let next: Option<char> = if pos + 1 < chars.len() {
        Some(chars[pos + 1])
    } else {
        None
    };
    let follows = |ch: char| -> (b: bool)
        ensures
            b == (next == Some(ch)),
        {
            match next {
                Some(n) => n == ch,
                None => false,
            }
        };
    if c == '(' {
        Some((Token::LParen, pos + 1))
    } else if c == ')' {
        Some((Token::RParen, pos + 1))
    } else if c == '[' {
        Some((Token::LBracket, pos + 1))
    } else if c == ']' {
        Some((Token::RBracket, pos + 1))
    } else if c == '{' {
        Some((Token::LBrace, pos + 1))
    } else if c == '}' {
        Some((Token::RBrace, pos + 1))
    } else if c == '+' {
        Some((Token::Add, pos + 1))
    } else if c == '-' {
        if follows('>') {
            Some((Token::HypenRight, pos + 2))
        } else {
            Some((Token::Sub, pos + 1))
        }
    } else if c == '*' {
        Some((Token::Mul, pos + 1))
    } else if c == '/' {
        if follows('=') {
            Some((Token::NotEq, pos + 2))
        } else {
            Some((Token::Div, pos + 1))
        }
    } else if c == '=' {
        if follows('>') {
            Some((Token::ArrowRight, pos + 2))
        } else {
            Some((Token::Eq, pos + 1))
        }
    } else if c == '<' {
        if follows('=') {
            Some((Token::LtEq, pos + 2))
        } else {
            Some((Token::Lt, pos + 1))
        }
    } else if c == '>' {
        if follows('=') {
            Some((Token::GtEq, pos + 2))
        } else {
            Some((Token::Gt, pos + 1))
        }
    } else if c == '&' {
        if follows('!') {
            Some((Token::BorrowWrite, pos + 2))
        } else if follows('~') {
            Some((Token::ReBorrow, pos + 2))
        } else if follows('(') {
            Some((Token::RefTransform, pos + 2))
        } else {
            Some((Token::BorrowRead, pos + 1))
        }
    } else if c == ';' {
        Some((Token::Semi, pos + 1))
    } else if c == ',' {
        Some((Token::Comma, pos + 1))
    } else if c == '.' {
        Some((Token::Period, pos + 1))
    } else if c == ':' {
        if follows('=') {
            Some((Token::Assign, pos + 2))
        } else {
            Some((Token::Colon, pos + 1))
        }
    } else if c == '!' {
        Some((Token::Deref, pos + 1))
    } else {
        None
    }
}

fn char_bytes(c: char) -> (n: usize)
    ensures
        n == utf8_len(c),
{
    let code = c as u32;
    if code < 0x80 {
        1
    } else if code < 0x800 {
        2
    } else if code < 0x10000 {
        3
    } else {
        4
    }
}

fn next_count(n: usize) -> (r: usize)
    ensures
        r == bump(n),
{
    if n < usize::MAX {
        n + 1
    } else {
        n
    }
}

fn add_bytes(a: usize, b: usize) -> (r: usize)
    ensures
        r == clipped_add(a, b),
{
    if a > usize::MAX - b {
        usize::MAX
    } else {
        a + b
    }
}

/// Moves a location and a byte count over the characters from `from` up to
/// `to`.
fn advance(chars: &[char], from: usize, to: usize, loc: SpanLocation, bytes: usize) -> (r: (
    SpanLocation,
    usize,
))
    requires
        from <= to <= chars.len(),
        loc == location_at(chars@, from as int),
        bytes == byte_offset(chars@, from as int),
    ensures
        r.0 == location_at(chars@, to as int),
        r.1 == byte_offset(chars@, to as int),
{
    let mut loc = loc;
    let mut bytes = bytes;
    let mut i = from;
    while i < to
        invariant
            from <= i <= to <= chars.len(),
            loc == location_at(chars@, i as int),
            bytes == byte_offset(chars@, i as int),
        decreases to - i,
    {
        let c = chars[i];
        if c == '\n' {
            loc = SpanLocation { line: next_count(loc.line), column: 1 };
        } else {
            loc = SpanLocation { line: loc.line, column: next_count(loc.column) };
        }
        bytes = add_bytes(bytes, char_bytes(c));
        i = i + 1;
    }
    (loc, bytes)
}

/// Reads the token that starts at `pos`, where no blank stands, if one
/// starts there.
fn scan(chars: &[char], pos: usize) -> (r: Option<(Token, usize)>)
    requires
        pos < chars.len(),
        !is_blank(chars@[pos as int]),
    ensures
        match r {
            Some((token, end)) => lexeme_at(chars@, pos as int) == Lexeme::Token(
                token@,
                (end - pos) as nat,
            ) && pos < end <= chars.len(),
            None => lexeme_at(chars@, pos as int) == Lexeme::Unknown,
        },
{
    let c = chars[pos];
    if ident_start(c) {
        return Some(scan_word(chars, pos));
    }
    match scan_number(chars, pos) {
        Some(found) => Some(found),
        None => {
            if c == '\'' {
                scan_char(chars, pos)
            } else if c == '"' {
                scan_string(chars, pos)
            } else if c == '@' {
                scan_embed(chars, pos)
            } else {
                scan_operator(chars, pos)
            }
        },
    }
}

/// Reads the tokens of a sequence of characters.
pub fn lex_chars(chars: &[char]) -> (r: Result<Vec<(Token, Span)>, Error>)
    ensures
        lexed(r, chars@),
{
    let mut out: Vec<(Token, Span)> = Vec::new();
    let ghost mut found: Seq<Lexed> = Seq::empty();
    let mut pos: usize = 0;
    let mut loc = SpanLocation { line: 1, column: 1 };
    let mut bytes: usize = 0;
    while pos < chars.len()
        invariant
            0 <= pos <= chars.len(),
            loc == location_at(chars@, pos as int),
            bytes == byte_offset(chars@, pos as int),
            tokens_of(chars@) == lex_from(chars@, pos as int, found),
            out.len() == found.len(),
            forall|i: int|
                0 <= i < out.len() ==> (#[trigger] out[i]).0@ == found[i].token && out[i].1
                    == span_between(chars@, found[i].start, found[i].end),
        decreases chars.len() - pos,
    {
        if blank(chars[pos]) {
            let (next_loc, next_bytes) = advance(chars, pos, pos + 1, loc, bytes);
            loc = next_loc;
            bytes = next_bytes;
            pos = pos + 1;
        } else {
            match scan(chars, pos) {
                Some((token, end)) => {
                    let (next_loc, next_bytes) = advance(chars, pos, end, loc, bytes);
                    let span = Span {
                        context: SpanContext { path: None },
                        range: Range { start: loc, end: next_loc },
                    };
                    proof {
                        found = found.push(Lexed { token: token@, start: pos as int, end: end as int });
                    }
                    out.push((token, span));
                    loc = next_loc;
                    bytes = next_bytes;
                    pos = end;
                },
                None => {
                    let text = text_of(chars, pos, pos + 1);
                    let (_, end_bytes) = advance(chars, pos, pos + 1, loc, bytes);
                    assert(text@ =~= seq![chars@[pos as int]]);
                    return Err(Error::UnexpectedInput(text, Range { start: bytes, end: end_bytes }));
                },
            }
        }
    }
    Ok(out)
}

/// Reads the tokens of a source text, each with the span of its characters.
/// It fails at the first character that no token can start with.
pub fn lex(source: &str) -> (r: Result<Vec<(Token, Span)>, Error>)
    ensures
        lexed(r, source@),
{
    let chars = chars_of(source);
    lex_chars(chars.as_slice())
}

/// The tokens of what `lex` returned, without their spans.
pub fn tokens_only(lexed: Vec<(Token, Span)>) -> (tokens: Vec<Token>)
    ensures
        tokens.len() == lexed.len(),
        forall|i: int| 0 <= i < tokens.len() ==> tokens[i] == lexed[i].0,
{
    let mut tokens: Vec<Token> = Vec::new();
    let mut rest = lexed;
    let ghost all = rest@;
    while rest.len() > 0
        invariant
            tokens.len() + rest.len() == all.len(),
            forall|i: int| 0 <= i < rest.len() ==> rest[i] == all[i],
            forall|i: int|
                0 <= i < tokens.len() ==> tokens[i] == all[all.len() - 1 - i].0,
        decreases rest.len(),
    {
        match rest.pop() {
            Some((token, _)) => {
                tokens.push(token);
            },
            None => {},
        }
    }
    let mut ordered: Vec<Token> = Vec::new();
    while tokens.len() > 0
        invariant
            ordered.len() + tokens.len() == all.len(),
            forall|i: int|
                0 <= i < tokens.len() ==> tokens[i] == all[all.len() - 1 - i].0,
            forall|i: int| 0 <= i < ordered.len() ==> ordered[i] == all[i].0,
        decreases tokens.len(),
    {
        match tokens.pop() {
            Some(token) => {
                ordered.push(token);
            },
            None => {},
        }
    }
    ordered
}

} // verus!
