//! The literal tokens as parsers of their own: each takes a token sequence
//! that must be one literal of its kind and gives the literal's value.

use crate::ast::grammar::{
    fail, missing, Parsed, parsed_whole, ParseError, token_at, unexpected, whole,
};
use crate::lexer::{Token, TokenKind};
use vstd::prelude::*;

verus! {

/// The rule of `nil`.
pub open spec fn nil_literal_at(ts: Seq<Token>, pos: int) -> Parsed<()> {
    match token_at(ts, pos) {
        Some(Token::Nil) => Ok(((), 1)),
        _ => fail(pos, seq![TokenKind::Nil]),
    }
}

/// The rule of a character literal.
pub open spec fn char_literal_at(ts: Seq<Token>, pos: int) -> Parsed<char> {
    match token_at(ts, pos) {
        Some(Token::Char(c)) => Ok((c, 1)),
        _ => fail(pos, seq![TokenKind::Char]),
    }
}

/// The rule of an integer literal.
pub open spec fn u64_literal_at(ts: Seq<Token>, pos: int) -> Parsed<u64> {
    match token_at(ts, pos) {
        Some(Token::Decimal(n)) => Ok((n, 1)),
        _ => fail(pos, seq![TokenKind::Decimal]),
    }
}

/// The rule of a float literal, given as the source spells it.
pub open spec fn f64_literal_at(ts: Seq<Token>, pos: int) -> Parsed<Seq<char>> {
    match token_at(ts, pos) {
        Some(Token::Float(s)) => Ok((s@, 1)),
        _ => fail(pos, seq![TokenKind::Float]),
    }
}

/// The rule of a string literal.
pub open spec fn str_literal_at(ts: Seq<Token>, pos: int) -> Parsed<Seq<char>> {
    match token_at(ts, pos) {
        Some(Token::String(s)) => Ok((s@, 1)),
        _ => fail(pos, seq![TokenKind::String]),
    }
}

/// The rule of boolean literals: `true` or `false`.
pub open spec fn bool_literal_at(ts: Seq<Token>, pos: int) -> Parsed<bool> {
    match token_at(ts, pos) {
        Some(Token::True) => Ok((true, 1)),
        Some(Token::False) => Ok((false, 1)),
        _ => fail(pos, seq![TokenKind::True, TokenKind::False]),
    }
}

/// Takes `tokens` as the one token `nil`.
pub fn literal_nil(tokens: &[Token]) -> (r: Result<(), ParseError>)
    ensures
        match whole(nil_literal_at(tokens@, 0), tokens@.len()) {
            Ok(_) => r is Ok,
            Err(f) => r is Err && r->Err_0@ == f,
        },
{
    if tokens.len() > 0 {
        if let Token::Nil = &tokens[0] {
            if tokens.len() == 1 {
                return Ok(());
            } else {
                return Err(missing(1, TokenKind::EndOfInput));
            }
        }
    }
    Err(missing(0, TokenKind::Nil))
}

/// Takes `tokens` as one boolean literal and gives its value.
pub fn literal_bool(tokens: &[Token]) -> (r: Result<bool, ParseError>)
    ensures
        parsed_whole(r, whole(bool_literal_at(tokens@, 0), tokens@.len())),
{
    if tokens.len() > 0 {
        let value = match &tokens[0] {
            Token::True => Some(true),
            Token::False => Some(false),
            _ => None,
        };
        if let Some(b) = value {
            if tokens.len() == 1 {
                return Ok(b);
            } else {
                return Err(missing(1, TokenKind::EndOfInput));
            }
        }
    }
    let mut kinds: Vec<TokenKind> = Vec::new();
    kinds.push(TokenKind::True);
    kinds.push(TokenKind::False);
    assert(kinds@ =~= seq![TokenKind::True, TokenKind::False]);
    Err(unexpected(0, kinds))
}

/// Takes `tokens` as a character literal and gives its value.
pub fn literal_char(tokens: &[Token]) -> (r: Result<char, ParseError>)
    ensures
        parsed_whole(r, whole(char_literal_at(tokens@, 0), tokens@.len())),
{
    if tokens.len() > 0 {
        if let Token::Char(c) = &tokens[0] {
            if tokens.len() == 1 {
                return Ok(*c);
            } else {
                return Err(missing(1, TokenKind::EndOfInput));
            }
        }
    }
    Err(missing(0, TokenKind::Char))
}

/// Takes `tokens` as an integer literal and gives its value.
pub fn literal_u64(tokens: &[Token]) -> (r: Result<u64, ParseError>)
    ensures
        parsed_whole(r, whole(u64_literal_at(tokens@, 0), tokens@.len())),
{
    if tokens.len() > 0 {
        if let Token::Decimal(n) = &tokens[0] {
            if tokens.len() == 1 {
                return Ok(*n);
            } else {
                return Err(missing(1, TokenKind::EndOfInput));
            }
        }
    }
    Err(missing(0, TokenKind::Decimal))
}

/// Takes `tokens` as a float literal, given as the source spells it and gives its value.
pub fn literal_f64(tokens: &[Token]) -> (r: Result<String, ParseError>)
    ensures
        parsed_whole(r, whole(f64_literal_at(tokens@, 0), tokens@.len())),
{
    if tokens.len() > 0 {
        if let Token::Float(s) = &tokens[0] {
            if tokens.len() == 1 {
                return Ok(s.clone());
            } else {
                return Err(missing(1, TokenKind::EndOfInput));
            }
        }
    }
    Err(missing(0, TokenKind::Float))
}

/// Takes `tokens` as a string literal and gives its value.
pub fn literal_str(tokens: &[Token]) -> (r: Result<String, ParseError>)
    ensures
        parsed_whole(r, whole(str_literal_at(tokens@, 0), tokens@.len())),
{
    if tokens.len() > 0 {
        if let Token::String(s) = &tokens[0] {
            if tokens.len() == 1 {
                return Ok(s.clone());
            } else {
                return Err(missing(1, TokenKind::EndOfInput));
            }
        }
    }
    Err(missing(0, TokenKind::String))
}

} // verus!
