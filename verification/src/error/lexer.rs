//! The error of the lexer.

use std::ops::Range;
use vstd::prelude::*;

verus! {

/// What the lexer returns: a value, or its failure.
pub type Result<T> = std::result::Result<T, Error>;

/// The lexer's one failure: a character that no token can start with, and
/// the range of bytes that it takes in the source.
#[derive(Debug)]
pub enum Error {
    UnexpectedInput(String, Range<usize>),
}

/// The lexer's failure as a plain value.
pub struct ErrorView {
    pub text: Seq<char>,
    pub start: int,
    pub end: int,
}

impl View for Error {
    type V = ErrorView;

    open spec fn view(&self) -> ErrorView {
        match self {
            Error::UnexpectedInput(text, range) => ErrorView {
                text: text@,
                start: range.start as int,
                end: range.end as int,
            },
        }
    }
}

} // verus!
