//! The errors of the front end.

pub mod lexer;
