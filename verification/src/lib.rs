//! Front-end core of a compiler for the Austral language: the lexer, the
//! parser, the type representation, the resolver and type checker, and the
//! linearity checker. Each phase is a function from values to values, and
//! its contract states what it returns over a plain model of its input.

pub mod ast;
pub mod common;
pub mod error;
pub mod lexer;
pub mod linearity_check;
pub mod linearity_safety;
pub mod lowering;
pub mod render;
pub mod resolver;
pub mod span;
pub mod stages;
pub mod ty;
pub mod type_check;
pub mod type_env;
pub mod type_system;
