//! The syntax tree that a parser builds from the tokens.

pub mod ast;
pub mod from;
pub mod span;
