//! The scanner, its tokens and its errors.

pub mod error;
pub mod lex;
pub mod text;
pub mod tokens;
