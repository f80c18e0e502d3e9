//! Lexical front end of a small imperative language.
//!
//! `lexer` turns bytes into tokens and offers a window over a sequence of
//! tokens for a parser to walk; `parser` holds the syntax tree that such a
//! parser builds. What the scanner returns is stated over `spec_tokens`, the
//! tokens of a sequence of bytes, and proved for every input.

pub mod lexer;
pub mod parser;
