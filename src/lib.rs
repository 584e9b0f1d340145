//! Front end of a small ML-like language: a lexer from source text to
//! position-tracked tokens, and a precedence-climbing parser from tokens to
//! an expression tree. Both are specified by spec functions over the input
//! (`lex::lex_spec`, `parse::expr_spec`) and proved to follow them.

pub mod laws;
pub mod lex;
pub mod parse;
pub mod syntax;
pub mod token;

pub use token::{Keyword, PosToken, Token};
