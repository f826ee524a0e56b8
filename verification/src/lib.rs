//! The lexical front end of a small scripting language: a scanner that turns
//! source bytes into classified tokens, and the expression tree with the
//! visitor that renders it as text.

pub mod ast;
pub mod classify;
pub mod error;
pub mod lines;
pub mod round_trip;
pub mod scanner;
pub mod text;
pub mod token;
