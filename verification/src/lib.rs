//! Lexical scanner of a small Lox-family scripting language: token kinds,
//! tokens with their payload rule, and a single-pass scanner whose output is
//! specified by a mathematical description of the lexical grammar.

pub mod grammar;
pub mod guarantees;
pub mod scanning;
pub mod scanning_error;
pub mod text;
pub mod token;
pub mod token_type;
