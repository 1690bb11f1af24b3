//! A table-driven lexical validator.
//!
//! A deterministic finite automaton is read from a JSON configuration, a line
//! of text is cut into tokens against the automaton's alphabet, and the
//! automaton is walked over the tokens. The walk yields a verdict and the
//! symbol table of the lexemes it recognised.

pub mod automaton;
pub mod config;
pub mod error;
pub mod json;
mod names;
pub mod simulator;
pub mod symbols;
pub mod tokenizer;
pub mod validator;

pub use validator::validate;
