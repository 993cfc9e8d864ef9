//! A small regular-expression engine with whole-line matching semantics.
//!
//! A pattern string is tokenized ([`tokens`]), parsed into an abstract syntax
//! tree ([`ast`], [`parser`]), compiled into a nondeterministic finite
//! automaton, and simulated against input lines ([`automaton`]).

pub mod ast;
pub mod automaton;
pub mod cli;
pub mod laws;
pub mod parser;
pub mod tokens;
