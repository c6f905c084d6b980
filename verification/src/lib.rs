//! A miniature shell interpreter: a quote-aware lexer, a parser that builds
//! pipelines of programs, and the decisions of the evaluator that runs them.
//!
//! Everything here is pure: the functions take and return plain values, and
//! each states what it computes over sequences of characters and tokens.

pub mod text;
pub mod scanner;
pub mod parser;
pub mod programs;
pub mod evaluator;
pub mod laws;
