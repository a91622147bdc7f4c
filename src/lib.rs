//! A parser for a small statically typed imperative language, proved against
//! its grammar.
//!
//! - [`ast`]: the syntax tree and its mathematical model.
//! - [`grammar`]: the grammar as spec functions, with ordered alternatives.
//! - [`parser`]: the executable parser, each rule proved equal to its spec.
//! - [`laws`]: properties of the grammar.
//! - [`calculator`]: a small arithmetic tree, its parser and its evaluator.

pub mod ast;
pub mod calculator;
pub mod grammar;
pub mod laws;
pub mod parser;
