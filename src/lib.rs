//! A tree-walking interpreter for a small dynamically typed scripting
//! language: scanner, recursive-descent parser, static scope resolver and
//! evaluator, each proved against a mathematical statement of its job.
use vstd::prelude::*;

pub mod ast_generator;
pub mod ast_printer;
pub mod callable;
pub mod environment;
pub mod error;
pub mod expr;
pub mod interpreter;
pub mod parser;
pub mod resolver;
pub mod scanner;

verus! {

} // verus!
