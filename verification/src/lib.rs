//! Frontend and lowering core for a small imperative, expression-oriented
//! language.
//!
//! The crate has two central pieces: a precedence-climbing/recursive-descent
//! parser that turns a token stream into an abstract syntax tree, and a code
//! generator that lowers that tree into a control-flow-graph intermediate form
//! with phi-merged if-expressions.  A small evaluator runs the generated form
//! so that lowered programs can be executed directly.

pub mod ast;
pub mod codegen;
pub mod errors;
pub mod execution_engine;
pub mod lexer;
pub mod parser;
pub mod printer;
pub mod type_system;

use vstd::prelude::*;

verus! {

} // verus!
