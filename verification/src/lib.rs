//! A tree-walking interpreter for a small dynamically-typed expression
//! language: a scanner that turns source text into tokens, a recursive-descent
//! parser that builds an expression tree, and an evaluator that reduces the
//! tree to a runtime value.  Numbers are 64-bit signed integers; arithmetic
//! wraps on overflow.

pub mod error;
pub mod expr;
pub mod interpreter;
pub mod parser;
pub mod scanner;
pub mod text;
