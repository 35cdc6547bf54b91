//! A small expression-oriented scripting language: a lexer that turns source
//! text into tokens, a recursive-descent parser that turns tokens into an
//! abstract syntax tree, and a tree-walking evaluator that reduces an
//! expression tree to a literal value.
use vstd::prelude::*;

pub mod ast;
pub mod interpreter;
pub mod lexer;
pub mod num;
pub mod parser;
pub mod text;

verus! {

} // verus!
