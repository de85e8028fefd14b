//! Front end of a small scripting language: a scanner that turns source text
//! into tokens, a recursive-descent parser that builds a syntax tree from them,
//! and a tree-walking interpreter that runs the tree against native functions.

pub mod ast;
pub mod dump;
pub mod interpreter;
pub mod lexer;
pub mod parser;
pub mod token;
