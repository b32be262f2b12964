//! Front end and evaluator for a small expression-oriented scripting
//! language: a lexer that turns source bytes into a lossless token stream,
//! a recursive-descent parser that builds an expression tree honoring
//! precedence and associativity, and a tree-walking evaluator that reduces
//! a tree to a runtime value or a typed runtime error.

pub mod expr;
pub mod interpreter;
pub mod lexer;
pub mod lox;
pub mod number;
pub mod parser;
pub mod render;
pub mod token;
