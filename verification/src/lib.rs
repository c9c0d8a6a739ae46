//! Core of a tree-walking interpreter for a small dynamically typed
//! scripting language: a lexer from characters to tokens, a recursive-descent
//! parser from tokens to an abstract syntax tree, and an evaluator that walks
//! the tree against a lexically scoped environment.

pub mod text;
pub mod token;
pub mod value;
pub mod error;
pub mod scanner;
pub mod ast;
pub mod printer;
pub mod parser;
pub mod environment;
pub mod error_reporter;
pub mod values;
pub mod interpreter;
