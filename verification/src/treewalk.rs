//! The tree-walking path: scanner with lookahead, recursive-descent parser,
//! resolver, environment and evaluator.

pub mod class;
pub mod env;
pub mod error;
pub mod expr;
pub mod globals;
pub mod grammar;
pub mod interpreter;
pub mod lox;
pub mod parser;
pub mod resolver;
pub mod scanner;
pub mod semantics;
pub mod stmt;
pub mod token;
pub mod value;
