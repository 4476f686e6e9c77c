//! A small Scheme-like language: lexer, recursive-descent parser, cons-cell
//! object model, chained environments and an eval/apply evaluator.

pub mod ast;
pub mod env;
pub mod eval;
pub mod frame;
pub mod lexer;
pub mod obj;
pub mod parser;
pub mod program;
pub mod semantics;
pub mod text;
pub mod token;
pub mod types;
