//! A small line-oriented scripting language: tokenizing, parsing,
//! static type checking and a tree-walking evaluator over an explicit
//! execution context.
pub mod text;
pub mod lex;
pub mod types;
pub mod ast;
pub mod num;
pub mod parse;
pub mod env;
pub mod context;
pub mod check;
pub mod eval;
pub mod show;
pub mod laws;
