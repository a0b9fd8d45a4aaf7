//! A small dynamically typed scripting language: scanner, recursive-descent
//! parser, and a tree-walking interpreter with lexical scoping and closures.

pub mod numerics;
pub mod token;
pub mod expr;
pub mod stmt;
pub mod callable;
pub mod function;
pub mod environment;
pub mod scanner;
pub mod grammar;
pub mod parser;

pub use token::Token;
pub use token::TokenType;
