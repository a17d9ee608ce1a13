//! A single-pass compiler front end: source text of a small imperative
//! language goes in, three-address QUAD code comes out.

pub mod boolexpr;
pub mod codegen;
pub mod compiler;
pub mod error;
pub mod expression;
pub mod lexer;
pub mod parser;
pub mod parser_model;
pub mod regexset;
pub mod text;
pub mod token;
