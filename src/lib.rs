//! A front end for a small turtle-graphics dialect: a tokenizer that turns
//! source lines into a flat token sequence, and a recursive-descent parser
//! that builds an abstract syntax tree from those tokens.

pub mod ast;
pub mod grammar;
pub mod laws;
pub mod lexer;
pub mod parser;
pub mod procs;
