//! The SQL front-end: tokenizer, AST, and recursive-descent parser for the
//! supported subset.

pub mod ast;
pub mod parser;
pub mod tokenizer;
