//! A front end for a small imperative scripting language: a lexer that turns
//! source text into positioned tokens, and a Pratt parser that builds a syntax
//! tree from them and collects diagnostics along the way.
//!
//! - [`token`]: tokens, their kinds and positions.
//! - [`lexer`]: what the tokens of a source are, and the lexer that produces
//!   them one at a time.
//! - [`ast`]: the syntax tree, its value form, and what it renders to.
//! - [`render`], [`node`]: rendering, and the interface that all nodes share.
//! - [`grammar`]: what a parse of a sequence of tokens yields.
//! - [`parser`], [`statement`], [`parse_func`]: the parser.
//! - [`runner`]: from source text to a rendered program or to diagnostics.
//! - [`laws`]: what holds of the lexer and the parser on every input.
//! - [`text`]: characters, strings and decimal numerals.

pub mod ast;
pub mod grammar;
pub mod laws;
pub mod lexer;
pub mod node;
pub mod parse_func;
pub mod parser;
pub mod render;
pub mod runner;
pub mod statement;
pub mod text;
pub mod token;
