//! The front end and the back end of a compiler for a small scripting
//! language: source text is turned into tokens ([`tokenizer`]), tokens into
//! expression trees ([`expression_parser`]), and lines of blocks into the
//! document that the target runs ([`compiler`]).

pub mod compiler;
pub mod expression_parser;
pub mod parser;
pub mod parser_traits;
pub mod resources;
pub mod text;
pub mod tokenizer;
