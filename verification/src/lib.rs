//! Front end of a compiler for a dense, symbol-based array-programming
//! language: a tokenizer that maps Unicode source text onto a located token
//! stream, a numeric-literal parser for the language's suffix-and-exponent
//! numeral grammar, and a bracket partitioner that groups the flat token
//! stream into statements, expression separators and nested containers.

pub mod errors;

pub mod digits;

pub mod text;

pub mod numeric_literal;

pub mod glyphs;

pub mod tokenizer;

pub mod bracket_partitioner;

pub mod typing;
