//! A small front-end pipeline for a toy expression language: lexer, parser,
//! symbol checker and evaluator, with position-accurate diagnostics collected
//! along the way instead of aborting on the first error.

pub mod compilation_unit;
pub mod diagnostics;
pub mod symbols;
pub mod text;
pub mod syntax;
