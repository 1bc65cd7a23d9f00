//! A small expression-language front end: source bytes are scanned into
//! tokens, parsed by recursive descent into a syntax tree, and evaluated by
//! a tree walk into a runtime value.
//!
//! Every stage is specified against a mathematical model and proved to
//! return exactly what the model says: `spec_scan` for the scanner,
//! `spec_parse` and the grammar tiers for the parser, `spec_eval` for the
//! evaluator, and `spec_intern` for the string interner. Malformed input is
//! reported as a typed error instead of a panic.

pub mod ast;
pub mod error;
pub mod eval;
pub mod lexer;
pub mod parser;
pub mod span;
pub mod symbol;
