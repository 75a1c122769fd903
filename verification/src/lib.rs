//! Lexical scanner for a small C-like scripting language.
//!
//! The scanner turns an ASCII source buffer into a stream of classified
//! tokens: punctuation, one- and two-character operators, keywords,
//! identifiers and integer literals.  `model` holds the mathematical
//! description of the scan, `token` the token data types, `lexer` the
//! executable scanner proved against the model, and `laws` the proved
//! properties that relate them.

pub mod model;
pub mod token;
pub mod lexer;
pub mod laws;
