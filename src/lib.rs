//! A lossless lexer for a C-family scripting language.
//!
//! Every character of the source, whitespace and comments included, ends up in
//! exactly one token, so the text can be rebuilt from the token spans.
pub mod chars;
pub mod lexer;
pub mod operators;
pub mod scan;
pub mod token;
