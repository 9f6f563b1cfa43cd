//! A lexical analyzer and recursive-descent expression parser for a small
//! C-like scripting language.
//!
//! The lexer turns raw source text into a stream of classified tokens
//! (punctuation, one- and two-character operators, string and numeral
//! literals, identifiers and keywords), tracking line numbers and recording
//! recoverable diagnostics.  The parser consumes those tokens and renders
//! each top-level expression in fully parenthesized prefix notation, with
//! operator precedence, associativity and grouping.

pub mod text;
pub mod token;
pub mod report;
pub mod tokenizer;
pub mod expr;
pub mod parser;
