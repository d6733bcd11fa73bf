//! Lexical-analysis front end: raw source text in, a flat sequence of
//! classified tokens out.
//!
//! The token data model lives in [`token`], the character classes in
//! [`classify`], the mathematical model of a full scan in [`model`], the
//! executable scanner in [`tokenizer`], and the proved laws of the scan in
//! [`laws`].

pub mod classify;
pub mod laws;
pub mod model;
pub mod token;
pub mod tokenizer;
