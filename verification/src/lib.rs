//! Lexical front end for the Lox language.
//!
//! The scanner consumes one complete source text, character by character, and
//! produces either an ordered token sequence terminated by an end-of-input
//! sentinel, or an aggregate of every lexical error found. The exact outcome
//! of a scan is pinned down by the functional model in [`model`]: the
//! executable scanner is verified to return precisely what the model says.

pub mod error;
pub mod keywords;
pub mod laws;
pub mod model;
pub mod scanner;
pub mod token;

