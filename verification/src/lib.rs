//! Lexical analysis for the Lox scripting language: source text in, a flat
//! sequence of classified, line-tagged tokens out.
//!
//! - [`token`] and [`error`] hold what a scan hands out: tokens, or the
//!   first error.
//! - [`grammar`] states, as mathematics over sequences of characters, which
//!   tokens a text holds.
//! - [`scanner`] computes them, and is proved to agree with that statement.
//! - [`laws`] proves general facts about the tokens and errors of any text.
//! - [`text`] writes numbers in decimal, for the messages.

pub mod error;
pub mod grammar;
pub mod laws;
pub mod scanner;
pub mod text;
pub mod token;
