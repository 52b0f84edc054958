//! Tokenizer for a small language that describes tape machines.
//!
//! [`lex::lex`] turns a whole source buffer into its sequence of tokens, or
//! into the first error in it. What the tokens of a buffer are is defined by
//! [`grammar::tokenize`], over plain sequences of bytes and without a word
//! about how to scan; `lex` is proved to return exactly that. What follows
//! from the definition for every buffer is collected in [`laws`] and
//! [`separation`].

pub mod chars;
pub mod token;
pub mod grammar;
pub mod lex;
pub mod laws;
pub mod separation;
mod keywords;
mod scanner;
mod text;
