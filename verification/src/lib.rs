//! A lexical analyzer for a small scripting language, with a minimal
//! executor for the statements it knows.
//!
//! The lexer turns a sequence of Unicode scalar values into a lazily produced
//! stream of tokens. What each step returns is stated against a mathematical
//! description of the lexical grammar over `Seq<char>`:
//!
//! - [`chars`]: the character classes;
//! - [`token`]: tokens, errors and their models;
//! - [`grammar`]: where a token ends and what it is;
//! - [`cursor`], [`dispatch`], [`lexer`]: the executable lexer;
//! - [`locality`], [`laws`]: what holds of every input;
//! - [`statements`], [`runtime`]: the executor;
//! - [`strings`]: what is taken on trust about the standard library.

pub mod chars;
pub mod token;
pub mod grammar;
pub mod strings;
pub mod cursor;
pub mod dispatch;
pub mod lexer;
pub mod locality;
pub mod laws;
pub mod statements;
pub mod runtime;
