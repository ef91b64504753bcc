//! A front end for a small Rust-like language: a lexer, a parser and a
//! semantic checker, each stated against a mathematical model and verified.
//!
//! Source text goes through three stages. Each stage never rejects its
//! input: it returns what it could read together with what it found wrong.
//!
//! * [`lexer`] turns bytes into tokens ([`token`]). Its model reads the
//!   source as a row of pieces; [`tiling`] proves that the pieces cover the
//!   source, so that no byte is lost.
//! * [`parser`] turns tokens into a syntax tree ([`ast`], [`types`]). Its
//!   model is [`grammar`]; [`progress`] proves that reading stays within the
//!   input, always moves on, and reports when it fails.
//! * [`checker`] walks the tree with a stack of scopes ([`symbols`]) and
//!   reports semantic errors ([`diagnostics`]). Its model is [`rules`];
//!   [`laws`] proves what follows from the rules, such as that nothing
//!   declared in a block can be found behind it.
//!
//! [`pipeline`] runs the three in a row. [`text`] holds what they share for
//! byte strings, and [`samples`] a few functions of the analysed language as
//! executable Rust.

pub mod ast;
pub mod checker;
pub mod diagnostics;
pub mod grammar;
pub mod laws;
pub mod lexer;
pub mod parser;
pub mod pipeline;
pub mod progress;
pub mod rules;
pub mod samples;
pub mod symbols;
pub mod text;
pub mod tiling;
pub mod token;
pub mod types;
