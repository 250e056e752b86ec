//! Front end of a small C-like scripting language: a tokenizer, a
//! recursive-descent parser with error recovery, and a printer that renders
//! the syntax tree in a canonical parenthesised form.
//!
//! Every stage is specified by a mathematical model over sequences of
//! characters and tokens, and the executable code is proved to compute
//! exactly that model:
//!
//! - [`scan`] says what the tokens and diagnostics of a text are, and
//!   [`lexer`] computes them;
//! - [`grammar`] says what the program and diagnostics of a token stream
//!   are, and [`parser`] computes them;
//! - [`printer`] says what the printed form of a tree is, and computes it.
//!
//! The laws of the models are proved in [`laws`] (forward progress and
//! size), [`shape`] and [`invariance`] (source positions never show in what
//! is parsed and printed), [`locality`] (diagnostics of one declaration do
//! not depend on the others) and [`spacing`] (blanks between lexemes never
//! show).

pub mod token;
pub mod error;
pub mod text;
pub mod ast;
pub mod printer;
pub mod scan;
pub mod lexer;
pub mod grammar;
pub mod parser;
pub mod laws;
pub mod shape;
pub mod invariance;
pub mod locality;
pub mod spacing;
