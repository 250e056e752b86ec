//! Diagnostics recorded while tokenizing and parsing.

use vstd::prelude::*;
use vstd::string::StringExecFns;

verus! {

/// A lexical or syntactic error: what went wrong, and the 1-based line and
/// column where it was noticed.
#[derive(Debug, PartialEq, Eq)]
pub struct ParserError {
    pub message: String,
    pub line: usize,
    pub col: usize,
}

/// The mathematical content of a [`ParserError`].
pub struct Diagnostic {
    pub message: Seq<char>,
    pub line: nat,
    pub col: nat,
}

impl View for ParserError {
    type V = Diagnostic;

    open spec fn view(&self) -> Diagnostic {
        Diagnostic { message: self.message@, line: self.line as nat, col: self.col as nat }
    }
}

impl DeepView for ParserError {
    type V = Diagnostic;

    open spec fn deep_view(&self) -> Diagnostic {
        self@
    }
}

impl Clone for ParserError {
    fn clone(&self) -> (e: Self)
        ensures
            e == *self,
    {
        ParserError { message: self.message.clone(), line: self.line, col: self.col }
    }
}

impl ParserError {
    /// An error with the given message at `line`, `col`.
    pub fn new(message: &str, line: usize, col: usize) -> (e: ParserError)
        ensures
            e@ == (Diagnostic { message: message@, line: line as nat, col: col as nat }),
    {
        ParserError { message: String::from_str(message), line, col }
    }
}

} // verus!
