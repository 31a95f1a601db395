//! Errors of the language: what an evaluation can fail with.

use vstd::prelude::*;

use crate::primitive::Symbol;
use crate::sexp::Sexp;

verus! {

#[derive(Clone, Debug, PartialEq)]
pub enum LangError {
    InvalidArgument { given: Sexp, expected: String },
    InvalidState { actual: String, expected: String },
    InvalidSexp(Sexp),
    WrongArgumentCount { given: usize, expected: ExpectedCount },
    UnboundSymbol(Symbol),
    AlreadyBoundSymbol(Symbol),
    DuplicateTriple(Sexp),
    RejectedTriple(Sexp, Sexp),
    Unsupported(String),
}

#[derive(Clone, Copy, Debug, PartialEq, Eq, Structural)]
pub enum ExpectedCount {
    Exactly(usize),
    AtLeast(usize),
    AtMost(usize),
}

} // verus!
