//! Why reading a serialised environment failed.

use vstd::prelude::*;

use crate::primitive::Symbol;
use crate::sexp::Sexp;

verus! {

#[derive(Debug)]
pub enum DeserializeError {
    /// Reading the source failed; the message of the failure.
    IoError(String),
    // Structured reading.
    MissingData,
    ExtraneousData(Sexp),
    UnexpectedType { given: Sexp, expected: String },
    // Reading of the sectioned file format.
    MissingHeaderSection,
    MissingNodeSection,
    MissingTripleSection,
    UnexpectedCommand(Sexp),
    ExpectedSymbol,
    UnrecognizedBuiltIn(Symbol),
    InvalidNodeEntry(Sexp),
}

} // verus!
