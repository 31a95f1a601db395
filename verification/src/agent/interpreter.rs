//! Interpreters: what a structure means.

use vstd::prelude::*;

use crate::agent::lang_error::LangError;
use crate::sexp::Sexp;

verus! {

/// Meaning of Structure, according to a (possibly implicit) metamodel.
pub trait Interpreter {
    fn interpret(&mut self, structure: Sexp) -> Result<Sexp, LangError>;
}

/// Interpreter of a non-running (manually driven) agent: every structure
/// means itself.
#[derive(Debug, Default)]
pub struct NullInterpreter {}

impl Interpreter for NullInterpreter {
    fn interpret(&mut self, structure: Sexp) -> (res: Result<Sexp, LangError>)
        ensures
            res == Ok::<Sexp, LangError>(structure),
    {
        Ok(structure)
    }
}

} // verus!
