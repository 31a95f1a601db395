//! Designation: what a primitive stands for.

use vstd::prelude::*;

use crate::agent::lang_error::LangError;
use crate::primitive::Primitive;
use crate::sexp::Sexp;

verus! {

/// A particular mapping from primitives to structures.
pub trait Designation {
    /// Whether this designation can take `designator` in its present state.
    spec fn can_designate(&self, designator: Primitive) -> bool;

    /// The structure that `designator` stands for, or why it stands for none.
    fn designate(&mut self, designator: &Primitive) -> (res: Result<Sexp, LangError>)
        requires
            old(self).can_designate(*designator),
    ;
}

} // verus!
