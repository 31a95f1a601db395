//! Building lists element by element.

use vstd::prelude::*;

use crate::reader::list_from_vec;
use crate::sexp::{spec_list, Sexp};

verus! {

/// A list under construction: elements are added at its end.
#[derive(Debug)]
pub struct ConsList {
    elems: Vec<Sexp>,
}

impl View for ConsList {
    type V = Seq<Sexp>;

    closed spec fn view(&self) -> Seq<Sexp> {
        self.elems@
    }
}

impl ConsList {
    /// A list without elements.
    pub fn new() -> (res: ConsList)
        ensures
            res@ == Seq::<Sexp>::empty(),
    {
        ConsList { elems: Vec::new() }
    }

    /// The list built so far: the empty list where nothing was added.
    pub fn release(self) -> (res: Box<Sexp>)
        ensures
            *res == spec_list(self@),
    {
        Box::new(list_from_vec(self.elems))
    }

    /// Adds `val` at the end of the list.
    pub fn append(&mut self, val: Box<Sexp>)
        ensures
            final(self)@ == old(self)@.push(*val),
    {
        self.elems.push(*val);
    }
}

} // verus!
