//! Storage records of an in-memory environment.

use vstd::prelude::*;

use crate::env::local_node::LocalNode;
use crate::env::triple_ids::TripleIds;
use crate::sexp::Sexp;

verus! {

/// The triples that a node takes part in, by the role it plays.
#[derive(Debug)]
pub struct Edges {
    pub as_subject: TripleIds,
    pub as_predicate: TripleIds,
    pub as_object: TripleIds,
}

impl Edges {
    pub open spec fn wf(&self) -> bool {
        &&& self.as_subject.wf()
        &&& self.as_predicate.wf()
        &&& self.as_object.wf()
    }

    pub fn new() -> (res: Edges)
        ensures
            res.wf(),
            res.as_subject@ == Set::<crate::env::local_node::LocalTriple>::empty(),
            res.as_predicate@ == Set::<crate::env::local_node::LocalTriple>::empty(),
            res.as_object@ == Set::<crate::env::local_node::LocalTriple>::empty(),
    {
        Edges {
            as_subject: TripleIds::new(),
            as_predicate: TripleIds::new(),
            as_object: TripleIds::new(),
        }
    }
}

impl Default for Edges {
    fn default() -> (res: Edges)
        ensures
            res.wf(),
            res.as_subject@.is_empty(),
            res.as_predicate@.is_empty(),
            res.as_object@.is_empty(),
    {
        Edges::new()
    }
}

/// A stored node: either an atom or a structure.
#[derive(Debug)]
pub enum Node {
    Atomic,
    Structured(Sexp),
}

impl Node {
    /// The structure of the node, if any.
    pub open spec fn structure(self) -> Option<Sexp> {
        match self {
            Node::Atomic => None,
            Node::Structured(s) => Some(s),
        }
    }
}

/// A stored triple.
#[derive(Debug)]
pub struct Triple {
    pub object: LocalNode,
    pub predicate: LocalNode,
    pub subject: LocalNode,
}

} // verus!
