//! Ids of nodes and of the nodes that are triples, for environments whose
//! nodes are not tied to an environment.

use vstd::prelude::*;

use crate::env::local_node::LocalId;

verus! {

#[derive(Clone, Copy, Debug, Eq, Hash, Ord, PartialOrd, PartialEq)]
pub struct NodeId(LocalId);

#[derive(Clone, Copy, Debug, Eq, Ord, PartialOrd, PartialEq)]
pub struct TripleId(NodeId);

impl NodeId {
    pub closed spec fn spec_id(&self) -> LocalId {
        self.0
    }

    pub fn new(id: LocalId) -> (res: NodeId)
        ensures
            res.spec_id() == id,
    {
        NodeId(id)
    }

    pub fn id(&self) -> (res: LocalId)
        ensures
            res == self.spec_id(),
    {
        self.0
    }
}

impl TripleId {
    pub closed spec fn spec_node(&self) -> NodeId {
        self.0
    }

    pub fn new(id: LocalId) -> (res: TripleId)
        ensures
            res.spec_node().spec_id() == id,
    {
        TripleId(NodeId::new(id))
    }

    pub fn node(&self) -> (res: NodeId)
        ensures
            res == self.spec_node(),
    {
        self.0
    }
}

} // verus!
