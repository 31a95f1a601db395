//! Abstraction of nodes, to be connected by pairs of unlabeled, directed
//! edges (triples). Used by in-memory Environments.

use vstd::prelude::*;

use crate::agent::env_prelude::{prelude_of_id, EnvPrelude};

verus! {

pub type LocalId = u64;

/// A node of a single environment, identified by its local id.
#[derive(Clone, Copy, Debug, PartialEq, Eq, Structural, Hash, PartialOrd, Ord)]
pub struct LocalNode(pub LocalId);

/// A node of a single environment which is known to denote a triple.
#[derive(Clone, Copy, Debug, PartialEq, Eq, Structural, Hash, PartialOrd, Ord)]
pub struct LocalTriple(pub LocalNode);

impl LocalNode {
    pub fn new(id: LocalId) -> (res: LocalNode)
        ensures
            res.0 == id,
    {
        LocalNode(id)
    }

    pub fn id(&self) -> (res: LocalId)
        ensures
            res == self.0,
    {
        self.0
    }

    /// The prelude node this node is, if it is one.
    pub fn as_prelude(&self) -> (res: Option<EnvPrelude>)
        ensures
            res == prelude_of_id(self.0),
    {
        match self.id() {
            0 => Some(EnvPrelude::SelfEnv),
            1 => Some(EnvPrelude::Designation),
            2 => Some(EnvPrelude::TellHandler),
            3 => Some(EnvPrelude::Reserved3),
            4 => Some(EnvPrelude::Reserved4),
            5 => Some(EnvPrelude::Reserved5),
            6 => Some(EnvPrelude::Reserved6),
            7 => Some(EnvPrelude::Reserved7),
            8 => Some(EnvPrelude::Reserved8),
            9 => Some(EnvPrelude::Reserved9),
            _ => None,
        }
    }
}

impl Default for LocalNode {
    /// The default node is the self node of an environment (id 0).
    fn default() -> (res: LocalNode)
        ensures
            res.0 == 0,
    {
        LocalNode(0)
    }
}

impl LocalTriple {
    pub fn new(id: LocalId) -> (res: LocalTriple)
        ensures
            res.0.0 == id,
    {
        LocalTriple(LocalNode::new(id))
    }

    pub fn node(&self) -> (res: LocalNode)
        ensures
            res == self.0,
    {
        self.0
    }
}

} // verus!
