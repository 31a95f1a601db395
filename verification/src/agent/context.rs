//! Contexts: sets of nodes that name the roles of other nodes.

use vstd::prelude::*;

use crate::env::local_node::LocalNode;
use crate::primitive::Node;

verus! {

/// The nodes of the meta environment that record imports and where
/// environments are stored.
#[derive(Clone, Copy, Debug, PartialEq, Eq)]
pub struct MetaEnvContext {
    pub node: Node,
    pub imports: LocalNode,
    pub import_table: LocalNode,
    pub serialize_path: LocalNode,
}

impl MetaEnvContext {
    /// A context whose nodes are all the self node of the meta environment,
    /// used before the real context is loaded.
    pub fn placeholder() -> (res: Self)
        ensures
            res.node == (Node { env: LocalNode(0), local: LocalNode(0) }),
            res.imports == LocalNode(0),
            res.import_table == LocalNode(0),
            res.serialize_path == LocalNode(0),
    {
        let e = LocalNode::default();
        Self { node: Node::new(e, e), imports: e, import_table: e, serialize_path: e }
    }

    pub fn node(&self) -> (res: &Node)
        ensures
            *res == self.node,
    {
        &self.node
    }

    pub fn imports(&self) -> (res: &LocalNode)
        ensures
            *res == self.imports,
    {
        &self.imports
    }

    pub fn import_table(&self) -> (res: &LocalNode)
        ensures
            *res == self.import_table,
    {
        &self.import_table
    }

    pub fn serialize_path(&self) -> (res: &LocalNode)
        ensures
            *res == self.serialize_path,
    {
        &self.serialize_path
    }
}

} // verus!
