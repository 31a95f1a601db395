//! Storage interface of in-memory environments.

use vstd::prelude::*;

use super::designator::{designator_contents, Designator};
use super::index_id_conv::{index_to_triple_id, spec_is_triple_id, spec_triple_index, triple_bit};
use super::repr::{Edges, Node, Triple};
use crate::env::local_node::{LocalId, LocalNode, LocalTriple};

verus! {

/// Whether `id` has an edge record in `b`: triple ids index the triple
/// records, other ids the node records.
pub open spec fn edges_slot_ok(node_edges: Seq<Edges>, triple_edges: Seq<Edges>, id: u64) -> bool {
    if spec_is_triple_id(id) {
        spec_triple_index(id) < triple_edges.len()
    } else {
        id < node_edges.len()
    }
}

/// The edge record of `id` in `b`.
pub open spec fn edges_at(node_edges: Seq<Edges>, triple_edges: Seq<Edges>, id: u64) -> Edges {
    if spec_is_triple_id(id) {
        triple_edges[spec_triple_index(id)]
    } else {
        node_edges[id as int]
    }
}

/// The designations of `context` in `b` (empty where there are none).
pub open spec fn designation_of(designators: Map<u64, Map<Seq<char>, (u64, u64)>>, context: u64) -> Map<Seq<char>, (u64, u64)> {
    if designators.contains_key(context) {
        designators[context]
    } else {
        Map::empty()
    }
}

/// Index of the triple record that `id` names, ignoring the triple bit.
pub open spec fn record_index(id: u64) -> int {
    if spec_is_triple_id(id) {
        spec_triple_index(id)
    } else {
        id as int
    }
}

pub trait MemBackend: Sized {
    spec fn nodes(&self) -> Seq<Node>;

    spec fn triples(&self) -> Seq<Triple>;

    spec fn node_edges(&self) -> Seq<Edges>;

    spec fn triple_edges(&self) -> Seq<Edges>;

    /// Designators, by the id of their context node.
    spec fn designators(&self) -> Map<u64, Map<Seq<char>, (u64, u64)>>;

    /// Invariant of the storage itself.
    spec fn inv(&self) -> bool;

    fn new() -> (res: Self)
        ensures
            res.inv(),
            res.nodes().len() == 0,
            res.triples().len() == 0,
            res.node_edges().len() == 0,
            res.triple_edges().len() == 0,
            res.designators().dom().is_empty(),
    ;

    fn edges(&self, node: LocalNode) -> (res: &Edges)
        requires
            self.inv(),
            edges_slot_ok(self.node_edges(), self.triple_edges(), node.0),
        ensures
            *res == edges_at(self.node_edges(), self.triple_edges(), node.0),
    ;

    fn edges_mut(&mut self, node: LocalNode) -> (res: &mut Edges)
        requires
            old(self).inv(),
            edges_slot_ok(old(self).node_edges(), old(self).triple_edges(), node.0),
        ensures
            *res == edges_at(old(self).node_edges(), old(self).triple_edges(), node.0),
            final(self).inv(),
            final(self).nodes() == old(self).nodes(),
            final(self).triples() == old(self).triples(),
            final(self).designators() == old(self).designators(),
            spec_is_triple_id(node.0) ==> final(self).node_edges() == old(self).node_edges()
                && final(self).triple_edges() == old(self).triple_edges().update(
                spec_triple_index(node.0),
                *final(res),
            ),
            !spec_is_triple_id(node.0) ==> final(self).triple_edges() == old(self).triple_edges()
                && final(self).node_edges() == old(self).node_edges().update(
                node.0 as int,
                *final(res),
            ),
    ;

    fn node_unchecked(&self, node: LocalNode) -> (res: &Node)
        requires
            self.inv(),
            node.0 < self.nodes().len(),
        ensures
            *res == self.nodes()[node.0 as int],
    ;

    fn node_mut_unchecked(&mut self, node: LocalNode) -> (res: &mut Node)
        requires
            old(self).inv(),
            node.0 < old(self).nodes().len(),
        ensures
            *res == old(self).nodes()[node.0 as int],
            final(self).inv(),
            final(self).nodes() == old(self).nodes().update(node.0 as int, *final(res)),
            final(self).triples() == old(self).triples(),
            final(self).node_edges() == old(self).node_edges(),
            final(self).triple_edges() == old(self).triple_edges(),
            final(self).designators() == old(self).designators(),
    ;

    fn triple_unchecked(&self, triple: LocalNode) -> (res: &Triple)
        requires
            self.inv(),
            0 <= record_index(triple.0) < self.triples().len(),
        ensures
            *res == self.triples()[record_index(triple.0)],
    ;

    fn push_node(&mut self, node: Node)
        requires
            old(self).inv(),
        ensures
            final(self).inv(),
            final(self).nodes() == old(self).nodes().push(node),
            final(self).triples() == old(self).triples(),
            final(self).node_edges() == old(self).node_edges(),
            final(self).triple_edges() == old(self).triple_edges(),
            final(self).designators() == old(self).designators(),
    ;

    fn push_triple(&mut self, triple: Triple)
        requires
            old(self).inv(),
        ensures
            final(self).inv(),
            final(self).nodes() == old(self).nodes(),
            final(self).triples() == old(self).triples().push(triple),
            final(self).node_edges() == old(self).node_edges(),
            final(self).triple_edges() == old(self).triple_edges(),
            final(self).designators() == old(self).designators(),
    ;

    fn push_node_edges(&mut self, edges: Edges)
        requires
            old(self).inv(),
        ensures
            final(self).inv(),
            final(self).nodes() == old(self).nodes(),
            final(self).triples() == old(self).triples(),
            final(self).node_edges() == old(self).node_edges().push(edges),
            final(self).triple_edges() == old(self).triple_edges(),
            final(self).designators() == old(self).designators(),
    ;

    fn push_triple_edges(&mut self, edges: Edges)
        requires
            old(self).inv(),
        ensures
            final(self).inv(),
            final(self).nodes() == old(self).nodes(),
            final(self).triples() == old(self).triples(),
            final(self).node_edges() == old(self).node_edges(),
            final(self).triple_edges() == old(self).triple_edges().push(edges),
            final(self).designators() == old(self).designators(),
    ;

    fn node_count(&self) -> (res: usize)
        requires
            self.inv(),
        ensures
            res == self.nodes().len(),
    ;

    fn triple_count(&self) -> (res: usize)
        requires
            self.inv(),
        ensures
            res == self.triples().len(),
    ;

    /// The designator of a context, if it has one.
    fn designator(&self, context: LocalNode) -> (res: Option<&Designator>)
        requires
            self.inv(),
        ensures
            res is Some <==> self.designators().contains_key(context.0),
            res matches Some(d) ==> designator_contents(*d) == self.designators()[context.0],
    ;

    /// The designator of a context, created empty where it has none.
    fn designator_mut(&mut self, context: LocalNode) -> (res: &mut Designator)
        requires
            old(self).inv(),
        ensures
            designator_contents(*res) == designation_of(old(self).designators(), context.0),
            final(self).inv(),
            final(self).nodes() == old(self).nodes(),
            final(self).triples() == old(self).triples(),
            final(self).node_edges() == old(self).node_edges(),
            final(self).triple_edges() == old(self).triple_edges(),
            final(self).designators() == old(self).designators().insert(
                context.0,
                designator_contents(*final(res)),
            ),
    ;

    /// The id the next inserted node will get.
    fn next_node_id(&self) -> (res: LocalNode)
        requires
            self.inv(),
            self.nodes().len() < triple_bit(),
        ensures
            res.0 == self.nodes().len(),
    {
        let num: LocalId = self.node_count() as LocalId;
        LocalNode::new(num)
    }

    /// The id the next inserted triple will get.
    fn next_triple_id(&self) -> (res: LocalTriple)
        requires
            self.inv(),
            self.triples().len() < triple_bit(),
        ensures
            res.0.0 == self.triples().len() + triple_bit(),
            spec_is_triple_id(res.0.0),
            spec_triple_index(res.0.0) == self.triples().len(),
    {
        index_to_triple_id(self.triple_count())
    }
}

} // verus!
