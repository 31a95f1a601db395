//! The first form of the environment abstraction: nodes are inserted as
//! atoms or structures, and structures are read in place.

use vstd::prelude::*;

use crate::agent::env_state::first_triple;
use crate::env::environment::{slot, triple_at, EnvModel};
use crate::env::local_node::{LocalNode, LocalTriple};
use crate::env::mem_backend::index_id_conv::{spec_is_triple_id, spec_triple_index, triple_bit};
use crate::env::triple_ids::TripleIds;
use crate::sexp::Sexp;

verus! {

/// Nodes, in increasing order of id.
pub type NodeSet = Vec<LocalNode>;

/// Triples, in increasing order of id.
pub type TripleSet = TripleIds;

/// Triple store of Nodes, which can be atoms, structures, or triples.
pub trait Environment: Sized {
    spec fn model(&self) -> EnvModel;

    spec fn wf(&self) -> bool;

    /// A well-formed environment has no more nodes, and no more triples,
    /// than ids can name, and its triples join its nodes.
    proof fn lemma_wf_bounds(&self)
        requires
            self.wf(),
        ensures
            self.model().nodes.len() <= triple_bit(),
            self.model().triples.len() <= triple_bit(),
            forall|i: int|
                0 <= i < self.model().triples.len() ==> self.model().valid_node(
                    (#[trigger] self.model().triples[i]).0,
                ) && self.model().valid_node(self.model().triples[i].1)
                    && self.model().valid_node(self.model().triples[i].2),
    ;

    fn all_nodes(&self) -> (res: NodeSet)
        requires
            self.wf(),
        ensures
            res@.len() == self.model().nodes.len(),
            forall|i: int| 0 <= i < res@.len() ==> (#[trigger] res@[i]).0 == i,
    ;

    fn insert_atom(&mut self) -> (res: LocalNode)
        requires
            old(self).wf(),
            old(self).model().nodes.len() < triple_bit(),
        ensures
            final(self).wf(),
            res.0 == old(self).model().nodes.len(),
            final(self).model() == old(self).model().with_node(None),
    ;

    fn insert_structure(&mut self, structure: Sexp) -> (res: LocalNode)
        requires
            old(self).wf(),
            old(self).model().nodes.len() < triple_bit(),
        ensures
            final(self).wf(),
            res.0 == old(self).model().nodes.len(),
            final(self).model() == old(self).model().with_node(Some(structure)),
    ;

    fn insert_triple(&mut self, subject: LocalNode, predicate: LocalNode, object: LocalNode) -> (res:
        LocalTriple)
        requires
            old(self).wf(),
            old(self).model().valid_node(subject),
            old(self).model().valid_node(predicate),
            old(self).model().valid_node(object),
            old(self).model().triples.len() < triple_bit(),
        ensures
            final(self).wf(),
            res == triple_at(old(self).model().triples.len() as int),
            final(self).model() == old(self).model().with_triple(subject, predicate, object),
    ;

    /// The first triple equal to (subject, predicate, object), inserted
    /// where there is none.
    fn get_or_insert_triple(&mut self, subject: LocalNode, predicate: LocalNode, object: LocalNode) -> (res:
        LocalTriple)
        requires
            old(self).wf(),
            old(self).model().valid_node(subject),
            old(self).model().valid_node(predicate),
            old(self).model().valid_node(object),
            old(self).model().triples.len() < triple_bit(),
        ensures
            final(self).wf(),
            !old(self).model().matching(subject, predicate, object).is_empty() ==> res
                == first_triple(old(self).model().matching(subject, predicate, object))
                && final(self).model() == old(self).model(),
            old(self).model().matching(subject, predicate, object).is_empty() ==> res == triple_at(
                old(self).model().triples.len() as int,
            ) && final(self).model() == old(self).model().with_triple(subject, predicate, object),
    {
        match self.match_triple(subject, predicate, object) {
            Some(triple) => triple,
            None => self.insert_triple(subject, predicate, object),
        }
    }

    fn match_subject(&self, subject: LocalNode) -> (res: TripleSet)
        requires
            self.wf(),
            self.model().valid_node(subject),
        ensures
            res.wf(),
            res@ == self.model().with_subject(subject),
    ;

    fn match_predicate(&self, predicate: LocalNode) -> (res: TripleSet)
        requires
            self.wf(),
            self.model().valid_node(predicate),
        ensures
            res.wf(),
            res@ == self.model().with_predicate(predicate),
    ;

    fn match_object(&self, object: LocalNode) -> (res: TripleSet)
        requires
            self.wf(),
            self.model().valid_node(object),
        ensures
            res.wf(),
            res@ == self.model().with_object(object),
    ;

    fn match_but_subject(&self, predicate: LocalNode, object: LocalNode) -> (res: TripleSet)
        requires
            self.wf(),
            self.model().valid_node(predicate),
            self.model().valid_node(object),
        ensures
            res.wf(),
            res@ == self.model().with_predicate(predicate).intersect(
                self.model().with_object(object),
            ),
    ;

    fn match_but_predicate(&self, subject: LocalNode, object: LocalNode) -> (res: TripleSet)
        requires
            self.wf(),
            self.model().valid_node(subject),
            self.model().valid_node(object),
        ensures
            res.wf(),
            res@ == self.model().with_subject(subject).intersect(self.model().with_object(object)),
    ;

    fn match_but_object(&self, subject: LocalNode, predicate: LocalNode) -> (res: TripleSet)
        requires
            self.wf(),
            self.model().valid_node(subject),
            self.model().valid_node(predicate),
        ensures
            res.wf(),
            res@ == self.model().with_subject(subject).intersect(
                self.model().with_predicate(predicate),
            ),
    ;

    /// The first (lowest-id) triple equal to (subject, predicate, object).
    fn match_triple(&self, subject: LocalNode, predicate: LocalNode, object: LocalNode) -> (res:
        Option<LocalTriple>)
        requires
            self.wf(),
            self.model().valid_node(subject),
            self.model().valid_node(predicate),
            self.model().valid_node(object),
        ensures
            res is None <==> self.model().matching(subject, predicate, object).is_empty(),
            res matches Some(t) ==> t == first_triple(
                self.model().matching(subject, predicate, object),
            ),
    ;

    fn match_all(&self) -> (res: TripleSet)
        requires
            self.wf(),
        ensures
            res.wf(),
            res@ == self.model().all_triples(),
    ;

    /// The triples that `node` takes part in, in any role.
    fn match_any(&self, node: LocalNode) -> (res: TripleSet)
        requires
            self.wf(),
            self.model().valid_node(node),
        ensures
            res.wf(),
            res@ == self.model().with_subject(node).union(self.model().with_predicate(node)).union(
                self.model().with_object(node),
            ),
    {
        let triples = self.match_subject(node);
        let triples = triples.union(&self.match_predicate(node));
        triples.union(&self.match_object(node))
    }

    /// The structure of a node, where it has one; triples have none.
    fn node_structure(&self, node: LocalNode) -> (res: Option<&Sexp>)
        requires
            self.wf(),
            spec_is_triple_id(node.0) || node.0 < self.model().nodes.len(),
        ensures
            spec_is_triple_id(node.0) ==> res is None,
            !spec_is_triple_id(node.0) ==> (res is None <==> self.model().structure_of(node) is None),
            !spec_is_triple_id(node.0) ==> (res matches Some(s) ==> Some(*s)
                == self.model().structure_of(node)),
    ;

    fn node_as_triple(&self, node: LocalNode) -> (res: Option<LocalTriple>)
        ensures
            spec_is_triple_id(node.0) ==> res == Some(LocalTriple(node)),
            !spec_is_triple_id(node.0) ==> res is None,
    ;

    fn triple_subject(&self, triple: LocalTriple) -> (res: LocalNode)
        requires
            self.wf(),
            0 <= slot(triple.0.0) < self.model().triples.len(),
        ensures
            res == self.model().subject_of(triple),
    ;

    fn triple_predicate(&self, triple: LocalTriple) -> (res: LocalNode)
        requires
            self.wf(),
            0 <= slot(triple.0.0) < self.model().triples.len(),
        ensures
            res == self.model().predicate_of(triple),
    ;

    fn triple_object(&self, triple: LocalTriple) -> (res: LocalNode)
        requires
            self.wf(),
            0 <= slot(triple.0.0) < self.model().triples.len(),
        ensures
            res == self.model().object_of(triple),
    ;

    fn triple_index(&self, triple: LocalTriple) -> (res: usize)
        ensures
            res == (triple.0.0 & 0x7fff_ffff_ffff_ffffu64) as usize,
            spec_is_triple_id(triple.0.0) ==> res == (spec_triple_index(triple.0.0) as usize),
    ;

    fn triple_from_index(&self, index: usize) -> (res: LocalTriple)
        ensures
            res.0.0 == (index as u64) | 0x8000_0000_0000_0000u64,
            (index as u64) < triple_bit() ==> res == triple_at(index as int),
    ;
}

/// Environments that can be copied whole.
pub trait EnvClone: Sized {
    /// A copy of this environment, boxed.
    fn clone_box(&self) -> (res: Box<Self>);
}

impl<T: Environment + Clone> EnvClone for T {
    /// What `T`'s own `clone` gives for this environment.
    fn clone_box(&self) -> (res: Box<Self>)
        ensures
            cloned(*self, *res),
    {
        Box::new(self.clone())
    }
}

} // verus!
