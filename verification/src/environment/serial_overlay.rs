//! Environment overlay that forwards every operation to the environment it
//! holds, for the first environment abstraction.

use vstd::prelude::*;

use crate::env::environment::EnvModel;
use crate::env::local_node::{LocalNode, LocalTriple};
use crate::environment::environment::{Environment, NodeSet, TripleSet};
use crate::sexp::Sexp;

verus! {

pub struct SerialOverlay<T: Environment> {
    base: T,
}

impl<T: Environment> SerialOverlay<T> {
    pub fn new(base: T) -> (res: Self)
        ensures
            res.model() == base.model(),
            res.wf() == base.wf(),
    {
        Self { base }
    }

    fn base(&self) -> (res: &T)
        ensures
            res.model() == self.model(),
            res.wf() == self.wf(),
    {
        &self.base
    }
}

impl<T: Environment> Environment for SerialOverlay<T> {
    closed spec fn model(&self) -> EnvModel {
        self.base.model()
    }

    closed spec fn wf(&self) -> bool {
        self.base.wf()
    }

    proof fn lemma_wf_bounds(&self) {
        self.base.lemma_wf_bounds();
    }

    fn all_nodes(&self) -> (res: NodeSet) {
        self.base().all_nodes()
    }

    fn insert_atom(&mut self) -> (res: LocalNode) {
        self.base.insert_atom()
    }

    fn insert_structure(&mut self, structure: Sexp) -> (res: LocalNode) {
        self.base.insert_structure(structure)
    }

    fn insert_triple(&mut self, subject: LocalNode, predicate: LocalNode, object: LocalNode) -> (res:
        LocalTriple) {
        self.base.insert_triple(subject, predicate, object)
    }

    fn match_subject(&self, subject: LocalNode) -> (res: TripleSet) {
        self.base().match_subject(subject)
    }

    fn match_predicate(&self, predicate: LocalNode) -> (res: TripleSet) {
        self.base().match_predicate(predicate)
    }

    fn match_object(&self, object: LocalNode) -> (res: TripleSet) {
        self.base().match_object(object)
    }

    fn match_but_subject(&self, predicate: LocalNode, object: LocalNode) -> (res: TripleSet) {
        self.base().match_but_subject(predicate, object)
    }

    fn match_but_predicate(&self, subject: LocalNode, object: LocalNode) -> (res: TripleSet) {
        self.base().match_but_predicate(subject, object)
    }

    fn match_but_object(&self, subject: LocalNode, predicate: LocalNode) -> (res: TripleSet) {
        self.base().match_but_object(subject, predicate)
    }

    fn match_triple(&self, subject: LocalNode, predicate: LocalNode, object: LocalNode) -> (res:
        Option<LocalTriple>) {
        self.base().match_triple(subject, predicate, object)
    }

    fn match_all(&self) -> (res: TripleSet) {
        self.base().match_all()
    }

    fn node_structure(&self, node: LocalNode) -> (res: Option<&Sexp>) {
        self.base.node_structure(node)
    }

    fn node_as_triple(&self, node: LocalNode) -> (res: Option<LocalTriple>) {
        self.base().node_as_triple(node)
    }

    fn triple_subject(&self, triple: LocalTriple) -> (res: LocalNode) {
        self.base().triple_subject(triple)
    }

    fn triple_predicate(&self, triple: LocalTriple) -> (res: LocalNode) {
        self.base().triple_predicate(triple)
    }

    fn triple_object(&self, triple: LocalTriple) -> (res: LocalNode) {
        self.base().triple_object(triple)
    }

    fn triple_index(&self, triple: LocalTriple) -> (res: usize) {
        self.base().triple_index(triple)
    }

    fn triple_from_index(&self, index: usize) -> (res: LocalTriple) {
        self.base().triple_from_index(index)
    }
}

} // verus!
