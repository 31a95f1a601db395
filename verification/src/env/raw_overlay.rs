//! Environment overlay that forwards every operation to the environment it
//! holds.
//!
//! Agents that share an environment hierarchy hold it through an overlay;
//! this overlay owns its base, so every access goes through it.

use vstd::prelude::*;

use crate::env::entry::{Entry, EntryMut};
use crate::env::environment::{EnvModel, Environment};
use crate::env::local_node::{LocalNode, LocalTriple};
use crate::env::triple_set::TripleSet;
use crate::primitive::{Node, Symbol};
use crate::sexp::Sexp;

verus! {

pub struct RawOverlay<T: Environment> {
    base: T,
}

impl<T: Environment> RawOverlay<T> {
    pub fn new(base: T) -> (res: Self)
        ensures
            res.model() == base.model(),
            res.wf() == base.wf(),
    {
        Self { base }
    }

    /// The environment this overlay forwards to.
    pub closed spec fn spec_base(&self) -> T {
        self.base
    }

    fn base(&self) -> (res: &T)
        ensures
            *res == self.spec_base(),
    {
        &self.base
    }
}

impl<T: Environment> Environment for RawOverlay<T> {
    closed spec fn model(&self) -> EnvModel {
        self.base.model()
    }

    closed spec fn wf(&self) -> bool {
        self.base.wf()
    }

    proof fn lemma_wf_bounds(&self) {
        self.base.lemma_wf_bounds();
    }

    fn type_label(&self) -> (res: &'static str)
        ensures
            res@ == "RawOverlay"@,
    {
        "RawOverlay"
    }

    fn all_nodes(&self) -> (res: Vec<LocalNode>) {
        self.base().all_nodes()
    }

    fn insert_node(&mut self, structure: Option<Sexp>) -> (res: LocalNode) {
        self.base.insert_node(structure)
    }

    fn insert_triple(&mut self, subject: LocalNode, predicate: LocalNode, object: LocalNode) -> (res:
        LocalTriple) {
        self.base.insert_triple(subject, predicate, object)
    }

    fn insert_designation(&mut self, node: Node, designation: Symbol, context: LocalNode) {
        self.base.insert_designation(node, designation, context)
    }

    fn match_designation(&self, designation: &Symbol, context: LocalNode) -> (res: Option<Node>) {
        self.base().match_designation(designation, context)
    }

    fn find_designation(&self, node: Node, context: LocalNode) -> (res: Option<Symbol>) {
        self.base().find_designation(node, context)
    }

    fn designation_pairs(&self, context: LocalNode) -> (res: Vec<(Symbol, Node)>) {
        self.base().designation_pairs(context)
    }

    fn match_subject(&self, subject: LocalNode) -> (res: TripleSet<'_, Self>) {
        let inner = self.base().match_subject(subject);
        TripleSet::new(self, inner.elements)
    }

    fn match_predicate(&self, predicate: LocalNode) -> (res: TripleSet<'_, Self>) {
        let inner = self.base().match_predicate(predicate);
        TripleSet::new(self, inner.elements)
    }

    fn match_object(&self, object: LocalNode) -> (res: TripleSet<'_, Self>) {
        let inner = self.base().match_object(object);
        TripleSet::new(self, inner.elements)
    }

    fn match_but_subject(&self, predicate: LocalNode, object: LocalNode) -> (res: TripleSet<
        '_,
        Self,
    >) {
        let inner = self.base().match_but_subject(predicate, object);
        TripleSet::new(self, inner.elements)
    }

    fn match_but_predicate(&self, subject: LocalNode, object: LocalNode) -> (res: TripleSet<
        '_,
        Self,
    >) {
        let inner = self.base().match_but_predicate(subject, object);
        TripleSet::new(self, inner.elements)
    }

    fn match_but_object(&self, subject: LocalNode, predicate: LocalNode) -> (res: TripleSet<
        '_,
        Self,
    >) {
        let inner = self.base().match_but_object(subject, predicate);
        TripleSet::new(self, inner.elements)
    }

    fn match_triple(&self, subject: LocalNode, predicate: LocalNode, object: LocalNode) -> (res:
        TripleSet<'_, Self>) {
        let inner = self.base().match_triple(subject, predicate, object);
        TripleSet::new(self, inner.elements)
    }

    fn match_all(&self) -> (res: TripleSet<'_, Self>) {
        let inner = self.base().match_all();
        TripleSet::new(self, inner.elements)
    }

    fn entry(&self, node: LocalNode) -> (res: Entry<'_>) {
        self.base().entry(node)
    }

    fn entry_mut(&mut self, node: LocalNode) -> (res: EntryMut) {
        self.base.entry_mut(node)
    }

    fn entry_update(&mut self, entry: EntryMut) -> (res: LocalNode) {
        self.base.entry_update(entry)
    }

    fn node_as_triple(&self, node: LocalNode) -> (res: Option<LocalTriple>) {
        self.base().node_as_triple(node)
    }

    fn triple_subject(&self, triple: LocalTriple) -> (res: LocalNode) {
        self.base().triple_subject(triple)
    }

    fn triple_predicate(&self, triple: LocalTriple) -> (res: LocalNode) {
        self.base().triple_predicate(triple)
    }

    fn triple_object(&self, triple: LocalTriple) -> (res: LocalNode) {
        self.base().triple_object(triple)
    }

    fn triple_index(&self, triple: LocalTriple) -> (res: usize) {
        self.base().triple_index(triple)
    }

    fn triple_from_index(&self, index: usize) -> (res: LocalTriple) {
        self.base().triple_from_index(index)
    }
}

} // verus!
