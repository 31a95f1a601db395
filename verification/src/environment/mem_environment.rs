//! Implementation of the first environment abstraction over an in-memory
//! environment.

use vstd::prelude::*;

use crate::agent::env_state::{lemma_min_unique, first_triple};
use crate::env::environment::{triple_at, EnvModel, Environment as StoreEnvironment};
use crate::env::local_node::{LocalNode, LocalTriple};
use crate::env::mem_backend::index_id_conv::{spec_is_triple_id, triple_bit};
use crate::env::mem_backend::SimpleBackend;
use crate::env::mem_env::MemEnv;
use crate::environment::environment::{Environment, NodeSet, TripleSet};
use crate::sexp::Sexp;

verus! {

#[derive(Debug)]
pub struct MemEnvironment {
    env: MemEnv<SimpleBackend>,
}

impl MemEnvironment {
    pub fn new() -> (res: Self)
        ensures
            res.wf(),
            res.model() == EnvModel::empty(),
    {
        Self { env: MemEnv::new() }
    }
}

/// A copy of an environment is a new, empty environment.
impl Clone for MemEnvironment {
    fn clone(&self) -> (res: Self)
        ensures
            res.wf(),
            res.model() == EnvModel::empty(),
    {
        MemEnvironment::new()
    }
}

impl Environment for MemEnvironment {
    closed spec fn model(&self) -> EnvModel {
        self.env.model()
    }

    closed spec fn wf(&self) -> bool {
        self.env.wf()
    }

    proof fn lemma_wf_bounds(&self) {
        self.env.lemma_wf_bounds();
    }

    fn all_nodes(&self) -> (res: NodeSet) {
        self.env.all_nodes()
    }

    fn insert_atom(&mut self) -> (res: LocalNode) {
        self.env.insert_node(None)
    }

    fn insert_structure(&mut self, structure: Sexp) -> (res: LocalNode) {
        self.env.insert_node(Some(structure))
    }

    fn insert_triple(&mut self, subject: LocalNode, predicate: LocalNode, object: LocalNode) -> (res:
        LocalTriple) {
        self.env.insert_triple(subject, predicate, object)
    }

    fn match_subject(&self, subject: LocalNode) -> (res: TripleSet) {
        self.env.match_subject(subject).elements
    }

    fn match_predicate(&self, predicate: LocalNode) -> (res: TripleSet) {
        self.env.match_predicate(predicate).elements
    }

    fn match_object(&self, object: LocalNode) -> (res: TripleSet) {
        self.env.match_object(object).elements
    }

    fn match_but_subject(&self, predicate: LocalNode, object: LocalNode) -> (res: TripleSet) {
        self.env.match_but_subject(predicate, object).elements
    }

    fn match_but_predicate(&self, subject: LocalNode, object: LocalNode) -> (res: TripleSet) {
        self.env.match_but_predicate(subject, object).elements
    }

    fn match_but_object(&self, subject: LocalNode, predicate: LocalNode) -> (res: TripleSet) {
        self.env.match_but_object(subject, predicate).elements
    }

    fn match_triple(&self, subject: LocalNode, predicate: LocalNode, object: LocalNode) -> (res:
        Option<LocalTriple>) {
        let found = self.env.match_triple(subject, predicate, object);
        if found.elements.ids.len() == 0 {
            proof {
                assert(found.elements@ =~= Set::<LocalTriple>::empty());
            }
            None
        } else {
            let t = found.elements.ids[0];
            proof {
                let all = self.model().matching(subject, predicate, object);
                assert(found.elements@.contains(t));
                assert forall|u: LocalTriple| all.contains(u) implies t.0.0 <= u.0.0 by {}
                lemma_min_unique(all, t);
            }
            Some(t)
        }
    }

    fn match_all(&self) -> (res: TripleSet) {
        self.env.match_all().elements
    }

    fn node_structure(&self, node: LocalNode) -> (res: Option<&Sexp>) {
        self.env.node_structure(node)
    }

    fn node_as_triple(&self, node: LocalNode) -> (res: Option<LocalTriple>) {
        self.env.node_as_triple(node)
    }

    fn triple_subject(&self, triple: LocalTriple) -> (res: LocalNode) {
        self.env.triple_subject(triple)
    }

    fn triple_predicate(&self, triple: LocalTriple) -> (res: LocalNode) {
        self.env.triple_predicate(triple)
    }

    fn triple_object(&self, triple: LocalTriple) -> (res: LocalNode) {
        self.env.triple_object(triple)
    }

    fn triple_index(&self, triple: LocalTriple) -> (res: usize) {
        self.env.triple_index(triple)
    }

    fn triple_from_index(&self, index: usize) -> (res: LocalTriple) {
        self.env.triple_from_index(index)
    }
}

} // verus!
