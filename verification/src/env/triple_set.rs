//! Sets of triples of one environment.

use vstd::prelude::*;

use crate::env::environment::Environment;
use crate::env::local_node::{LocalNode, LocalTriple};
use crate::env::triple_ids::TripleIds;

verus! {

/// A set of triples, ordered by id, together with the environment they
/// belong to.
pub struct TripleSet<'a, E> {
    pub elements: TripleIds,
    pub env: &'a E,
}

impl<'a, E> View for TripleSet<'a, E> {
    type V = Set<LocalTriple>;

    open spec fn view(&self) -> Set<LocalTriple> {
        self.elements@
    }
}

impl<'a, E> TripleSet<'a, E> {
    pub fn new(env: &'a E, elements: TripleIds) -> (res: Self)
        ensures
            res.env == env,
            res.elements == elements,
    {
        Self { elements, env }
    }

    pub fn from_option(env: &'a E, option: Option<LocalTriple>) -> (res: Self)
        ensures
            res.env == env,
            res.elements.wf(),
            option is None ==> res@ == Set::<LocalTriple>::empty(),
            option matches Some(t) ==> res@ == Set::<LocalTriple>::empty().insert(t),
    {
        Self { elements: TripleIds::from_option(option), env }
    }

    pub fn len(&self) -> (res: usize)
        requires
            self.elements.wf(),
        ensures
            res == self@.len(),
    {
        self.elements.len()
    }

    /// The triples in increasing order of id.
    pub fn triples(self) -> (res: Vec<LocalTriple>)
        requires
            self.elements.wf(),
        ensures
            res@.to_set() == self@,
            res@.no_duplicates(),
            forall|i: int, j: int| 0 <= i < j < res@.len() ==> res@[i].0.0 < res@[j].0.0,
    {
        proof {
            crate::env::triple_ids::lemma_increasing_len(self.elements.ids@);
        }
        self.elements.ids
    }

}

impl<'a, E: Environment> TripleSet<'a, E> {
    /// Every element is a triple of the environment.
    pub open spec fn wf(&self) -> bool {
        &&& self.elements.wf()
        &&& self.env.wf()
        &&& forall|t: LocalTriple| #[trigger] self.elements@.contains(t) ==> self.env.model().is_triple(t)
    }

    /// The subjects of the triples, in increasing order of triple id.
    pub fn subjects(&self) -> (res: Vec<LocalNode>)
        requires
            self.wf(),
        ensures
            res@.len() == self.elements.ids@.len(),
            forall|i: int|
                0 <= i < res@.len() ==> res@[i] == self.env.model().subject_of(
                    self.elements.ids@[i],
                ),
    {
        let n = self.elements.ids.len();
        let mut out: Vec<LocalNode> = Vec::new();
        let mut i: usize = 0;
        while i < n
            invariant
                self.wf(),
                n == self.elements.ids@.len(),
                i <= n,
                out@.len() == i,
                forall|k: int|
                    0 <= k < i ==> out@[k] == self.env.model().subject_of(self.elements.ids@[k]),
            decreases n - i,
        {
            let t = self.elements.ids[i];
            assert(self.elements@.contains(t));
            out.push(self.env.triple_subject(t));
            i = i + 1;
        }
        out
    }

    /// The predicates of the triples, in increasing order of triple id.
    pub fn predicates(&self) -> (res: Vec<LocalNode>)
        requires
            self.wf(),
        ensures
            res@.len() == self.elements.ids@.len(),
            forall|i: int|
                0 <= i < res@.len() ==> res@[i] == self.env.model().predicate_of(
                    self.elements.ids@[i],
                ),
    {
        let n = self.elements.ids.len();
        let mut out: Vec<LocalNode> = Vec::new();
        let mut i: usize = 0;
        while i < n
            invariant
                self.wf(),
                n == self.elements.ids@.len(),
                i <= n,
                out@.len() == i,
                forall|k: int|
                    0 <= k < i ==> out@[k] == self.env.model().predicate_of(self.elements.ids@[k]),
            decreases n - i,
        {
            let t = self.elements.ids[i];
            assert(self.elements@.contains(t));
            out.push(self.env.triple_predicate(t));
            i = i + 1;
        }
        out
    }

    /// The objects of the triples, in increasing order of triple id.
    pub fn objects(&self) -> (res: Vec<LocalNode>)
        requires
            self.wf(),
        ensures
            res@.len() == self.elements.ids@.len(),
            forall|i: int|
                0 <= i < res@.len() ==> res@[i] == self.env.model().object_of(
                    self.elements.ids@[i],
                ),
    {
        let n = self.elements.ids.len();
        let mut out: Vec<LocalNode> = Vec::new();
        let mut i: usize = 0;
        while i < n
            invariant
                self.wf(),
                n == self.elements.ids@.len(),
                i <= n,
                out@.len() == i,
                forall|k: int|
                    0 <= k < i ==> out@[k] == self.env.model().object_of(self.elements.ids@[k]),
            decreases n - i,
        {
            let t = self.elements.ids[i];
            assert(self.elements@.contains(t));
            out.push(self.env.triple_object(t));
            i = i + 1;
        }
        out
    }

    /// The union of two sets of triples, as triples of this set's
    /// environment; the two environments must agree on whether they hold a
    /// first node.
    pub fn union(&self, other: &TripleSet<'_, E>) -> (res: TripleSet<'a, E>)
        requires
            self.wf(),
            other.wf(),
            (self.env.model().nodes.len() == 0) == (other.env.model().nodes.len() == 0),
        ensures
            res.elements.wf(),
            res.env == self.env,
            res@ == self@.union(other@),
            (forall|t: LocalTriple| #[trigger] other@.contains(t) ==> self.env.model().is_triple(t))
                ==> res.wf(),
    {
        let res = Self { elements: self.elements.union(&other.elements), env: self.env };
        proof {
            if forall|t: LocalTriple| #[trigger] other@.contains(t) ==> self.env.model().is_triple(t) {
                assert forall|t: LocalTriple| #[trigger] res.elements@.contains(t) implies res.env.model().is_triple(t) by {
                    if !self@.contains(t) {
                        assert(other@.contains(t));
                    }
                }
            }
        }
        res
    }
}

} // verus!
