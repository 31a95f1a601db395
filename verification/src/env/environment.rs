//! Environment abstraction: a triple store of nodes, which can be atoms,
//! structures, or triples, together with per-context designations.

use vstd::prelude::*;

use crate::env::entry::{Entry, EntryMut};
use crate::env::local_node::{LocalNode, LocalTriple};
use crate::env::mem_backend::designator::{bimap_insert, injective};
use crate::env::mem_backend::index_id_conv::{spec_is_triple_id, spec_triple_index, triple_bit};
use crate::env::triple_set::TripleSet;
use crate::primitive::{Node, Symbol};
use crate::sexp::Sexp;

verus! {

/// Mathematical model of an environment.
pub struct EnvModel {
    /// Structures of the (non-triple) nodes, by id; None for atoms.
    pub nodes: Seq<Option<Sexp>>,
    /// Subject, predicate and object of each triple, by triple index.
    pub triples: Seq<(LocalNode, LocalNode, LocalNode)>,
    /// Designations (name to node key) by the id of their context node.
    pub designations: Map<u64, Map<Seq<char>, (u64, u64)>>,
}

/// The triple with the given index.
pub open spec fn triple_at(index: int) -> LocalTriple {
    LocalTriple(LocalNode((index + triple_bit()) as u64))
}

/// The designator key of a node: its environment id and its local id.
pub open spec fn node_key(node: Node) -> (u64, u64) {
    (node.env.0, node.local.0)
}

/// The node that a designator key stands for.
pub open spec fn key_node(key: (u64, u64)) -> Node {
    Node { env: LocalNode(key.0), local: LocalNode(key.1) }
}

/// Index of the triple record that an id names, ignoring the triple bit.
pub open spec fn slot(id: u64) -> int {
    if spec_is_triple_id(id) {
        spec_triple_index(id)
    } else {
        id as int
    }
}

impl EnvModel {
    /// The model of an environment without nodes, triples or designations.
    pub open spec fn empty() -> EnvModel {
        EnvModel {
            nodes: Seq::empty(),
            triples: Seq::empty(),
            designations: Map::empty(),
        }
    }

    /// Whether `t` names a triple of the environment.
    pub open spec fn is_triple(self, t: LocalTriple) -> bool {
        spec_is_triple_id(t.0.0) && spec_triple_index(t.0.0) < self.triples.len()
    }

    /// Whether `n` names a node (possibly a triple) of the environment.
    pub open spec fn valid_node(self, n: LocalNode) -> bool {
        if spec_is_triple_id(n.0) {
            spec_triple_index(n.0) < self.triples.len()
        } else {
            n.0 < self.nodes.len()
        }
    }

    pub open spec fn subject_of(self, t: LocalTriple) -> LocalNode {
        self.triples[slot(t.0.0)].0
    }

    pub open spec fn predicate_of(self, t: LocalTriple) -> LocalNode {
        self.triples[slot(t.0.0)].1
    }

    pub open spec fn object_of(self, t: LocalTriple) -> LocalNode {
        self.triples[slot(t.0.0)].2
    }

    /// All triples of the environment.
    pub open spec fn all_triples(self) -> Set<LocalTriple> {
        Set::new(|t: LocalTriple| self.is_triple(t))
    }

    /// The triples with the given subject.
    pub open spec fn with_subject(self, n: LocalNode) -> Set<LocalTriple> {
        Set::new(|t: LocalTriple| self.is_triple(t) && self.subject_of(t) == n)
    }

    /// The triples with the given predicate.
    pub open spec fn with_predicate(self, n: LocalNode) -> Set<LocalTriple> {
        Set::new(|t: LocalTriple| self.is_triple(t) && self.predicate_of(t) == n)
    }

    /// The triples with the given object.
    pub open spec fn with_object(self, n: LocalNode) -> Set<LocalTriple> {
        Set::new(|t: LocalTriple| self.is_triple(t) && self.object_of(t) == n)
    }

    /// The triples equal to (subject, predicate, object).
    pub open spec fn matching(self, s: LocalNode, p: LocalNode, o: LocalNode) -> Set<LocalTriple> {
        self.with_subject(s).intersect(self.with_predicate(p)).intersect(self.with_object(o))
    }

    /// The structure of a non-triple node.
    pub open spec fn structure_of(self, n: LocalNode) -> Option<Sexp> {
        self.nodes[n.0 as int]
    }

    /// The designations of a context (empty where it has none).
    pub open spec fn designation(self, context: u64) -> Map<Seq<char>, (u64, u64)> {
        if self.designations.contains_key(context) {
            self.designations[context]
        } else {
            Map::empty()
        }
    }

    /// Whether every designation is a bijection.
    pub open spec fn designations_injective(self) -> bool {
        forall|c: u64| #[trigger]
            self.designations.contains_key(c) ==> injective(self.designations[c])
    }

    /// The model after inserting a node.
    pub open spec fn with_node(self, structure: Option<Sexp>) -> EnvModel {
        EnvModel { nodes: self.nodes.push(structure), ..self }
    }

    /// The model after inserting a triple.
    pub open spec fn with_triple(self, s: LocalNode, p: LocalNode, o: LocalNode) -> EnvModel {
        EnvModel { triples: self.triples.push((s, p, o)), ..self }
    }

    /// The model after setting the structure of a node.
    pub open spec fn with_structure(self, n: LocalNode, structure: Option<Sexp>) -> EnvModel {
        EnvModel { nodes: self.nodes.update(n.0 as int, structure), ..self }
    }

    /// The model after designating `node` by `name` in `context`.
    pub open spec fn with_designation(self, context: u64, name: Seq<char>, node: (u64, u64)) -> EnvModel {
        EnvModel {
            designations: self.designations.insert(
                context,
                bimap_insert(self.designation(context), name, node),
            ),
            ..self
        }
    }
}

/// The triples of a model are as many as its triple records.
pub proof fn lemma_all_triples_len(m: EnvModel)
    requires
        m.triples.len() <= triple_bit(),
    ensures
        m.all_triples().finite(),
        m.all_triples().len() == m.triples.len(),
{
    let ids = Seq::new(m.triples.len(), |i: int| triple_at(i));
    assert forall|t: LocalTriple| #[trigger] m.all_triples().contains(t) <==> ids.contains(t) by {
        if m.is_triple(t) {
            let k = spec_triple_index(t.0.0);
            assert(ids[k] == t);
        }
        if ids.contains(t) {
            let k = choose|k: int| 0 <= k < ids.len() && ids[k] == t;
            assert(spec_is_triple_id(triple_at(k).0.0) && spec_triple_index(triple_at(k).0.0) == k);
        }
    }
    assert(m.all_triples() =~= ids.to_set());
    assert(ids.no_duplicates()) by {
        assert forall|i: int, j: int| 0 <= i < ids.len() && 0 <= j < ids.len() && i != j implies ids[i]
            != ids[j] by {
            assert(spec_triple_index(triple_at(i).0.0) == i);
            assert(spec_triple_index(triple_at(j).0.0) == j);
        }
    }
    ids.unique_seq_to_set();
}

/// Triple store of Nodes, which can be atoms, structures, or triples.
pub trait Environment: Sized {
    spec fn model(&self) -> EnvModel;

    spec fn wf(&self) -> bool;

    /// A well-formed environment has no more nodes, and no more triples,
    /// than ids can name.
    proof fn lemma_wf_bounds(&self)
        requires
            self.wf(),
        ensures
            self.model().nodes.len() <= triple_bit(),
            self.model().triples.len() <= triple_bit(),
            forall|i: int|
                0 <= i < self.model().triples.len() ==> self.model().valid_node(
                    (#[trigger] self.model().triples[i]).0,
                ) && self.model().valid_node(self.model().triples[i].1)
                    && self.model().valid_node(self.model().triples[i].2),
    ;

    /// A short name of the kind of environment.
    fn type_label(&self) -> &'static str;

    fn all_nodes(&self) -> (res: Vec<LocalNode>)
        requires
            self.wf(),
        ensures
            res@.len() == self.model().nodes.len(),
            forall|i: int| 0 <= i < res@.len() ==> (#[trigger] res@[i]).0 == i,
    ;

    fn insert_node(&mut self, structure: Option<Sexp>) -> (res: LocalNode)
        requires
            old(self).wf(),
            old(self).model().nodes.len() < triple_bit(),
        ensures
            final(self).wf(),
            res.0 == old(self).model().nodes.len(),
            final(self).model() == old(self).model().with_node(structure),
    ;

    fn insert_triple(&mut self, subject: LocalNode, predicate: LocalNode, object: LocalNode) -> (res:
        LocalTriple)
        requires
            old(self).wf(),
            old(self).model().valid_node(subject),
            old(self).model().valid_node(predicate),
            old(self).model().valid_node(object),
            old(self).model().triples.len() < triple_bit(),
        ensures
            final(self).wf(),
            res == triple_at(old(self).model().triples.len() as int),
            final(self).model() == old(self).model().with_triple(subject, predicate, object),
    ;

    fn insert_designation(&mut self, node: Node, designation: Symbol, context: LocalNode)
        requires
            old(self).wf(),
        ensures
            final(self).wf(),
            final(self).model() == old(self).model().with_designation(
                context.0,
                designation@,
                node_key(node),
            ),
    ;

    fn match_designation(&self, designation: &Symbol, context: LocalNode) -> (res: Option<Node>)
        requires
            self.wf(),
        ensures
            self.model().designation(context.0).contains_key(designation@) ==> res == Some(
                key_node(self.model().designation(context.0)[designation@]),
            ),
            !self.model().designation(context.0).contains_key(designation@) ==> res is None,
    ;

    fn find_designation(&self, node: Node, context: LocalNode) -> (res: Option<Symbol>)
        requires
            self.wf(),
        ensures
            res matches Some(s) ==> self.model().designation(context.0).contains_key(s@)
                && self.model().designation(context.0)[s@] == node_key(node),
            res is None ==> forall|k: Seq<char>| #[trigger]
                self.model().designation(context.0).contains_key(k) ==> self.model().designation(
                    context.0,
                )[k] != node_key(node),
    ;

    fn designation_pairs(&self, context: LocalNode) -> (res: Vec<(Symbol, Node)>)
        requires
            self.wf(),
        ensures
            forall|i: int|
                0 <= i < res@.len() ==> self.model().designation(context.0).contains_key(
                    (#[trigger] res@[i]).0@,
                ) && self.model().designation(context.0)[res@[i].0@] == node_key(res@[i].1),
            forall|k: Seq<char>| #[trigger]
                self.model().designation(context.0).contains_key(k) ==> exists|i: int|
                    0 <= i < res@.len() && (#[trigger] res@[i]).0@ == k,
            forall|i: int, j: int|
                0 <= i < j < res@.len() ==> (#[trigger] res@[i]).0@ != (#[trigger] res@[j]).0@,
    ;

    fn match_subject(&self, subject: LocalNode) -> (res: TripleSet<'_, Self>)
        requires
            self.wf(),
            self.model().valid_node(subject),
        ensures
            res.env == self,
            res.elements.wf(),
            res.elements@ == self.model().with_subject(subject),
    ;

    fn match_predicate(&self, predicate: LocalNode) -> (res: TripleSet<'_, Self>)
        requires
            self.wf(),
            self.model().valid_node(predicate),
        ensures
            res.env == self,
            res.elements.wf(),
            res.elements@ == self.model().with_predicate(predicate),
    ;

    fn match_object(&self, object: LocalNode) -> (res: TripleSet<'_, Self>)
        requires
            self.wf(),
            self.model().valid_node(object),
        ensures
            res.env == self,
            res.elements.wf(),
            res.elements@ == self.model().with_object(object),
    ;

    fn match_but_subject(&self, predicate: LocalNode, object: LocalNode) -> (res: TripleSet<
        '_,
        Self,
    >)
        requires
            self.wf(),
            self.model().valid_node(predicate),
            self.model().valid_node(object),
        ensures
            res.env == self,
            res.elements.wf(),
            res.elements@ == self.model().with_predicate(predicate).intersect(
                self.model().with_object(object),
            ),
    ;

    fn match_but_predicate(&self, subject: LocalNode, object: LocalNode) -> (res: TripleSet<
        '_,
        Self,
    >)
        requires
            self.wf(),
            self.model().valid_node(subject),
            self.model().valid_node(object),
        ensures
            res.env == self,
            res.elements.wf(),
            res.elements@ == self.model().with_subject(subject).intersect(
                self.model().with_object(object),
            ),
    ;

    fn match_but_object(&self, subject: LocalNode, predicate: LocalNode) -> (res: TripleSet<
        '_,
        Self,
    >)
        requires
            self.wf(),
            self.model().valid_node(subject),
            self.model().valid_node(predicate),
        ensures
            res.env == self,
            res.elements.wf(),
            res.elements@ == self.model().with_subject(subject).intersect(
                self.model().with_predicate(predicate),
            ),
    ;

    /// The first (lowest-id) triple equal to (subject, predicate, object), if
    /// there is one.
    fn match_triple(&self, subject: LocalNode, predicate: LocalNode, object: LocalNode) -> (res:
        TripleSet<'_, Self>)
        requires
            self.wf(),
            self.model().valid_node(subject),
            self.model().valid_node(predicate),
            self.model().valid_node(object),
        ensures
            res.env == self,
            res.elements.wf(),
            res.elements@.subset_of(self.model().matching(subject, predicate, object)),
            res.elements@.len() <= 1,
            self.model().matching(subject, predicate, object).is_empty()
                <==> res.elements@.is_empty(),
            forall|t: LocalTriple, u: LocalTriple|
                #![trigger res.elements@.contains(t), self.model().matching(subject, predicate, object).contains(u)]
                res.elements@.contains(t) && self.model().matching(
                    subject,
                    predicate,
                    object,
                ).contains(u) ==> t.0.0 <= u.0.0,
    ;

    fn match_all(&self) -> (res: TripleSet<'_, Self>)
        requires
            self.wf(),
        ensures
            res.env == self,
            res.elements.wf(),
            res.elements@ == self.model().all_triples(),
    ;

    /// The triples that `node` takes part in, in any role.
    fn match_any(&self, node: LocalNode) -> (res: TripleSet<'_, Self>)
        requires
            self.wf(),
            self.model().valid_node(node),
        ensures
            res.env == self,
            res.elements.wf(),
            res.elements@ == self.model().with_subject(node).union(
                self.model().with_predicate(node),
            ).union(self.model().with_object(node)),
    {
        let a = self.match_subject(node);
        let b = a.elements.union(&self.match_predicate(node).elements);
        let c = b.union(&self.match_object(node).elements);
        TripleSet { elements: c, env: self }
    }

    fn entry(&self, node: LocalNode) -> (res: Entry<'_>)
        requires
            self.wf(),
            spec_is_triple_id(node.0) || node.0 < self.model().nodes.len(),
        ensures
            spec_is_triple_id(node.0) ==> res.structure_option() is None,
            !spec_is_triple_id(node.0) ==> res.structure_option() == self.model().structure_of(
                node,
            ),
    ;

    fn entry_mut(&mut self, node: LocalNode) -> (res: EntryMut)
        requires
            old(self).wf(),
            !spec_is_triple_id(node.0),
            node.0 < old(self).model().nodes.len(),
        ensures
            final(self).wf(),
            final(self).model() == old(self).model(),
            res.spec_node() == node,
            res.structure_option() == old(self).model().structure_of(node),
    ;

    /// Stores the structure of a mutable entry back into its node.
    fn entry_update(&mut self, entry: EntryMut) -> (res: LocalNode)
        requires
            old(self).wf(),
            !spec_is_triple_id(entry.spec_node().0),
            entry.spec_node().0 < old(self).model().nodes.len(),
        ensures
            final(self).wf(),
            res == entry.spec_node(),
            final(self).model() == old(self).model().with_structure(
                entry.spec_node(),
                entry.structure_option(),
            ),
    ;

    fn node_as_triple(&self, node: LocalNode) -> (res: Option<LocalTriple>)
        ensures
            spec_is_triple_id(node.0) ==> res == Some(LocalTriple(node)),
            !spec_is_triple_id(node.0) ==> res is None,
    ;

    fn triple_subject(&self, triple: LocalTriple) -> (res: LocalNode)
        requires
            self.wf(),
            0 <= slot(triple.0.0) < self.model().triples.len(),
        ensures
            res == self.model().subject_of(triple),
    ;

    fn triple_predicate(&self, triple: LocalTriple) -> (res: LocalNode)
        requires
            self.wf(),
            0 <= slot(triple.0.0) < self.model().triples.len(),
        ensures
            res == self.model().predicate_of(triple),
    ;

    fn triple_object(&self, triple: LocalTriple) -> (res: LocalNode)
        requires
            self.wf(),
            0 <= slot(triple.0.0) < self.model().triples.len(),
        ensures
            res == self.model().object_of(triple),
    ;

    fn triple_index(&self, triple: LocalTriple) -> (res: usize)
        ensures
            res == (triple.0.0 & 0x7fff_ffff_ffff_ffffu64) as usize,
            spec_is_triple_id(triple.0.0) ==> res == (spec_triple_index(triple.0.0) as usize),
    ;

    fn triple_from_index(&self, index: usize) -> (res: LocalTriple)
        ensures
            res.0.0 == (index as u64) | 0x8000_0000_0000_0000u64,
            (index as u64) < triple_bit() ==> res == triple_at(index as int),
    ;
}

} // verus!
