//! Implementation of Environment based on an underlying MemBackend.

use vstd::prelude::*;

use crate::env::entry::{Entry, EntryKind, EntryMut, EntryMutKind, mut_kind_structure};
use crate::env::environment::{key_node, node_key, slot, triple_at, EnvModel, Environment};
use crate::env::local_node::{LocalId, LocalNode, LocalTriple};
use crate::env::mem_backend::designator::{
    designator_contents,
    designator_get_by_left,
    designator_get_by_right,
    designator_insert,
    designator_iter,
    injective,
    lemma_bimap_insert_injective,
};
use crate::env::mem_backend::index_id_conv::{
    index_to_triple_id,
    is_triple_id,
    lemma_triple_index_roundtrip,
    spec_is_triple_id,
    spec_triple_index,
    triple_bit,
    triple_index_unchecked,
};
use crate::env::mem_backend::mem_backend::{designation_of, edges_at, edges_slot_ok, record_index};
use crate::env::mem_backend::{Edges, MemBackend, Node, Triple};
use crate::env::triple_ids::TripleIds;
use crate::env::triple_set::TripleSet;
use crate::primitive::{Node as PrimitiveNode, Symbol};
use crate::sexp::{clone_sexp, Sexp};

verus! {

/// The environment model presented by backend contents.
pub open spec fn backend_model(
    nodes: Seq<Node>,
    triples: Seq<Triple>,
    designators: Map<u64, Map<Seq<char>, (u64, u64)>>,
) -> EnvModel {
    EnvModel {
        nodes: nodes.map_values(|n: Node| n.structure()),
        triples: triples.map_values(|t: Triple| (t.subject, t.predicate, t.object)),
        designations: designators,
    }
}

/// Every triple refers to nodes of the environment.
pub open spec fn triples_valid(m: EnvModel) -> bool {
    forall|i: int|
        0 <= i < m.triples.len() ==> m.valid_node((#[trigger] m.triples[i]).0) && m.valid_node(
            m.triples[i].1,
        ) && m.valid_node(m.triples[i].2)
}

/// The edge record of node `n` lists exactly the triples that `n` takes
/// part in, by role.
pub open spec fn edges_match(e: Edges, m: EnvModel, n: LocalNode) -> bool {
    &&& e.wf()
    &&& e.as_subject@ == m.with_subject(n)
    &&& e.as_predicate@ == m.with_predicate(n)
    &&& e.as_object@ == m.with_object(n)
}

/// Every edge record matches the triples.
pub open spec fn edges_consistent(ne: Seq<Edges>, te: Seq<Edges>, m: EnvModel) -> bool {
    &&& forall|i: int| 0 <= i < ne.len() ==> edges_match(#[trigger] ne[i], m, LocalNode(i as u64))
    &&& forall|i: int| 0 <= i < te.len() ==> edges_match(#[trigger] te[i], m, triple_at(i).0)
}

pub open spec fn extend(s: Set<LocalTriple>, cond: bool, t: LocalTriple) -> Set<LocalTriple> {
    if cond {
        s.insert(t)
    } else {
        s
    }
}

/// Edge record `new` is `old` with `t` added for the roles that the stages
/// up to `stage` (1: subject, 2: predicate, 3: object) have handled.
pub open spec fn edges_grown(
    old: Edges,
    new: Edges,
    id: u64,
    s: LocalNode,
    p: LocalNode,
    o: LocalNode,
    t: LocalTriple,
    stage: int,
) -> bool {
    &&& new.wf()
    &&& new.as_subject@ == extend(old.as_subject@, stage >= 1 && id == s.0, t)
    &&& new.as_predicate@ == extend(old.as_predicate@, stage >= 2 && id == p.0, t)
    &&& new.as_object@ == extend(old.as_object@, stage >= 3 && id == o.0, t)
}

pub open spec fn all_grown(
    ne0: Seq<Edges>,
    te0: Seq<Edges>,
    ne: Seq<Edges>,
    te: Seq<Edges>,
    s: LocalNode,
    p: LocalNode,
    o: LocalNode,
    t: LocalTriple,
    stage: int,
) -> bool {
    &&& ne.len() == ne0.len()
    &&& te.len() == te0.len()
    &&& forall|i: int|
        0 <= i < ne.len() ==> edges_grown(ne0[i], #[trigger] ne[i], i as u64, s, p, o, t, stage)
    &&& forall|i: int|
        0 <= i < te.len() ==> edges_grown(
            te0[i],
            #[trigger] te[i],
            triple_at(i).0.0,
            s,
            p,
            o,
            t,
            stage,
        )
}

pub proof fn lemma_triple_at(i: int)
    requires
        0 <= i < triple_bit(),
    ensures
        spec_is_triple_id(triple_at(i).0.0),
        spec_triple_index(triple_at(i).0.0) == i,
        slot(triple_at(i).0.0) == i,
{
}

/// The edge record at a valid slot matches the node of that slot.
pub proof fn lemma_edges_at(ne: Seq<Edges>, te: Seq<Edges>, m: EnvModel, n: LocalNode)
    requires
        edges_consistent(ne, te, m),
        edges_slot_ok(ne, te, n.0),
    ensures
        edges_match(edges_at(ne, te, n.0), m, n),
{
    if spec_is_triple_id(n.0) {
        let i = spec_triple_index(n.0);
        assert(triple_at(i).0 == n);
    }
}

/// One stage of adding triple `t`: the edge record of `node` gains `t` for
/// the role of this stage.
pub proof fn lemma_grow_step(
    ne0: Seq<Edges>,
    te0: Seq<Edges>,
    ne1: Seq<Edges>,
    te1: Seq<Edges>,
    ne2: Seq<Edges>,
    te2: Seq<Edges>,
    s: LocalNode,
    p: LocalNode,
    o: LocalNode,
    t: LocalTriple,
    stage: int,
    node: LocalNode,
    e: Edges,
)
    requires
        1 <= stage <= 3,
        ne0.len() <= triple_bit(),
        te0.len() <= triple_bit(),
        all_grown(ne0, te0, ne1, te1, s, p, o, t, stage - 1),
        edges_slot_ok(ne1, te1, node.0),
        node == (if stage == 1 {
            s
        } else if stage == 2 {
            p
        } else {
            o
        }),
        e.wf(),
        e.as_subject@ == extend(edges_at(ne1, te1, node.0).as_subject@, stage == 1, t),
        e.as_predicate@ == extend(edges_at(ne1, te1, node.0).as_predicate@, stage == 2, t),
        e.as_object@ == extend(edges_at(ne1, te1, node.0).as_object@, stage == 3, t),
        spec_is_triple_id(node.0) ==> ne2 == ne1 && te2 == te1.update(
            spec_triple_index(node.0),
            e,
        ),
        !spec_is_triple_id(node.0) ==> te2 == te1 && ne2 == ne1.update(node.0 as int, e),
    ensures
        all_grown(ne0, te0, ne2, te2, s, p, o, t, stage),
{
    assert forall|i: int| 0 <= i < ne2.len() implies edges_grown(
        ne0[i],
        #[trigger] ne2[i],
        i as u64,
        s,
        p,
        o,
        t,
        stage,
    ) by {
        assert(edges_grown(ne0[i], ne1[i], i as u64, s, p, o, t, stage - 1));
        assert(i as u64 == i);
        if !spec_is_triple_id(node.0) && i == node.0 {
            assert(ne1[i] == edges_at(ne1, te1, node.0));
            assert(ne2[i] == e);
        } else {
            assert(ne2[i] == ne1[i]);
            assert(i as u64 != node.0);
        }
    }
    assert forall|i: int| 0 <= i < te2.len() implies edges_grown(
        te0[i],
        #[trigger] te2[i],
        triple_at(i).0.0,
        s,
        p,
        o,
        t,
        stage,
    ) by {
        assert(edges_grown(te0[i], te1[i], triple_at(i).0.0, s, p, o, t, stage - 1));
        lemma_triple_at(i);
        if spec_is_triple_id(node.0) && i == spec_triple_index(node.0) {
            assert(te1[i] == edges_at(ne1, te1, node.0));
            assert(triple_at(i).0.0 == node.0);
            assert(te2[i] == e);
        } else {
            assert(te2[i] == te1[i]);
            assert(triple_at(i).0.0 != node.0);
        }
    }
}

/// After adding triple `t = (s, p, o)` to the records of its nodes and
/// giving it an empty record, the records match the new model.
pub proof fn lemma_insert_triple_consistent(
    ne0: Seq<Edges>,
    te0: Seq<Edges>,
    ne: Seq<Edges>,
    te: Seq<Edges>,
    m: EnvModel,
    s: LocalNode,
    p: LocalNode,
    o: LocalNode,
    empty: Edges,
)
    requires
        edges_consistent(ne0, te0, m),
        triples_valid(m),
        ne0.len() == m.nodes.len(),
        te0.len() == m.triples.len(),
        m.triples.len() < triple_bit(),
        m.nodes.len() <= triple_bit(),
        m.valid_node(s),
        m.valid_node(p),
        m.valid_node(o),
        all_grown(ne0, te0, ne, te, s, p, o, triple_at(m.triples.len() as int), 3),
        empty.wf(),
        empty.as_subject@.is_empty(),
        empty.as_predicate@.is_empty(),
        empty.as_object@.is_empty(),
    ensures
        edges_consistent(ne, te.push(empty), m.with_triple(s, p, o)),
        triples_valid(m.with_triple(s, p, o)),
{
    let n = m.triples.len() as int;
    let t = triple_at(n);
    let m2 = m.with_triple(s, p, o);
    lemma_triple_at(n);
    // Sets of the new model: the old sets, plus the new triple where it applies.
    assert forall|x: LocalNode| #[trigger] m2.with_subject(x) == extend(m.with_subject(x), x == s, t) by {
        assert forall|u: LocalTriple| m2.with_subject(x).contains(u) <==> extend(m.with_subject(x), x == s, t).contains(u) by {
            if m2.is_triple(u) && spec_triple_index(u.0.0) == n {
                assert(u == t);
            }
        }
        assert(m2.with_subject(x) =~= extend(m.with_subject(x), x == s, t));
    }
    assert forall|x: LocalNode| #[trigger] m2.with_predicate(x) == extend(m.with_predicate(x), x == p, t) by {
        assert forall|u: LocalTriple| m2.with_predicate(x).contains(u) <==> extend(m.with_predicate(x), x == p, t).contains(u) by {
            if m2.is_triple(u) && spec_triple_index(u.0.0) == n {
                assert(u == t);
            }
        }
        assert(m2.with_predicate(x) =~= extend(m.with_predicate(x), x == p, t));
    }
    assert forall|x: LocalNode| #[trigger] m2.with_object(x) == extend(m.with_object(x), x == o, t) by {
        assert forall|u: LocalTriple| m2.with_object(x).contains(u) <==> extend(m.with_object(x), x == o, t).contains(u) by {
            if m2.is_triple(u) && spec_triple_index(u.0.0) == n {
                assert(u == t);
            }
        }
        assert(m2.with_object(x) =~= extend(m.with_object(x), x == o, t));
    }
    let te2 = te.push(empty);
    assert forall|i: int| 0 <= i < ne.len() implies edges_match(#[trigger] ne[i], m2, LocalNode(i as u64)) by {
        assert(edges_grown(ne0[i], ne[i], i as u64, s, p, o, t, 3));
        assert(edges_match(ne0[i], m, LocalNode(i as u64)));
        let _ = m2.with_subject(LocalNode(i as u64));
        let _ = m2.with_predicate(LocalNode(i as u64));
        let _ = m2.with_object(LocalNode(i as u64));
    }
    assert forall|i: int| 0 <= i < te2.len() implies edges_match(#[trigger] te2[i], m2, triple_at(i).0) by {
        let x = triple_at(i).0;
        let _ = m2.with_subject(x);
        let _ = m2.with_predicate(x);
        let _ = m2.with_object(x);
        if i < n {
            assert(edges_grown(te0[i], te[i], triple_at(i).0.0, s, p, o, t, 3));
            assert(edges_match(te0[i], m, triple_at(i).0));
        } else {
            // No triple refers to the new triple.
            lemma_triple_at(i);
            assert(x != s && x != p && x != o);
            assert forall|u: LocalTriple| !m.with_subject(x).contains(u) by {
                if m.with_subject(x).contains(u) {
                    assert(m.triples[spec_triple_index(u.0.0)].0 == x);
                }
            }
            assert forall|u: LocalTriple| !m.with_predicate(x).contains(u) by {
                if m.with_predicate(x).contains(u) {
                    assert(m.triples[spec_triple_index(u.0.0)].1 == x);
                }
            }
            assert forall|u: LocalTriple| !m.with_object(x).contains(u) by {
                if m.with_object(x).contains(u) {
                    assert(m.triples[spec_triple_index(u.0.0)].2 == x);
                }
            }
            assert(m.with_subject(x) =~= Set::empty());
            assert(m.with_predicate(x) =~= Set::empty());
            assert(m.with_object(x) =~= Set::empty());
        }
    }
    assert forall|i: int| 0 <= i < m2.triples.len() implies m2.valid_node((#[trigger] m2.triples[i]).0)
        && m2.valid_node(m2.triples[i].1) && m2.valid_node(m2.triples[i].2) by {
        if i < n {
            assert(m.triples[i] == m2.triples[i]);
        }
    }
}

/// Inserting a node adds an edge record that matches nothing.
pub proof fn lemma_insert_node_consistent(
    ne: Seq<Edges>,
    te: Seq<Edges>,
    m: EnvModel,
    structure: Option<Sexp>,
    empty: Edges,
)
    requires
        edges_consistent(ne, te, m),
        triples_valid(m),
        ne.len() == m.nodes.len(),
        m.nodes.len() < triple_bit(),
        empty.wf(),
        empty.as_subject@.is_empty(),
        empty.as_predicate@.is_empty(),
        empty.as_object@.is_empty(),
    ensures
        edges_consistent(ne.push(empty), te, m.with_node(structure)),
        triples_valid(m.with_node(structure)),
{
    let m2 = m.with_node(structure);
    let n = m.nodes.len() as int;
    let x = LocalNode(n as u64);
    assert(m2.triples == m.triples);
    assert forall|y: LocalNode| m.valid_node(y) implies #[trigger] m2.valid_node(y) by {}
    assert forall|y: LocalNode| #[trigger] m2.with_subject(y) == m.with_subject(y) by {
        assert(m2.with_subject(y) =~= m.with_subject(y));
    }
    assert forall|y: LocalNode| #[trigger] m2.with_predicate(y) == m.with_predicate(y) by {
        assert(m2.with_predicate(y) =~= m.with_predicate(y));
    }
    assert forall|y: LocalNode| #[trigger] m2.with_object(y) == m.with_object(y) by {
        assert(m2.with_object(y) =~= m.with_object(y));
    }
    assert(!m.valid_node(x));
    assert forall|u: LocalTriple| !m.with_subject(x).contains(u) by {
        if m.with_subject(x).contains(u) {
            assert(m.triples[spec_triple_index(u.0.0)].0 == x);
        }
    }
    assert forall|u: LocalTriple| !m.with_predicate(x).contains(u) by {
        if m.with_predicate(x).contains(u) {
            assert(m.triples[spec_triple_index(u.0.0)].1 == x);
        }
    }
    assert forall|u: LocalTriple| !m.with_object(x).contains(u) by {
        if m.with_object(x).contains(u) {
            assert(m.triples[spec_triple_index(u.0.0)].2 == x);
        }
    }
    assert(m.with_subject(x) =~= Set::empty());
    assert(m.with_predicate(x) =~= Set::empty());
    assert(m.with_object(x) =~= Set::empty());
    let ne2 = ne.push(empty);
    assert forall|i: int| 0 <= i < ne2.len() implies edges_match(#[trigger] ne2[i], m2, LocalNode(i as u64)) by {
        if i < n {
            assert(edges_match(ne[i], m, LocalNode(i as u64)));
        }
    }
    assert forall|i: int| 0 <= i < te.len() implies edges_match(#[trigger] te[i], m2, triple_at(i).0) by {
        assert(edges_match(te[i], m, triple_at(i).0));
    }
}

/// The edge records and triple validity only depend on the triples and the
/// number of nodes.
pub proof fn lemma_same_triples(ne: Seq<Edges>, te: Seq<Edges>, m1: EnvModel, m2: EnvModel)
    requires
        edges_consistent(ne, te, m1),
        triples_valid(m1),
        m1.nodes.len() == m2.nodes.len(),
        m1.triples == m2.triples,
    ensures
        edges_consistent(ne, te, m2),
        triples_valid(m2),
{
    assert forall|y: LocalNode| #[trigger] m2.with_subject(y) == m1.with_subject(y) by {
        assert(m2.with_subject(y) =~= m1.with_subject(y));
    }
    assert forall|y: LocalNode| #[trigger] m2.with_predicate(y) == m1.with_predicate(y) by {
        assert(m2.with_predicate(y) =~= m1.with_predicate(y));
    }
    assert forall|y: LocalNode| #[trigger] m2.with_object(y) == m1.with_object(y) by {
        assert(m2.with_object(y) =~= m1.with_object(y));
    }
    assert forall|y: LocalNode| #[trigger] m2.valid_node(y) == m1.valid_node(y) by {}
    assert forall|i: int| 0 <= i < ne.len() implies edges_match(#[trigger] ne[i], m2, LocalNode(i as u64)) by {
        assert(edges_match(ne[i], m1, LocalNode(i as u64)));
    }
    assert forall|i: int| 0 <= i < te.len() implies edges_match(#[trigger] te[i], m2, triple_at(i).0) by {
        assert(edges_match(te[i], m1, triple_at(i).0));
    }
}

} // verus!

verus! {

/// In-memory environment over a storage backend.
#[derive(Debug)]
pub struct MemEnv<Backend: MemBackend> {
    backend: Backend,
}

impl<Backend: MemBackend> MemEnv<Backend> {
    pub fn new() -> (res: Self)
        ensures
            res.wf(),
            res.model() == EnvModel::empty(),
    {
        let res = Self { backend: Backend::new() };
        proof {
            assert(res.model().nodes =~= Seq::<Option<Sexp>>::empty());
            assert(res.model().triples =~= Seq::<(LocalNode, LocalNode, LocalNode)>::empty());
            assert(res.model().designations =~= Map::<u64, Map<Seq<char>, (u64, u64)>>::empty());
        }
        res
    }
}

impl<Backend: MemBackend> MemEnv<Backend> {
    /// The structure of a node, where it has one; triples have none.
    pub fn node_structure(&self, node: LocalNode) -> (res: Option<&Sexp>)
        requires
            self.wf(),
            spec_is_triple_id(node.0) || node.0 < self.model().nodes.len(),
        ensures
            spec_is_triple_id(node.0) ==> res is None,
            !spec_is_triple_id(node.0) ==> (res is None <==> self.model().structure_of(node) is None),
            !spec_is_triple_id(node.0) ==> (res matches Some(s) ==> Some(*s) == self.model().structure_of(node)),
    {
        if is_triple_id(node.id()) {
            return None;
        }
        match self.backend.node_unchecked(node) {
            Node::Atomic => None,
            Node::Structured(structure) => Some(structure),
        }
    }
}

/// A copy of an environment is a new, empty environment: what a node holds
/// is not copied.
impl<Backend: MemBackend> Clone for MemEnv<Backend> {
    fn clone(&self) -> (res: Self)
        ensures
            res.wf(),
            res.model() == EnvModel::empty(),
    {
        Self::new()
    }
}

impl<Backend: MemBackend> Default for MemEnv<Backend> {
    fn default() -> (res: Self)
        ensures
            res.wf(),
            res.model() == EnvModel::empty(),
    {
        Self::new()
    }
}

impl<Backend: MemBackend> Environment for MemEnv<Backend> {
    closed spec fn model(&self) -> EnvModel {
        backend_model(self.backend.nodes(), self.backend.triples(), self.backend.designators())
    }

    closed spec fn wf(&self) -> bool {
        &&& self.backend.inv()
        &&& self.backend.node_edges().len() == self.backend.nodes().len()
        &&& self.backend.triple_edges().len() == self.backend.triples().len()
        &&& self.backend.nodes().len() <= triple_bit()
        &&& self.backend.triples().len() <= triple_bit()
        &&& triples_valid(self.model())
        &&& edges_consistent(self.backend.node_edges(), self.backend.triple_edges(), self.model())
        &&& self.model().designations_injective()
    }

    proof fn lemma_wf_bounds(&self) {
    }

    fn type_label(&self) -> (res: &'static str)
        ensures
            res@ == "MemEnv"@,
    {
        "MemEnv"
    }

    fn all_nodes(&self) -> (res: Vec<LocalNode>) {
        let n = self.backend.node_count();
        let mut out: Vec<LocalNode> = Vec::new();
        let mut i: usize = 0;
        while i < n
            invariant
                n == self.model().nodes.len(),
                i <= n,
                out@.len() == i,
                forall|k: int| 0 <= k < i ==> (#[trigger] out@[k]).0 == k,
            decreases n - i,
        {
            out.push(LocalNode::new(i as LocalId));
            i = i + 1;
        }
        out
    }

    fn insert_node(&mut self, structure: Option<Sexp>) -> (res: LocalNode) {
        let ghost m = self.model();
        let ghost ne = self.backend.node_edges();
        let ghost te = self.backend.triple_edges();
        let id = self.backend.next_node_id();
        match structure {
            Some(structure) => self.backend.push_node(Node::Structured(structure)),
            None => self.backend.push_node(Node::Atomic),
        }
        let empty = Edges::default();
        let ghost empty_value = empty;
        self.backend.push_node_edges(empty);
        proof {
            assert(self.model().nodes =~= m.nodes.push(structure));
            assert(self.model() == m.with_node(structure));
            lemma_insert_node_consistent(ne, te, m, structure, empty_value);
        }
        id
    }

    fn insert_triple(&mut self, subject: LocalNode, predicate: LocalNode, object: LocalNode) -> (res:
        LocalTriple) {
        let ghost m = self.model();
        let ghost ne0 = self.backend.node_edges();
        let ghost te0 = self.backend.triple_edges();
        let id = self.backend.next_triple_id();
        proof {
            lemma_triple_at(m.triples.len() as int);
            assert(id == triple_at(m.triples.len() as int));
            assert(all_grown(ne0, te0, ne0, te0, subject, predicate, object, id, 0)) by {
                assert forall|i: int| 0 <= i < ne0.len() implies edges_grown(
                    ne0[i],
                    #[trigger] ne0[i],
                    i as u64,
                    subject,
                    predicate,
                    object,
                    id,
                    0,
                ) by {
                    assert(edges_match(ne0[i], m, LocalNode(i as u64)));
                }
                assert forall|i: int| 0 <= i < te0.len() implies edges_grown(
                    te0[i],
                    #[trigger] te0[i],
                    triple_at(i).0.0,
                    subject,
                    predicate,
                    object,
                    id,
                    0,
                ) by {
                    assert(edges_match(te0[i], m, triple_at(i).0));
                }
            }
        }

        let ghost ne1 = self.backend.node_edges();
        let ghost te1 = self.backend.triple_edges();
        proof {
            lemma_edges_at(ne0, te0, m, subject);
        }
        let ghost before = edges_at(ne1, te1, subject.0);
        let e = self.backend.edges_mut(subject);
        e.as_subject.insert(id);
        let ghost e_val = *e;
        proof {
            lemma_grow_step(
                ne0,
                te0,
                ne1,
                te1,
                self.backend.node_edges(),
                self.backend.triple_edges(),
                subject,
                predicate,
                object,
                id,
                1,
                subject,
                e_val,
            );
        }

        let ghost ne2 = self.backend.node_edges();
        let ghost te2 = self.backend.triple_edges();
        proof {
            assert(edges_grown(edges_at(ne0, te0, predicate.0), edges_at(ne2, te2, predicate.0), predicate.0, subject, predicate, object, id, 1)) by {
                if spec_is_triple_id(predicate.0) {
                    lemma_triple_at(spec_triple_index(predicate.0));
                }
            }
            lemma_edges_at(ne0, te0, m, predicate);
        }
        let e = self.backend.edges_mut(predicate);
        e.as_predicate.insert(id);
        let ghost e_val = *e;
        proof {
            lemma_grow_step(
                ne0,
                te0,
                ne2,
                te2,
                self.backend.node_edges(),
                self.backend.triple_edges(),
                subject,
                predicate,
                object,
                id,
                2,
                predicate,
                e_val,
            );
        }

        let ghost ne3 = self.backend.node_edges();
        let ghost te3 = self.backend.triple_edges();
        proof {
            assert(edges_grown(edges_at(ne0, te0, object.0), edges_at(ne3, te3, object.0), object.0, subject, predicate, object, id, 2)) by {
                if spec_is_triple_id(object.0) {
                    lemma_triple_at(spec_triple_index(object.0));
                }
            }
            lemma_edges_at(ne0, te0, m, object);
        }
        let e = self.backend.edges_mut(object);
        e.as_object.insert(id);
        let ghost e_val = *e;
        proof {
            lemma_grow_step(
                ne0,
                te0,
                ne3,
                te3,
                self.backend.node_edges(),
                self.backend.triple_edges(),
                subject,
                predicate,
                object,
                id,
                3,
                object,
                e_val,
            );
        }

        let ghost ne4 = self.backend.node_edges();
        let ghost te4 = self.backend.triple_edges();
        self.backend.push_triple(Triple { subject, predicate, object });
        let empty = Edges::default();
        let ghost empty_value = empty;
        self.backend.push_triple_edges(empty);
        proof {
            assert(self.model().triples =~= m.triples.push((subject, predicate, object)));
            assert(self.model() == m.with_triple(subject, predicate, object));
            lemma_insert_triple_consistent(
                ne0,
                te0,
                ne4,
                te4,
                m,
                subject,
                predicate,
                object,
                empty_value,
            );
        }
        id
    }

    fn insert_designation(&mut self, node: PrimitiveNode, designation: Symbol, context: LocalNode) {
        let ghost m = self.model();
        let d = self.backend.designator_mut(context);
        designator_insert(d, designation.into_string(), (node.env.id(), node.local.id()));
        proof {
            let old_d = designation_of(m.designations, context.0);
            assert(old_d == m.designation(context.0));
            if !m.designations.contains_key(context.0) {
                assert(injective(Map::<Seq<char>, (u64, u64)>::empty()));
            }
            lemma_bimap_insert_injective(old_d, designation@, node_key(node));
            assert(self.model() == m.with_designation(context.0, designation@, node_key(node)));
            lemma_same_triples(self.backend.node_edges(), self.backend.triple_edges(), m, self.model());
            assert forall|c: u64| #[trigger]
                self.model().designations.contains_key(c) implies injective(
                self.model().designations[c],
            ) by {
                if c != context.0 {
                    assert(m.designations.contains_key(c));
                }
            }
        }
    }

    fn match_designation(&self, designation: &Symbol, context: LocalNode) -> (res: Option<
        PrimitiveNode,
    >) {
        match self.backend.designator(context) {
            Some(d) => match designator_get_by_left(d, designation.as_string()) {
                Some(key) => Some(PrimitiveNode::new(LocalNode::new(key.0), LocalNode::new(key.1))),
                None => None,
            },
            None => None,
        }
    }

    fn find_designation(&self, node: PrimitiveNode, context: LocalNode) -> (res: Option<Symbol>) {
        match self.backend.designator(context) {
            Some(d) => match designator_get_by_right(d, (node.env.id(), node.local.id())) {
                Some(name) => Some(Symbol::new(name.clone())),
                None => {
                    proof {
                        let dm = self.model().designation(context.0);
                        assert forall|k: Seq<char>| #[trigger] dm.contains_key(k) implies dm[k]
                            != node_key(node) by {
                            if dm[k] == node_key(node) {
                                assert(crate::env::mem_backend::designator::names_of(
                                    dm,
                                    node_key(node),
                                ).contains(k));
                            }
                        }
                    }
                    None
                },
            },
            None => None,
        }
    }

    fn designation_pairs(&self, context: LocalNode) -> (res: Vec<(Symbol, PrimitiveNode)>) {
        let ghost dm = self.model().designation(context.0);
        match self.backend.designator(context) {
            Some(d) => {
                let pairs = designator_iter(d);
                let n = pairs.len();
                let mut out: Vec<(Symbol, PrimitiveNode)> = Vec::new();
                let mut i: usize = 0;
                while i < n
                    invariant
                        n == pairs@.len(),
                        i <= n,
                        out@.len() == i,
                        dm == designator_contents(*d),
                        forall|k: int|
                            0 <= k < i ==> (#[trigger] out@[k]).0@ == pairs@[k].0@ && node_key(out@[k].1)
                                == *pairs@[k].1,
                    decreases n - i,
                {
                    let (name, id) = pairs[i];
                    out.push((Symbol::new(name.clone()), PrimitiveNode::new(LocalNode::new(id.0), LocalNode::new(id.1))));
                    i = i + 1;
                }
                proof {
                    assert forall|k: Seq<char>| #[trigger] dm.contains_key(k) implies exists|i: int|
                        0 <= i < out@.len() && (#[trigger] out@[i]).0@ == k by {
                        let j = choose|j: int| 0 <= j < pairs@.len() && #[trigger] pairs@[j].0@ == k;
                        assert(out@[j].0@ == k);
                    }
                    assert forall|i: int, j: int| 0 <= i < j < out@.len() implies (
                    #[trigger] out@[i]).0@ != (#[trigger] out@[j]).0@ by {
                        assert(pairs@[i].0@ != pairs@[j].0@);
                    }
                }
                out
            },
            None => Vec::new(),
        }
    }

    fn match_subject(&self, subject: LocalNode) -> (res: TripleSet<'_, Self>) {
        proof {
            lemma_edges_at(self.backend.node_edges(), self.backend.triple_edges(), self.model(), subject);
        }
        let set = self.backend.edges(subject).as_subject.copy();
        TripleSet::new(self, set)
    }

    fn match_predicate(&self, predicate: LocalNode) -> (res: TripleSet<'_, Self>) {
        proof {
            lemma_edges_at(self.backend.node_edges(), self.backend.triple_edges(), self.model(), predicate);
        }
        let set = self.backend.edges(predicate).as_predicate.copy();
        TripleSet::new(self, set)
    }

    fn match_object(&self, object: LocalNode) -> (res: TripleSet<'_, Self>) {
        proof {
            lemma_edges_at(self.backend.node_edges(), self.backend.triple_edges(), self.model(), object);
        }
        let set = self.backend.edges(object).as_object.copy();
        TripleSet::new(self, set)
    }

    fn match_but_subject(&self, predicate: LocalNode, object: LocalNode) -> (res: TripleSet<
        '_,
        Self,
    >) {
        proof {
            lemma_edges_at(self.backend.node_edges(), self.backend.triple_edges(), self.model(), predicate);
            lemma_edges_at(self.backend.node_edges(), self.backend.triple_edges(), self.model(), object);
        }
        let set = self.backend.edges(predicate).as_predicate.intersection(
            &self.backend.edges(object).as_object,
        );
        TripleSet::new(self, set)
    }

    fn match_but_predicate(&self, subject: LocalNode, object: LocalNode) -> (res: TripleSet<
        '_,
        Self,
    >) {
        proof {
            lemma_edges_at(self.backend.node_edges(), self.backend.triple_edges(), self.model(), subject);
            lemma_edges_at(self.backend.node_edges(), self.backend.triple_edges(), self.model(), object);
        }
        let set = self.backend.edges(subject).as_subject.intersection(
            &self.backend.edges(object).as_object,
        );
        TripleSet::new(self, set)
    }

    fn match_but_object(&self, subject: LocalNode, predicate: LocalNode) -> (res: TripleSet<
        '_,
        Self,
    >) {
        proof {
            lemma_edges_at(self.backend.node_edges(), self.backend.triple_edges(), self.model(), subject);
            lemma_edges_at(self.backend.node_edges(), self.backend.triple_edges(), self.model(), predicate);
        }
        let set = self.backend.edges(subject).as_subject.intersection(
            &self.backend.edges(predicate).as_predicate,
        );
        TripleSet::new(self, set)
    }

    fn match_triple(&self, subject: LocalNode, predicate: LocalNode, object: LocalNode) -> (res:
        TripleSet<'_, Self>) {
        let ghost m = self.model();
        let candidates = self.match_but_object(subject, predicate);
        let ghost cs = candidates.elements.ids@;
        let n = candidates.elements.ids.len();
        let mut i: usize = 0;
        while i < n
            invariant
                self.wf(),
                m == self.model(),
                cs == candidates.elements.ids@,
                candidates.elements.wf(),
                candidates.elements@ == m.with_subject(subject).intersect(m.with_predicate(predicate)),
                n == cs.len(),
                i <= n,
                forall|k: int| 0 <= k < i ==> m.object_of(#[trigger] cs[k]) != object,
            decreases n - i,
        {
            let t = candidates.elements.ids[i];
            assert(candidates.elements@.contains(t));
            if self.triple_object(t) == object {
                let res = TripleSet::from_option(self, Some(t));
                proof {
                    let all = m.matching(subject, predicate, object);
                    assert(all.contains(t));
                    assert(res.elements@ =~= Set::empty().insert(t));
                    assert(res.elements@.len() == 1);
                    assert forall|u: LocalTriple, v: LocalTriple|
                        res.elements@.contains(u) && all.contains(v) implies u.0.0 <= v.0.0 by {
                        assert(candidates.elements@.contains(v));
                        let j = choose|j: int| 0 <= j < cs.len() && cs[j] == v;
                        if j < i {
                            assert(m.object_of(cs[j]) != object);
                        } else if j > i {
                            assert(cs[i as int].0.0 < cs[j].0.0);
                        }
                    }
                }
                return res;
            }
            i = i + 1;
        }
        let res = TripleSet::from_option(self, None);
        proof {
            let all = m.matching(subject, predicate, object);
            assert forall|v: LocalTriple| !all.contains(v) by {
                if all.contains(v) {
                    assert(candidates.elements@.contains(v));
                    let j = choose|j: int| 0 <= j < cs.len() && cs[j] == v;
                    assert(m.object_of(cs[j]) != object);
                }
            }
            assert(all =~= Set::empty());
            assert(res.elements@.len() == 0);
        }
        res
    }

    fn match_all(&self) -> (res: TripleSet<'_, Self>) {
        let ghost m = self.model();
        let n = self.backend.triple_count();
        let mut ids: Vec<LocalTriple> = Vec::new();
        let mut i: usize = 0;
        while i < n
            invariant
                n == m.triples.len(),
                n <= triple_bit(),
                i <= n,
                ids@.len() == i,
                forall|k: int| 0 <= k < i ==> #[trigger] ids@[k] == triple_at(k),
            decreases n - i,
        {
            let t = index_to_triple_id(i);
            proof {
                assert((i as u64) < triple_bit());
            }
            ids.push(t);
            i = i + 1;
        }
        let set = TripleIds { ids };
        proof {
            assert forall|a: int, b: int| 0 <= a < b < set.ids@.len() implies set.ids@[a].0.0
                < set.ids@[b].0.0 by {
                lemma_triple_at(a);
                lemma_triple_at(b);
            }
            assert forall|t: LocalTriple| set@.contains(t) <==> m.all_triples().contains(t) by {
                if m.is_triple(t) {
                    let k = spec_triple_index(t.0.0);
                    assert(set.ids@[k] == t);
                }
                if set@.contains(t) {
                    let k = choose|k: int| 0 <= k < set.ids@.len() && set.ids@[k] == t;
                    lemma_triple_at(k);
                }
            }
            assert(set@ =~= m.all_triples());
        }
        TripleSet::new(self, set)
    }

    fn entry(&self, node: LocalNode) -> (res: Entry<'_>) {
        let kind = if is_triple_id(node.id()) {
            EntryKind::Atomic
        } else {
            match self.backend.node_unchecked(node) {
                Node::Atomic => EntryKind::Atomic,
                Node::Structured(structure) => EntryKind::Borrowed(structure),
            }
        };
        Entry::new(kind)
    }

    fn entry_mut(&mut self, node: LocalNode) -> (res: EntryMut) {
        let kind = match self.backend.node_unchecked(node) {
            Node::Atomic => EntryMutKind::Atomic,
            Node::Structured(structure) => EntryMutKind::Owned(clone_sexp(structure)),
        };
        EntryMut::new(node, kind)
    }

    fn entry_update(&mut self, entry: EntryMut) -> (res: LocalNode) {
        let ghost m = self.model();
        let (node, kind) = entry.consume();
        let ghost new_structure = mut_kind_structure(kind);
        let stored = self.backend.node_mut_unchecked(node);
        match kind {
            EntryMutKind::Atomic => {
                *stored = Node::Atomic;
            },
            EntryMutKind::Owned(sexp) => {
                *stored = Node::Structured(sexp);
            },
        }
        proof {
            assert(self.model().nodes =~= m.nodes.update(node.0 as int, new_structure));
            assert(self.model() == m.with_structure(node, new_structure));
            lemma_same_triples(self.backend.node_edges(), self.backend.triple_edges(), m, self.model());
        }
        node
    }

    fn node_as_triple(&self, node: LocalNode) -> (res: Option<LocalTriple>) {
        if !is_triple_id(node.id()) {
            return None;
        }
        Some(LocalTriple::new(node.id()))
    }

    fn triple_subject(&self, triple: LocalTriple) -> (res: LocalNode) {
        self.backend.triple_unchecked(triple.node()).subject
    }

    fn triple_predicate(&self, triple: LocalTriple) -> (res: LocalNode) {
        self.backend.triple_unchecked(triple.node()).predicate
    }

    fn triple_object(&self, triple: LocalTriple) -> (res: LocalNode) {
        self.backend.triple_unchecked(triple.node()).object
    }

    fn triple_index(&self, triple: LocalTriple) -> (res: usize) {
        triple_index_unchecked(triple.node().id())
    }

    fn triple_from_index(&self, index: usize) -> (res: LocalTriple) {
        index_to_triple_id(index)
    }
}

} // verus!
