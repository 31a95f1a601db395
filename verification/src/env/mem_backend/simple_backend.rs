//! Simple MemBackend implementation.

use vstd::prelude::*;

use super::designator::{designator_contents, designator_new, Designator};
use super::index_id_conv::{is_triple_id, node_index_unchecked, triple_index_unchecked};
use super::mem_backend::MemBackend;
use super::repr::{Edges, Node, Triple};
use crate::env::local_node::LocalNode;

verus! {

/// Simple MemBackend implementation.
///
/// Not thread-safe or production-ready, but can be used for local testing,
/// simple local deployments, or as a fake in tests.
#[derive(Debug)]
pub struct SimpleBackend {
    nodes: Vec<Node>,
    triples: Vec<Triple>,
    node_edges: Vec<Edges>,
    triple_edges: Vec<Edges>,
    designator_contexts: Vec<LocalNode>,
    designators: Vec<Designator>,
}

/// Whether some entry of `ctxs` has id `c`.
pub open spec fn has_context(ctxs: Seq<LocalNode>, c: u64) -> bool {
    exists|k: int| 0 <= k < ctxs.len() && ctxs[k].0 == c
}

/// The position of context `c` in `ctxs`.
pub open spec fn context_index(ctxs: Seq<LocalNode>, c: u64) -> int {
    choose|k: int| 0 <= k < ctxs.len() && ctxs[k].0 == c
}

/// Whether no context occurs twice.
pub open spec fn distinct_contexts(ctxs: Seq<LocalNode>) -> bool {
    forall|i: int, j: int| 0 <= i < j < ctxs.len() ==> ctxs[i].0 != ctxs[j].0
}

/// The designations held by parallel sequences of contexts and designators.
pub open spec fn designator_map(ctxs: Seq<LocalNode>, ds: Seq<Designator>) -> Map<
    u64,
    Map<Seq<char>, (u64, u64)>,
> {
    Map::new(
        |c: u64| has_context(ctxs, c),
        |c: u64| designator_contents(ds[context_index(ctxs, c)]),
    )
}

proof fn lemma_context_index(ctxs: Seq<LocalNode>, k: int)
    requires
        distinct_contexts(ctxs),
        0 <= k < ctxs.len(),
    ensures
        has_context(ctxs, ctxs[k].0),
        context_index(ctxs, ctxs[k].0) == k,
{
    let c = ctxs[k].0;
    assert(has_context(ctxs, c));
    let j = context_index(ctxs, c);
    if j != k {
        if j < k {
            assert(ctxs[j].0 != ctxs[k].0);
        } else {
            assert(ctxs[k].0 != ctxs[j].0);
        }
    }
}

proof fn lemma_designator_map_update(
    ctxs: Seq<LocalNode>,
    ds: Seq<Designator>,
    k: int,
    d: Designator,
)
    requires
        distinct_contexts(ctxs),
        ctxs.len() == ds.len(),
        0 <= k < ctxs.len(),
    ensures
        designator_map(ctxs, ds.update(k, d)) == designator_map(ctxs, ds).insert(
            ctxs[k].0,
            designator_contents(d),
        ),
{
    lemma_context_index(ctxs, k);
    let m1 = designator_map(ctxs, ds.update(k, d));
    let m2 = designator_map(ctxs, ds).insert(ctxs[k].0, designator_contents(d));
    assert forall|c: u64| #[trigger] m1.contains_key(c) implies m1[c] == m2[c] by {
        let j = context_index(ctxs, c);
        lemma_context_index(ctxs, j);
    }
    assert(m1 =~= m2);
}

proof fn lemma_designator_map_push(
    ctxs: Seq<LocalNode>,
    ds: Seq<Designator>,
    c: LocalNode,
    d: Designator,
)
    requires
        distinct_contexts(ctxs),
        ctxs.len() == ds.len(),
        !has_context(ctxs, c.0),
    ensures
        distinct_contexts(ctxs.push(c)),
        designator_map(ctxs.push(c), ds.push(d)) == designator_map(ctxs, ds).insert(
            c.0,
            designator_contents(d),
        ),
{
    let nc = ctxs.push(c);
    let nd = ds.push(d);
    assert(distinct_contexts(nc)) by {
        assert forall|i: int, j: int| 0 <= i < j < nc.len() implies nc[i].0 != nc[j].0 by {
            if j == ctxs.len() {
                assert(ctxs[i].0 != c.0);
            }
        }
    }
    lemma_context_index(nc, ctxs.len() as int);
    let m1 = designator_map(nc, nd);
    let m2 = designator_map(ctxs, ds).insert(c.0, designator_contents(d));
    assert forall|x: u64| m1.contains_key(x) <==> m2.contains_key(x) by {
        if has_context(nc, x) && x != c.0 {
            let k = choose|k: int| 0 <= k < nc.len() && nc[k].0 == x;
            assert(ctxs[k].0 == x);
        }
        if has_context(ctxs, x) {
            let k = choose|k: int| 0 <= k < ctxs.len() && ctxs[k].0 == x;
            assert(nc[k].0 == x);
        }
    }
    assert forall|x: u64| #[trigger] m1.contains_key(x) implies m1[x] == m2[x] by {
        let j = context_index(nc, x);
        lemma_context_index(nc, j);
        if x != c.0 {
            assert(j < ctxs.len());
            lemma_context_index(ctxs, j);
        }
    }
    assert(m1 =~= m2);
}

impl SimpleBackend {
    /// Position of a context's designator, if it has one.
    fn find_context(&self, context: LocalNode) -> (res: Option<usize>)
        requires
            self.inv(),
        ensures
            res matches Some(k) ==> k < self.designator_contexts@.len()
                && self.designator_contexts@[k as int].0 == context.0,
            res is None ==> !has_context(self.designator_contexts@, context.0),
    {
        let n = self.designator_contexts.len();
        let mut k: usize = 0;
        while k < n
            invariant
                n == self.designator_contexts@.len(),
                k <= n,
                forall|j: int| 0 <= j < k ==> self.designator_contexts@[j].0 != context.0,
            decreases n - k,
        {
            if self.designator_contexts[k].0 == context.0 {
                return Some(k);
            }
            k = k + 1;
        }
        None
    }
}

impl Default for SimpleBackend {
    fn default() -> (res: SimpleBackend)
        ensures
            res.inv(),
            res.nodes().len() == 0,
            res.triples().len() == 0,
            res.node_edges().len() == 0,
            res.triple_edges().len() == 0,
            res.designators().dom().is_empty(),
    {
        SimpleBackend::new()
    }
}

impl MemBackend for SimpleBackend {
    closed spec fn nodes(&self) -> Seq<Node> {
        self.nodes@
    }

    closed spec fn triples(&self) -> Seq<Triple> {
        self.triples@
    }

    closed spec fn node_edges(&self) -> Seq<Edges> {
        self.node_edges@
    }

    closed spec fn triple_edges(&self) -> Seq<Edges> {
        self.triple_edges@
    }

    closed spec fn designators(&self) -> Map<u64, Map<Seq<char>, (u64, u64)>> {
        designator_map(self.designator_contexts@, self.designators@)
    }

    closed spec fn inv(&self) -> bool {
        &&& self.designator_contexts@.len() == self.designators@.len()
        &&& distinct_contexts(self.designator_contexts@)
    }

    fn new() -> (res: SimpleBackend) {
        let res = SimpleBackend {
            nodes: Vec::new(),
            triples: Vec::new(),
            node_edges: Vec::new(),
            triple_edges: Vec::new(),
            designator_contexts: Vec::new(),
            designators: Vec::new(),
        };
        assert(res.designators().dom() =~= Set::<u64>::empty());
        res
    }

    fn edges(&self, node: LocalNode) -> (res: &Edges) {
        let _ = self.triple_edges.len();
        let _ = self.node_edges.len();
        if is_triple_id(node.id()) {
            &self.triple_edges[triple_index_unchecked(node.id())]
        } else {
            &self.node_edges[node_index_unchecked(node.id())]
        }
    }

    fn edges_mut(&mut self, node: LocalNode) -> (res: &mut Edges) {
        let _ = self.triple_edges.len();
        let _ = self.node_edges.len();
        if is_triple_id(node.id()) {
            &mut self.triple_edges[triple_index_unchecked(node.id())]
        } else {
            &mut self.node_edges[node_index_unchecked(node.id())]
        }
    }

    fn node_unchecked(&self, node: LocalNode) -> (res: &Node) {
        let _ = self.nodes.len();
        &self.nodes[node_index_unchecked(node.id())]
    }

    fn node_mut_unchecked(&mut self, node: LocalNode) -> (res: &mut Node) {
        let _ = self.nodes.len();
        &mut self.nodes[node_index_unchecked(node.id())]
    }

    fn triple_unchecked(&self, triple: LocalNode) -> (res: &Triple) {
        let _ = self.triples.len();
        &self.triples[triple_index_unchecked(triple.id())]
    }

    fn push_node(&mut self, node: Node) {
        self.nodes.push(node);
    }

    fn push_triple(&mut self, triple: Triple) {
        self.triples.push(triple);
    }

    fn push_node_edges(&mut self, edges: Edges) {
        self.node_edges.push(edges);
    }

    fn push_triple_edges(&mut self, edges: Edges) {
        self.triple_edges.push(edges);
    }

    fn node_count(&self) -> (res: usize) {
        self.nodes.len()
    }

    fn triple_count(&self) -> (res: usize) {
        self.triples.len()
    }

    fn designator(&self, context: LocalNode) -> (res: Option<&Designator>) {
        match self.find_context(context) {
            Some(k) => {
                proof {
                    lemma_context_index(self.designator_contexts@, k as int);
                }
                Some(&self.designators[k])
            },
            None => None,
        }
    }

    fn designator_mut(&mut self, context: LocalNode) -> (res: &mut Designator) {
        let k = match self.find_context(context) {
            Some(k) => {
                proof {
                    lemma_context_index(self.designator_contexts@, k as int);
                }
                k
            },
            None => {
                let ghost ctxs = self.designator_contexts@;
                let ghost ds = self.designators@;
                let d = designator_new();
                self.designator_contexts.push(context);
                self.designators.push(d);
                proof {
                    lemma_designator_map_push(ctxs, ds, context, d);
                    lemma_context_index(self.designator_contexts@, ctxs.len() as int);
                    assert(designator_contents(d) =~= Map::empty());
                }
                self.designators.len() - 1
            },
        };
        let ghost ctxs = self.designator_contexts@;
        let ghost ds = self.designators@;
        let res = &mut self.designators[k];
        proof {
            lemma_designator_map_update(ctxs, ds, k as int, *final(res));
        }
        res
    }
}

} // verus!
