//! Frames of execution: the nodes that a procedure's context binds.

use vstd::prelude::*;

use crate::agent::continuation::Continuation;
use crate::primitive::Node;

verus! {

/// The frames of execution, most recent last.
pub type ExecState = Continuation<ExecFrame>;

#[derive(Clone, Debug, PartialEq, Eq)]
pub struct ExecFrame {
    context: Node,
    map: Vec<(Node, Node)>,
}

/// The bindings held by a sequence of pairs whose keys are distinct.
pub open spec fn bindings(map: Seq<(Node, Node)>) -> Map<Node, Node> {
    Map::new(
        |k: Node| exists|i: int| 0 <= i < map.len() && map[i].0 == k,
        |k: Node| map[choose|i: int| 0 <= i < map.len() && map[i].0 == k].1,
    )
}

impl ExecFrame {
    pub closed spec fn spec_context(&self) -> Node {
        self.context
    }

    /// The nodes bound in this frame.
    pub closed spec fn spec_map(&self) -> Map<Node, Node> {
        bindings(self.map@)
    }

    pub closed spec fn wf(&self) -> bool {
        forall|i: int, j: int| 0 <= i < j < self.map@.len() ==> self.map@[i].0 != self.map@[j].0
    }

    pub fn new(context: Node) -> (res: Self)
        ensures
            res.wf(),
            res.spec_context() == context,
            res.spec_map() == Map::<Node, Node>::empty(),
    {
        let res = Self { context, map: Vec::new() };
        assert(res.spec_map() =~= Map::<Node, Node>::empty());
        res
    }

    /// Binds `from` to `to` unless `from` is bound already; returns whether
    /// it bound it.
    pub fn insert(&mut self, from: Node, to: Node) -> (res: bool)
        requires
            old(self).wf(),
        ensures
            final(self).wf(),
            final(self).spec_context() == old(self).spec_context(),
            res == !old(self).spec_map().contains_key(from),
            res ==> final(self).spec_map() == old(self).spec_map().insert(from, to),
            !res ==> final(self).spec_map() == old(self).spec_map(),
    {
        let ghost before = self.map@;
        let n = self.map.len();
        let mut i: usize = 0;
        while i < n
            invariant
                n == self.map@.len(),
                self.map@ == before,
                i <= n,
                forall|a: int, b: int| 0 <= a < b < before.len() ==> before[a].0 != before[b].0,
                forall|j: int| 0 <= j < i ==> before[j].0 != from,
            decreases n - i,
        {
            if self.map[i].0 == from {
                assert(bindings(before).contains_key(from));
                return false;
            }
            i = i + 1;
        }
        self.map.push((from, to));
        proof {
            let after = self.map@;
            assert(after == before.push((from, to)));
            assert forall|a: int, b: int| 0 <= a < b < after.len() implies after[a].0 != after[b].0 by {
                if b == n {
                    assert(before[a].0 != from);
                }
            }
            assert forall|k: Node| #[trigger] bindings(after).contains_key(k) <==> bindings(
                before,
            ).insert(from, to).contains_key(k) by {
                if bindings(before).contains_key(k) {
                    let m = choose|m: int| 0 <= m < before.len() && before[m].0 == k;
                    assert(after[m].0 == k);
                }
                if k == from {
                    assert(after[n as int].0 == k);
                }
                if bindings(after).contains_key(k) && k != from {
                    let m = choose|m: int| 0 <= m < after.len() && after[m].0 == k;
                    assert(before[m].0 == k);
                }
            }
            assert forall|k: Node| #[trigger] bindings(after).contains_key(k) implies bindings(
                after,
            )[k] == bindings(before).insert(from, to)[k] by {
                let m = choose|m: int| 0 <= m < after.len() && after[m].0 == k;
                if k != from {
                    let m2 = choose|m2: int| 0 <= m2 < before.len() && before[m2].0 == k;
                    if m != m2 {
                        if m < m2 {
                            assert(after[m].0 != after[m2].0);
                        } else {
                            assert(after[m2].0 != after[m].0);
                        }
                    }
                } else if m != n {
                    assert(after[m].0 != after[n as int].0);
                }
            }
            assert(bindings(after) =~= bindings(before).insert(from, to));
        }
        true
    }

    pub fn lookup(&self, key: Node) -> (res: Option<Node>)
        requires
            self.wf(),
        ensures
            self.spec_map().contains_key(key) ==> res == Some(self.spec_map()[key]),
            !self.spec_map().contains_key(key) ==> res is None,
    {
        let n = self.map.len();
        let mut i: usize = 0;
        while i < n
            invariant
                n == self.map@.len(),
                i <= n,
                self.wf(),
                forall|j: int| 0 <= j < i ==> self.map@[j].0 != key,
            decreases n - i,
        {
            if self.map[i].0 == key {
                proof {
                    let k = choose|k: int| 0 <= k < self.map@.len() && self.map@[k].0 == key;
                    if k != i {
                        if k < i {
                        } else {
                            assert(self.map@[i as int].0 != self.map@[k].0);
                        }
                    }
                }
                return Some(self.map[i].1);
            }
            i = i + 1;
        }
        None
    }

    pub fn context(&self) -> (res: Node)
        ensures
            res == self.spec_context(),
    {
        self.context
    }
}

} // verus!
