//! Ordered sets of triples, kept as strictly increasing sequences of ids.

use vstd::prelude::*;

use crate::env::local_node::LocalTriple;

verus! {

broadcast use vstd::seq_lib::group_seq_properties;

/// Whether the triples in `s` have strictly increasing ids.
pub open spec fn increasing(s: Seq<LocalTriple>) -> bool {
    forall|i: int, j: int| 0 <= i < j < s.len() ==> s[i].0.0 < s[j].0.0
}

/// A set of triples ordered by id.
#[derive(Debug)]
pub struct TripleIds {
    pub ids: Vec<LocalTriple>,
}

impl View for TripleIds {
    type V = Set<LocalTriple>;

    open spec fn view(&self) -> Set<LocalTriple> {
        self.ids@.to_set()
    }
}

pub proof fn lemma_increasing_len(s: Seq<LocalTriple>)
    requires
        increasing(s),
    ensures
        s.no_duplicates(),
        s.to_set().len() == s.len(),
{
    s.unique_seq_to_set();
}

pub proof fn lemma_take_push_set(s: Seq<LocalTriple>, i: int)
    requires
        0 <= i < s.len(),
    ensures
        s.take(i + 1).to_set() == s.take(i).to_set().insert(s[i]),
{
    s.lemma_take_succ_push(i);
    s.take(i).lemma_push_to_set_commute(s[i]);
}

/// Inserting `t` at its place in an increasing sequence keeps it
/// increasing and adds `t` to its elements.
pub proof fn lemma_insert_at(s: Seq<LocalTriple>, k: int, t: LocalTriple)
    requires
        increasing(s),
        0 <= k <= s.len(),
        forall|m: int| 0 <= m < k ==> s[m].0.0 < t.0.0,
        k < s.len() ==> t.0.0 < s[k].0.0,
    ensures
        increasing(s.insert(k, t)),
        s.insert(k, t).to_set() == s.to_set().insert(t),
{
    let r = s.insert(k, t);
    s.insert_ensures(k, t);
    assert(increasing(r)) by {
        assert forall|i: int, j: int| 0 <= i < j < r.len() implies r[i].0.0 < r[j].0.0 by {
            if j < k {
            } else if j == k {
            } else if i < k {
                assert(r[j] == s[j - 1]);
                if j - 1 > k {
                    assert(s[k].0.0 < s[j - 1].0.0);
                }
            } else if i == k {
                assert(r[j] == s[j - 1]);
                if j - 1 > k {
                    assert(s[k].0.0 < s[j - 1].0.0);
                }
            } else {
                assert(r[i] == s[i - 1] && r[j] == s[j - 1]);
            }
        }
    }
    assert(r.to_set() =~= s.to_set().insert(t)) by {
        assert forall|x: LocalTriple| r.to_set().contains(x) implies s.to_set().insert(
            t,
        ).contains(x) by {
            let i = choose|i: int| 0 <= i < r.len() && r[i] == x;
            if i < k {
                assert(s[i] == x);
            } else if i > k {
                assert(s[i - 1] == x);
            }
        }
        assert forall|x: LocalTriple| s.to_set().insert(t).contains(x) implies r.to_set().contains(
            x,
        ) by {
            if x == t {
                assert(r[k] == t);
            } else {
                let i = choose|i: int| 0 <= i < s.len() && s[i] == x;
                if i < k {
                    assert(r[i] == x);
                } else {
                    assert(r[i + 1] == x);
                }
            }
        }
    }
}

impl TripleIds {
    pub open spec fn wf(&self) -> bool {
        increasing(self.ids@)
    }

    pub fn new() -> (res: TripleIds)
        ensures
            res.wf(),
            res.ids@ == Seq::<LocalTriple>::empty(),
            res@ == Set::<LocalTriple>::empty(),
    {
        TripleIds { ids: Vec::new() }
    }

    /// The set holding the given triple, if any.
    pub fn from_option(option: Option<LocalTriple>) -> (res: TripleIds)
        ensures
            res.wf(),
            option is None ==> res@ == Set::<LocalTriple>::empty(),
            option matches Some(t) ==> res@ == Set::<LocalTriple>::empty().insert(t),
    {
        let mut ids = Vec::new();
        if let Some(t) = option {
            ids.push(t);
            assert(ids@ == Seq::<LocalTriple>::empty().push(t));
            proof {
                Seq::<LocalTriple>::empty().lemma_push_to_set_commute(t);
            }
        }
        TripleIds { ids }
    }

    /// A copy of the set.
    pub fn copy(&self) -> (res: TripleIds)
        ensures
            res.ids@ == self.ids@,
    {
        let n = self.ids.len();
        let mut ids: Vec<LocalTriple> = Vec::new();
        let mut i: usize = 0;
        while i < n
            invariant
                n == self.ids@.len(),
                i <= n,
                ids@ == self.ids@.take(i as int),
            decreases n - i,
        {
            ids.push(self.ids[i]);
            i = i + 1;
            assert(ids@ =~= self.ids@.take(i as int));
        }
        assert(self.ids@.take(n as int) =~= self.ids@);
        TripleIds { ids }
    }

    pub fn len(&self) -> (res: usize)
        requires
            self.wf(),
        ensures
            res == self@.len(),
    {
        proof {
            lemma_increasing_len(self.ids@);
        }
        self.ids.len()
    }

    pub fn get(&self, i: usize) -> (res: LocalTriple)
        requires
            i < self.ids@.len(),
        ensures
            res == self.ids@[i as int],
    {
        self.ids[i]
    }

    /// Inserts a triple, keeping the order. Returns whether it was new.
    pub fn insert(&mut self, t: LocalTriple) -> (res: bool)
        requires
            old(self).wf(),
        ensures
            final(self).wf(),
            final(self)@ == old(self)@.insert(t),
            res == !old(self)@.contains(t),
    {
        let ghost s = self.ids@;
        let n = self.ids.len();
        let mut k: usize = 0;
        while k < n && self.ids[k].0.0 < t.0.0
            invariant
                n == self.ids@.len(),
                self.ids@ == s,
                increasing(s),
                k <= n,
                forall|m: int| 0 <= m < k ==> s[m].0.0 < t.0.0,
            decreases n - k,
        {
            k = k + 1;
        }
        if k < n && self.ids[k].0.0 == t.0.0 {
            assert(s[k as int] == t);
            assert(s.contains(t));
            return false;
        }
        assert(!s.contains(t)) by {
            if s.contains(t) {
                let m = choose|m: int| 0 <= m < s.len() && s[m] == t;
                if m < k {
                } else {
                    assert(s[k as int].0.0 <= s[m].0.0);
                }
            }
        }
        self.ids.insert(k, t);
        proof {
            lemma_insert_at(s, k as int, t);
        }
        true
    }

    /// Union of two ordered sets, by merging.
    pub fn union(&self, other: &TripleIds) -> (res: TripleIds)
        requires
            self.wf(),
            other.wf(),
        ensures
            res.wf(),
            res@ == self@.union(other@),
    {
        let a = &self.ids;
        let b = &other.ids;
        let mut out: Vec<LocalTriple> = Vec::new();
        let mut i: usize = 0;
        let mut j: usize = 0;
        while i < a.len() || j < b.len()
            invariant
                increasing(a@),
                increasing(b@),
                i <= a@.len(),
                j <= b@.len(),
                increasing(out@),
                out@.to_set() == a@.take(i as int).to_set().union(b@.take(j as int).to_set()),
                forall|k: int|
                    0 <= k < out@.len() ==> (i < a@.len() ==> out@[k].0.0 < a@[i as int].0.0) && (j
                        < b@.len() ==> out@[k].0.0 < b@[j as int].0.0),
            decreases a@.len() - i + b@.len() - j,
        {
            let ghost old_out = out@;
            if j >= b.len() || (i < a.len() && a[i].0.0 < b[j].0.0) {
                let x = a[i];
                out.push(x);
                proof {
                    lemma_take_push_set(a@, i as int);
                    old_out.lemma_push_to_set_commute(x);
                    assert(out@.to_set() =~= a@.take(i + 1).to_set().union(
                        b@.take(j as int).to_set(),
                    ));
                }
                i = i + 1;
            } else if i >= a.len() || b[j].0.0 < a[i].0.0 {
                let x = b[j];
                out.push(x);
                proof {
                    lemma_take_push_set(b@, j as int);
                    old_out.lemma_push_to_set_commute(x);
                    assert(out@.to_set() =~= a@.take(i as int).to_set().union(
                        b@.take(j + 1).to_set(),
                    ));
                }
                j = j + 1;
            } else {
                let x = a[i];
                assert(a@[i as int] == b@[j as int]);
                out.push(x);
                proof {
                    lemma_take_push_set(a@, i as int);
                    lemma_take_push_set(b@, j as int);
                    old_out.lemma_push_to_set_commute(x);
                    assert(out@.to_set() =~= a@.take(i + 1).to_set().union(
                        b@.take(j + 1).to_set(),
                    ));
                }
                i = i + 1;
                j = j + 1;
            }
        }
        proof {
            assert(a@.take(a@.len() as int) == a@);
            assert(b@.take(b@.len() as int) == b@);
        }
        TripleIds { ids: out }
    }

    /// Intersection of two ordered sets, by merging.
    pub fn intersection(&self, other: &TripleIds) -> (res: TripleIds)
        requires
            self.wf(),
            other.wf(),
        ensures
            res.wf(),
            res@ == self@.intersect(other@),
    {
        let a = &self.ids;
        let b = &other.ids;
        let mut out: Vec<LocalTriple> = Vec::new();
        let mut i: usize = 0;
        let mut j: usize = 0;
        while i < a.len() && j < b.len()
            invariant
                increasing(a@),
                increasing(b@),
                i <= a@.len(),
                j <= b@.len(),
                increasing(out@),
                out@.to_set() == a@.take(i as int).to_set().intersect(b@.to_set()),
                forall|k: int| 0 <= k < out@.len() ==> (i < a@.len() ==> out@[k].0.0 < a@[i as int].0.0),
                forall|k: int| 0 <= k < j ==> (i < a@.len() ==> b@[k].0.0 < a@[i as int].0.0),
            decreases a@.len() - i + b@.len() - j,
        {
            let ghost old_out = out@;
            if a[i].0.0 < b[j].0.0 {
                proof {
                    lemma_take_push_set(a@, i as int);
                    assert(!b@.to_set().contains(a@[i as int])) by {
                        if b@.contains(a@[i as int]) {
                            let m = choose|m: int| 0 <= m < b@.len() && b@[m] == a@[i as int];
                            if m >= j {
                                assert(b@[j as int].0.0 <= b@[m].0.0);
                            }
                        }
                    }
                    assert(a@.take(i + 1).to_set().intersect(b@.to_set()) =~= a@.take(
                        i as int,
                    ).to_set().intersect(b@.to_set()));
                }
                i = i + 1;
            } else if b[j].0.0 < a[i].0.0 {
                j = j + 1;
            } else {
                let x = a[i];
                assert(a@[i as int] == b@[j as int]);
                out.push(x);
                proof {
                    lemma_take_push_set(a@, i as int);
                    old_out.lemma_push_to_set_commute(x);
                    assert(b@.to_set().contains(x));
                    assert(out@.to_set() =~= a@.take(i + 1).to_set().intersect(b@.to_set()));
                }
                i = i + 1;
                j = j + 1;
            }
        }
        proof {
            if i == a@.len() {
                assert(a@.take(a@.len() as int) == a@);
            } else {
                assert(j == b@.len());
                assert(out@.to_set() =~= a@.to_set().intersect(b@.to_set())) by {
                    assert forall|x: LocalTriple|
                        a@.to_set().intersect(b@.to_set()).contains(x) implies out@.to_set().contains(
                        x,
                    ) by {
                        let m = choose|m: int| 0 <= m < a@.len() && a@[m] == x;
                        let q = choose|q: int| 0 <= q < b@.len() && b@[q] == x;
                        if m >= i {
                            assert(b@[q].0.0 < a@[i as int].0.0);
                            if m > i {
                                assert(a@[i as int].0.0 < a@[m].0.0);
                            }
                        }
                        assert(a@.take(i as int)[m] == x);
                    }
                    assert forall|x: LocalTriple| out@.to_set().contains(x) implies a@.to_set().intersect(
                        b@.to_set(),
                    ).contains(x) by {
                        let m = choose|m: int| 0 <= m < i && a@.take(i as int)[m] == x;
                        assert(a@[m] == x);
                    }
                }
            }
        }
        TripleIds { ids: out }
    }
}

} // verus!
