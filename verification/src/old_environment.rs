//! Named values: a lookup table from names to values.

use vstd::prelude::*;

use crate::text::str_eq;

verus! {

/// Whether no name occurs twice.
pub open spec fn distinct_names<T>(entries: Seq<(String, T)>) -> bool {
    forall|i: int, j: int| 0 <= i < j < entries.len() ==> entries[i].0@ != entries[j].0@
}

pub struct Environment<T> {
    pub map: Vec<(String, T)>,
}

impl<T> Environment<T> {
    /// Every name has one value.
    pub open spec fn wf(&self) -> bool {
        distinct_names(self.map@)
    }

    pub fn new(map: Vec<(String, T)>) -> (res: Environment<T>)
        ensures
            res.map@ == map@,
    {
        Environment { map }
    }

    /// The value of a name, if it has one.
    pub fn lookup(&self, k: &str) -> (res: Option<&T>)
        ensures
            res is None <==> forall|i: int| 0 <= i < self.map@.len() ==> self.map@[i].0@ != k@,
            res matches Some(v) ==> exists|i: int|
                0 <= i < self.map@.len() && self.map@[i].0@ == k@ && *v == self.map@[i].1,
            self.wf() ==> forall|i: int|
                0 <= i < self.map@.len() && self.map@[i].0@ == k@ ==> res == Some(&self.map@[i].1),
    {
        let n = self.map.len();
        let mut i: usize = 0;
        while i < n
            invariant
                n == self.map@.len(),
                i <= n,
                forall|j: int| 0 <= j < i ==> self.map@[j].0@ != k@,
            decreases n - i,
        {
            if str_eq(self.map[i].0.as_str(), k) {
                return Some(&self.map[i].1);
            }
            i = i + 1;
        }
        None
    }
}

} // verus!
