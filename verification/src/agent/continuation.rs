//! Stack of frames, from most recent to least recent, which may be empty.

use vstd::prelude::*;

verus! {

#[derive(Clone, Debug, Default, Eq, PartialEq)]
pub struct Continuation<Frame>(Vec<Frame>);

impl<Frame> View for Continuation<Frame> {
    type V = Seq<Frame>;

    /// The frames, from least recent to most recent.
    closed spec fn view(&self) -> Seq<Frame> {
        self.0@
    }
}

impl<Frame> Continuation<Frame> {
    pub fn new() -> (res: Self)
        ensures
            res@ == Seq::<Frame>::empty(),
    {
        Self(Vec::new())
    }

    /// The most recent frame, for modification, if there is one.
    pub fn top_mut(&mut self) -> (res: Option<&mut Frame>)
        ensures
            old(self)@.len() == 0 ==> res is None && final(self)@ == old(self)@,
            old(self)@.len() > 0 ==> (res matches Some(r) && *r == old(self)@.last()
                && final(self)@ == old(self)@.update(old(self)@.len() - 1, *final(r))),
    {
        let len = self.0.len();
        if len == 0 {
            return None;
        }
        Some(&mut self.0[len - 1])
    }

    pub fn push(&mut self, frame: Frame)
        ensures
            final(self)@ == old(self)@.push(frame),
    {
        self.0.push(frame);
    }

    pub fn pop(&mut self) -> (res: Option<Frame>)
        ensures
            old(self)@.len() == 0 ==> res is None && final(self)@ == old(self)@,
            old(self)@.len() > 0 ==> res == Some(old(self)@.last()) && final(self)@ == old(self)@.drop_last(),
    {
        self.0.pop()
    }

    pub fn depth(&self) -> (res: usize)
        ensures
            res == self@.len(),
    {
        self.0.len()
    }

    /// The frames from most recent to least recent.
    pub fn iter(&self) -> (res: Vec<&Frame>)
        ensures
            res@.len() == self@.len(),
            forall|i: int| 0 <= i < res@.len() ==> *res@[i] == self@[self@.len() - 1 - i],
    {
        let n = self.0.len();
        let mut out: Vec<&Frame> = Vec::new();
        let mut i: usize = n;
        while i > 0
            invariant
                n == self@.len(),
                i <= n,
                out@.len() == n - i,
                forall|k: int| 0 <= k < out@.len() ==> *out@[k] == self@[n - 1 - k],
            decreases i,
        {
            i = i - 1;
            out.push(&self.0[i]);
        }
        out
    }
}

} // verus!
