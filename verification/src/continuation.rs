//! Stack of frames whose bottom (root) frame is never popped.

use vstd::prelude::*;

verus! {

#[derive(Clone, Debug, Eq, PartialEq)]
pub struct Continuation<Frame>(Vec<Frame>);

impl<Frame> View for Continuation<Frame> {
    type V = Seq<Frame>;

    /// The frames, from least recent (the root) to most recent.
    closed spec fn view(&self) -> Seq<Frame> {
        self.0@
    }
}

impl<Frame> Continuation<Frame> {
    /// A continuation always holds its root frame.
    pub open spec fn wf(&self) -> bool {
        self@.len() >= 1
    }

    pub fn new(root: Frame) -> (res: Self)
        ensures
            res.wf(),
            res@ == seq![root],
    {
        let mut frames = Vec::new();
        frames.push(root);
        Self(frames)
    }

    /// The most recent frame.
    pub fn top(&self) -> (res: &Frame)
        requires
            self.wf(),
        ensures
            *res == self@.last(),
    {
        let len = self.depth();
        &self.0[len - 1]
    }

    /// The most recent frame, for modification.
    pub fn top_mut(&mut self) -> (res: &mut Frame)
        requires
            old(self).wf(),
        ensures
            *res == old(self)@.last(),
            final(self)@ == old(self)@.update(old(self)@.len() - 1, *final(res)),
            final(self).wf(),
    {
        let len = self.depth();
        &mut self.0[len - 1]
    }

    pub fn push(&mut self, frame: Frame)
        ensures
            final(self)@ == old(self)@.push(frame),
    {
        self.0.push(frame);
    }

    /// Removes and returns the most recent frame, unless it is the root
    /// frame, which stays (and `None` is returned).
    pub fn pop(&mut self) -> (res: Option<Frame>)
        requires
            old(self).wf(),
        ensures
            final(self).wf(),
            old(self)@.len() == 1 ==> res is None && final(self)@ == old(self)@,
            old(self)@.len() > 1 ==> res == Some(old(self)@.last()) && final(self)@ == old(self)@.drop_last(),
    {
        if self.depth() == 1 {
            None
        } else {
            self.0.pop()
        }
    }

    pub fn depth(&self) -> (res: usize)
        ensures
            res == self@.len(),
    {
        self.0.len()
    }

    /// The frames from most recent to least recent.
    pub fn iter(&self) -> (res: Vec<&Frame>)
        ensures
            res@.len() == self@.len(),
            forall|i: int| 0 <= i < res@.len() ==> *res@[i] == self@[self@.len() - 1 - i],
    {
        let n = self.0.len();
        let mut out: Vec<&Frame> = Vec::new();
        let mut i: usize = n;
        while i > 0
            invariant
                n == self@.len(),
                i <= n,
                out@.len() == n - i,
                forall|k: int| 0 <= k < out@.len() ==> *out@[k] == self@[n - 1 - k],
            decreases i,
        {
            i = i - 1;
            out.push(&self.0[i]);
        }
        out
    }
}

/// Pushing a frame and popping it again gives back that frame and the
/// continuation as it was.
pub proof fn lemma_push_pop<Frame>(before: Seq<Frame>, frame: Frame)
    requires
        before.len() >= 1,
    ensures
        before.push(frame).len() > 1,
        before.push(frame).last() == frame,
        before.push(frame).drop_last() == before,
{
    assert(before.push(frame).drop_last() =~= before);
}

} // verus!
