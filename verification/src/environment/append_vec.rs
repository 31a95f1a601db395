//! Vector which never changes the elements it holds: an element is either
//! pushed into spare capacity, or a new vector with larger capacity is made
//! that holds copies of the existing elements and the new ones.

use vstd::prelude::*;

verus! {

pub struct AppendVec<T: Clone + Default> {
    vec: Vec<T>,
    capacity: usize,
}

impl<T: Clone + Default> View for AppendVec<T> {
    type V = Seq<T>;

    closed spec fn view(&self) -> Seq<T> {
        self.vec@
    }
}

/// Whether each element of `copy` is a copy of the element of `from` at the
/// same position.
pub open spec fn copies<T: Clone>(from: Seq<T>, copy: Seq<T>) -> bool {
    &&& copy.len() == from.len()
    &&& forall|i: int| 0 <= i < from.len() ==> vstd::pervasive::cloned(from[i], #[trigger] copy[i])
}

impl<T: Clone + Default> AppendVec<T> {
    /// How many elements the vector can hold without being replaced.
    pub closed spec fn spec_capacity(&self) -> usize {
        self.capacity
    }

    pub closed spec fn wf(&self) -> bool {
        self.vec@.len() <= self.capacity
    }

    /// The capacity of the vector that replaces one of capacity `c`.
    pub open spec fn grown(c: usize) -> usize {
        if c * 2 > usize::MAX {
            usize::MAX
        } else {
            (c * 2) as usize
        }
    }

    /// Twice the capacity, saturating at the largest capacity.
    fn grown_capacity(c: usize) -> (res: usize)
        ensures
            res == Self::grown(c),
    {
        match c.checked_mul(2) {
            Some(x) => x,
            None => usize::MAX,
        }
    }

    pub fn new(capacity: usize) -> (res: Self)
        ensures
            res.wf(),
            res@ == Seq::<T>::empty(),
            res.spec_capacity() == capacity,
    {
        AppendVec { vec: Vec::new(), capacity }
    }

    /// The elements, in order.
    pub fn iter(&self) -> (res: Vec<&T>)
        ensures
            res@.len() == self@.len(),
            forall|i: int| 0 <= i < res@.len() ==> *res@[i] == self@[i],
    {
        let n = self.vec.len();
        let mut out: Vec<&T> = Vec::new();
        let mut i: usize = 0;
        while i < n
            invariant
                n == self@.len(),
                i <= n,
                out@.len() == i,
                forall|k: int| 0 <= k < i ==> *out@[k] == self@[k],
            decreases n - i,
        {
            out.push(&self.vec[i]);
            i = i + 1;
        }
        out
    }

    pub fn len(&self) -> (res: usize)
        ensures
            res == self@.len(),
    {
        self.vec.len()
    }

    /// The element at index `i`.
    pub fn get(&self, i: usize) -> (res: &T)
        requires
            i < self@.len(),
        ensures
            *res == self@[i as int],
    {
        &self.vec[i]
    }

    /// A vector of capacity `capacity` holding copies of these elements.
    fn copy_with_capacity(&self, capacity: usize) -> (res: Self)
        requires
            self@.len() <= capacity,
        ensures
            res.wf(),
            res.spec_capacity() == capacity,
            copies(self@, res@),
    {
        let n = self.vec.len();
        let mut vec: Vec<T> = Vec::new();
        let mut i: usize = 0;
        while i < n
            invariant
                n == self@.len(),
                i <= n,
                vec@.len() == i,
                forall|k: int| 0 <= k < i ==> vstd::pervasive::cloned(self@[k], #[trigger] vec@[k]),
            decreases n - i,
        {
            vec.push(self.vec[i].clone());
            i = i + 1;
        }
        AppendVec { vec, capacity }
    }

    /// Pushes the element into spare capacity and returns None, or leaves
    /// this vector as it is and returns a vector of larger capacity that
    /// holds copies of its elements and then the new one.
    pub fn push(&mut self, value: T) -> (res: Option<Self>)
        requires
            old(self).wf(),
            old(self).spec_capacity() > 0,
            old(self)@.len() < usize::MAX,
        ensures
            final(self).wf(),
            old(self).spec_capacity() > old(self)@.len() ==> res is None && final(self)@ == old(self)@.push(value) && final(self).spec_capacity() == old(self).spec_capacity(),
            old(self).spec_capacity() <= old(self)@.len() ==> *final(self) == *old(self) && (
            res matches Some(v) && v.wf() && v.spec_capacity() == Self::grown(
                old(self).spec_capacity(),
            ) && v@.len() == old(self)@.len() + 1 && copies(
                old(self)@,
                v@.take(old(self)@.len() as int),
            ) && v@.last() == value),
    {
        if self.capacity > self.vec.len() {
            self.vec.push(value);
            return None;
        }
        let mut new = self.copy_with_capacity(Self::grown_capacity(self.capacity));
        let ghost before = new.vec@;
        assert(self@.len() < Self::grown(self.capacity));
        new.vec.push(value);
        proof {
            assert(new.vec@.take(self@.len() as int) =~= before);
        }
        Some(new)
    }

    /// Pushes copies of the elements into spare capacity, if there is room
    /// for them with some to spare, and returns None; else leaves this
    /// vector as it is and returns a vector of larger capacity holding
    /// copies of its elements, and then copies of the new ones where they
    /// fit there with some to spare.
    pub fn append(&mut self, items: &[T]) -> (res: Option<Self>)
        requires
            old(self).wf(),
        ensures
            final(self).wf(),
            old(self).spec_capacity() - old(self)@.len() > items@.len() ==> res is None && final(self).spec_capacity() == old(self).spec_capacity() && final(self)@.len() == old(self)@.len()
                + items@.len() && final(self)@.take(old(self)@.len() as int) == old(self)@
                && copies(items@, final(self)@.skip(old(self)@.len() as int)),
            old(self).spec_capacity() - old(self)@.len() <= items@.len() ==> *final(self) == *old(self) && (res matches Some(v) && v.wf() && v.spec_capacity() == Self::grown(
                old(self).spec_capacity(),
            ) && copies(old(self)@, v@.take(old(self)@.len() as int)) && (Self::grown(
                old(self).spec_capacity(),
            ) - old(self)@.len() > items@.len() ==> v@.len() == old(self)@.len() + items@.len()
                && copies(items@, v@.skip(old(self)@.len() as int))) && (Self::grown(
                old(self).spec_capacity(),
            ) - old(self)@.len() <= items@.len() ==> v@.len() == old(self)@.len())),
    {
        let len = self.vec.len();
        if self.capacity - len > items.len() {
            self.push_copies(items);
            return None;
        }
        let mut new = self.copy_with_capacity(Self::grown_capacity(self.capacity));
        if new.capacity - len > items.len() {
            new.push_copies(items);
        }
        proof {
            assert(new@.take(len as int).len() == len);
        }
        Some(new)
    }

    /// Pushes copies of the items, which fit.
    fn push_copies(&mut self, items: &[T])
        requires
            old(self)@.len() + items@.len() <= old(self).spec_capacity(),
        ensures
            final(self).wf(),
            final(self).spec_capacity() == old(self).spec_capacity(),
            final(self)@.len() == old(self)@.len() + items@.len(),
            final(self)@.take(old(self)@.len() as int) == old(self)@,
            copies(items@, final(self)@.skip(old(self)@.len() as int)),
    {
        let ghost start = self.vec@;
        let n = items.len();
        let mut i: usize = 0;
        while i < n
            invariant
                n == items@.len(),
                i <= n,
                start.len() + items@.len() <= self.capacity,
                self.capacity == old(self).capacity,
                start == old(self)@,
                self.vec@.len() == start.len() + i,
                self.vec@.take(start.len() as int) == start,
                forall|k: int|
                    0 <= k < i ==> vstd::pervasive::cloned(
                        items@[k],
                        #[trigger] self.vec@[start.len() + k],
                    ),
            decreases n - i,
        {
            let ghost before = self.vec@;
            self.vec.push(items[i].clone());
            proof {
                assert(self.vec@.take(start.len() as int) =~= before.take(start.len() as int));
            }
            i = i + 1;
        }
        proof {
            let tail = self.vec@.skip(start.len() as int);
            assert forall|k: int| 0 <= k < items@.len() implies vstd::pervasive::cloned(
                items@[k],
                #[trigger] tail[k],
            ) by {
                assert(tail[k] == self.vec@[start.len() + k]);
            }
        }
    }
}

} // verus!
