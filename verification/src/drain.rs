//! Taking the elements of a container one at a time.

use crate::array::{ArrDeq, ArrVec};
use vstd::prelude::*;

verus! {

/// A container that has been handed over to be emptied element by element.
///
/// A drain is either emptied with `pop_next` and then ended with `discard`, or simply
/// dropped. A drain that is dropped early drops the container with it, and the
/// container drops the elements that are still live, each of them once.
pub struct ArrDrop<T>(pub T);

impl<T, const N: usize> ArrDrop<[T; N]> {
    /// Takes a complete array over as a full vector that is ready to be drained.
    pub fn enter(self) -> (drain: ArrDrop<ArrVec<T, N>>)
        ensures
            drain.wf(),
            drain.0@ == self.0@,
            drain.remaining() == self.0@.reverse(),
    {
        ArrDrop(ArrVec::full(self.0))
    }
}

impl<T, const N: usize> ArrDrop<ArrVec<T, N>> {
    /// The drain is valid when the vector is.
    pub open spec fn wf(&self) -> bool {
        self.0.wf()
    }

    /// The elements still to come, in the order in which `pop_next` gives them out. A
    /// vector gives up its last element first.
    pub open spec fn remaining(&self) -> Seq<T> {
        self.0@.reverse()
    }

    /// A vector that is already wrapped is ready as it is.
    pub fn enter(self) -> (drain: Self)
        ensures
            drain == self,
    {
        self
    }

    /// Whether an element is left.
    pub fn has_next(&self) -> (more: bool)
        requires
            self.wf(),
        ensures
            more == (self.remaining().len() > 0),
    {
        !self.0.is_empty()
    }

    /// Removes the next element and gives it to the caller. The caller has to know
    /// that one is left.
    pub fn pop_next(&mut self) -> (item: T)
        requires
            old(self).wf(),
            old(self).remaining().len() > 0,
        ensures
            final(self).wf(),
            item == old(self).remaining().first(),
            final(self).remaining() == old(self).remaining().drop_first(),
            item == old(self).0@.last(),
            final(self).0@ == old(self).0@.drop_last(),
    {
        let item = self.0.pop().unwrap();
        assert(self.0@.reverse() =~= old(self).0@.reverse().drop_first());
        item
    }

    /// Ends a drain from which every element has been taken.
    pub fn discard(self)
        requires
            self.wf(),
            self.remaining().len() == 0,
    {
    }
}

impl<T, const N: usize> ArrDrop<ArrDeq<T, N>> {
    /// The drain is valid when the queue is.
    pub open spec fn wf(&self) -> bool {
        self.0.wf()
    }

    /// The elements still to come, in the order in which `pop_next` gives them out. A
    /// queue gives up its front element first.
    pub open spec fn remaining(&self) -> Seq<T> {
        self.0@
    }

    /// A queue that is already wrapped is ready as it is.
    pub fn enter(self) -> (drain: Self)
        ensures
            drain == self,
    {
        self
    }

    /// Whether an element is left.
    pub fn has_next(&self) -> (more: bool)
        requires
            self.wf(),
        ensures
            more == (self.remaining().len() > 0),
    {
        !self.0.is_empty()
    }

    /// Removes the next element and gives it to the caller. The caller has to know
    /// that one is left.
    pub fn pop_next(&mut self) -> (item: T)
        requires
            old(self).wf(),
            old(self).remaining().len() > 0,
        ensures
            final(self).wf(),
            item == old(self).remaining().first(),
            final(self).remaining() == old(self).remaining().drop_first(),
    {
        self.0.pop_front().unwrap()
    }

    /// Ends a drain from which every element has been taken.
    pub fn discard(self)
        requires
            self.wf(),
            self.remaining().len() == 0,
    {
    }
}

} // verus!

