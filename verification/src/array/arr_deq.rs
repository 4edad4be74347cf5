//! A double-ended queue of at most `N` elements, stored in place as a ring.

use crate::array::arr_utils::{arr_vacant, check_len, phys_idx, phys_idx_spec};
use crate::array::bounded_seq::{pop_back, pop_front, push_back, push_front};
use vstd::prelude::*;

verus! {

/// How far slot `phys` lies behind slot `head`, walking forward round a ring of `cap`
/// slots.
pub open spec fn ring_offset(phys: int, head: int, cap: int) -> int {
    if phys >= head {
        phys - head
    } else {
        phys + cap - head
    }
}

/// What an [`ArrDeq`] is made of: `N` slots, the slot of the front element, and the
/// number of live slots.
///
/// The live elements are a window of the ring: it starts at slot `head` and runs
/// forward over `len` slots, wrapping from the last slot of the array to the first.
/// A slot is live exactly when it lies in the window, and only a live slot holds an
/// element.
pub struct ArrDeqRepr<T, const N: usize> {
    head: usize,
    len: usize,
    arr: [Option<T>; N],
}

impl<T, const N: usize> ArrDeqRepr<T, N> {
    /// The doubled range of offsets fits the machine's integers, the window starts at
    /// a slot of the ring and is no longer than the ring, and exactly its slots are
    /// live.
    pub closed spec fn wf(&self) -> bool {
        &&& 2 * N <= usize::MAX
        &&& self.len <= N
        &&& self.head == 0 || self.head < N
        &&& forall|p: int|
            0 <= p < N ==> ((#[trigger] self.arr@[p]) is Some <==> ring_offset(
                p,
                self.head as int,
                N as int,
            ) < self.len)
    }
}

impl<T, const N: usize> View for ArrDeqRepr<T, N> {
    type V = Seq<T>;

    /// The live elements, from the front of the window to its back.
    closed spec fn view(&self) -> Seq<T> {
        Seq::new(
            self.len as nat,
            |i: int| self.arr@[phys_idx_spec(self.head + i, N as int)]->0,
        )
    }
}

/// A double-ended queue with room for `N` elements and no storage but its own array.
///
/// Its view is the sequence of its live elements from front to back. Elements enter
/// and leave at either end, and no operation moves another element. When the queue is
/// dropped its live elements are dropped, and nothing else is.
pub struct ArrDeq<T, const N: usize>(ArrDeqRepr<T, N>);

impl<T, const N: usize> View for ArrDeq<T, N> {
    type V = Seq<T>;

    closed spec fn view(&self) -> Seq<T> {
        self.0@
    }
}

impl<T, const N: usize> ArrDeq<T, N> {
    /// The invariant of the queue; the constructor establishes it and every operation
    /// keeps it.
    pub closed spec fn wf(&self) -> bool {
        self.0.wf()
    }

    /// A well-formed queue never holds more than `N` elements.
    pub proof fn lemma_len_within_capacity(&self)
        requires
            self.wf(),
        ensures
            0 <= self@.len() <= N,
    {
    }

    /// The empty queue. Offsets into the ring are taken from the doubled range
    /// `[0, 2 * N)`, which has to fit a `usize`.
    pub fn new() -> (q: Self)
        requires
            2 * N <= usize::MAX,
        ensures
            q.wf(),
            q@ == Seq::<T>::empty(),
    {
        ArrDeq(ArrDeqRepr { head: 0, len: 0, arr: arr_vacant() })
    }

    /// The number of live elements.
    pub fn len(&self) -> (len: usize)
        requires
            self.wf(),
        ensures
            len == self@.len(),
            len <= N,
    {
        self.0.len
    }

    /// Whether the queue holds no element.
    pub fn is_empty(&self) -> (empty: bool)
        requires
            self.wf(),
        ensures
            empty == (self@.len() == 0),
    {
        self.len() == 0
    }

    /// The number of elements the queue has room for: `N`, whatever it holds.
    pub fn capacity(&self) -> (cap: usize)
        ensures
            cap == N,
    {
        check_len::<N>()
    }

    /// Whether the queue has no room left.
    pub fn is_full(&self) -> (full: bool)
        requires
            self.wf(),
        ensures
            full == (self@.len() == N),
    {
        self.len() == check_len::<N>()
    }

    /// Puts `item` in front of the first element, or hands it back if the queue is
    /// full.
    pub fn push_front(&mut self, item: T) -> (r: Result<(), T>)
        requires
            old(self).wf(),
        ensures
            final(self).wf(),
            (final(self)@, r) == push_front(old(self)@, item, N as nat),
    {
        if self.is_full() {
            return Err(item);
        }
        let cap: usize = check_len::<N>();
        let head: usize = phys_idx(self.0.head + cap - 1, cap);
        self.0.arr[head] = Some(item);
        self.0.head = head;
        self.0.len += 1;
        assert(self@ =~= seq![item] + old(self)@);
        Ok(())
    }

    /// Puts `item` behind the last element, or hands it back if the queue is full.
    pub fn push_back(&mut self, item: T) -> (r: Result<(), T>)
        requires
            old(self).wf(),
        ensures
            final(self).wf(),
            (final(self)@, r) == push_back(old(self)@, item, N as nat),
    {
        if self.is_full() {
            return Err(item);
        }
        let back: usize = phys_idx(self.0.head + self.0.len, check_len::<N>());
        self.0.arr[back] = Some(item);
        self.0.len += 1;
        assert(self@ =~= old(self)@.push(item));
        Ok(())
    }

    /// Takes the first element off and returns it; returns nothing if the queue is
    /// empty.
    pub fn pop_front(&mut self) -> (r: Option<T>)
        requires
            old(self).wf(),
        ensures
            final(self).wf(),
            (final(self)@, r) == pop_front(old(self)@),
    {
        if self.is_empty() {
            return None;
        }
        let front: usize = self.0.head;
        let item = self.0.arr[front].take();
        self.0.head = phys_idx(front + 1, check_len::<N>());
        self.0.len -= 1;
        assert(self@ =~= old(self)@.drop_first());
        item
    }

    /// Takes the last element off and returns it; returns nothing if the queue is
    /// empty.
    pub fn pop_back(&mut self) -> (r: Option<T>)
        requires
            old(self).wf(),
        ensures
            final(self).wf(),
            (final(self)@, r) == pop_back(old(self)@),
    {
        if self.is_empty() {
            return None;
        }
        self.0.len -= 1;
        let back: usize = phys_idx(self.0.head + self.0.len, check_len::<N>());
        let item = self.0.arr[back].take();
        assert(self@ =~= old(self)@.drop_last());
        item
    }
}

} // verus!
