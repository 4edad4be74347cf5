//! A vector of at most `N` elements, stored in place.

use crate::array::arr_utils::{arr_conv, arr_conv_live, arr_vacant, check_len, slice_split_at_mut};
use crate::array::bounded_seq::{pop_back, push_back};
use vstd::prelude::*;

verus! {

/// What an [`ArrVec`] is made of: `N` slots and the number of live ones.
///
/// The live elements are a prefix of the array: slot `i` is live exactly when
/// `i < len`, and only a live slot holds an element.
pub struct ArrVecRepr<T, const N: usize> {
    len: usize,
    arr: [Option<T>; N],
}

impl<T, const N: usize> ArrVecRepr<T, N> {
    /// The length is within the capacity, and exactly the slots below it are live.
    pub closed spec fn wf(&self) -> bool {
        &&& self.len <= N
        &&& forall|i: int| 0 <= i < N ==> ((#[trigger] self.arr@[i]) is Some <==> i < self.len)
    }
}

impl<T, const N: usize> View for ArrVecRepr<T, N> {
    type V = Seq<T>;

    /// The live elements, in index order.
    closed spec fn view(&self) -> Seq<T> {
        Seq::new(self.len as nat, |i: int| self.arr@[i]->0)
    }
}

/// A vector with room for `N` elements and no storage but its own array.
///
/// Its view is the sequence of its live elements, oldest first; elements enter and
/// leave at the end of that sequence. When the vector is dropped its live elements are
/// dropped in index order, and nothing else is.
pub struct ArrVec<T, const N: usize>(ArrVecRepr<T, N>);

impl<T, const N: usize> View for ArrVec<T, N> {
    type V = Seq<T>;

    closed spec fn view(&self) -> Seq<T> {
        self.0@
    }
}

impl<T, const N: usize> ArrVec<T, N> {
    /// The invariant of the vector; every constructor establishes it and every
    /// operation keeps it.
    pub closed spec fn wf(&self) -> bool {
        self.0.wf()
    }

    /// A well-formed vector never holds more than `N` elements.
    pub proof fn lemma_len_within_capacity(&self)
        requires
            self.wf(),
        ensures
            0 <= self@.len() <= N,
    {
    }

    fn from_repr(repr: ArrVecRepr<T, N>) -> (v: Self)
        requires
            repr.wf(),
        ensures
            v.wf(),
            v@ == repr@,
    {
        ArrVec(repr)
    }

    fn into_repr(self) -> (repr: ArrVecRepr<T, N>)
        requires
            self.wf(),
        ensures
            repr.wf(),
            repr@ == self@,
    {
        self.0
    }

    /// The empty vector.
    pub fn new() -> (v: Self)
        ensures
            v.wf(),
            v@ == Seq::<T>::empty(),
    {
        Self::from_repr(ArrVecRepr { len: 0, arr: arr_vacant() })
    }

    /// The full vector that holds the elements of `full`, in the same order.
    pub fn full(full: [T; N]) -> (v: Self)
        ensures
            v.wf(),
            v@ == full@,
    {
        Self::from_repr(ArrVecRepr { len: check_len::<N>(), arr: arr_conv(full) })
    }

    /// The live slots, and no others, in index order. Each of them holds an element.
    pub fn as_slice(&self) -> (slots: &[Option<T>])
        requires
            self.wf(),
        ensures
            slots@ == self@.map_values(|item: T| Some(item)),
    {
        vstd::slice::slice_subrange(self.0.arr.as_slice(), 0, self.0.len)
    }

    /// The live slots, and no others, for changing the elements in place.
    pub fn as_mut_slice(&mut self) -> (slots: &mut [Option<T>])
        requires
            old(self).wf(),
        ensures
            slots@ == old(self)@.map_values(|item: T| Some(item)),
            final(slots)@.len() == slots@.len(),
            final(self).wf() <==> forall|i: int|
                0 <= i < final(slots)@.len() ==> (#[trigger] final(slots)@[i]) is Some,
            final(self).wf() ==> final(self)@ == final(slots)@.map_values(
                |slot: Option<T>| slot->0,
            ),
    {
        let len: usize = self.0.len;
        let (live, rest) = slice_split_at_mut(&mut self.0.arr, len);
        proof {
            assert(final(rest)@ == rest@);
            let slots = final(live)@ + rest@;
            assert(forall|i: int| 0 <= i < len ==> #[trigger] final(live)@[i] == slots[i]);
            assert(forall|i: int| len <= i < N ==> #[trigger] slots[i] == rest@[i - len]);
        }
        live
    }

    /// The number of live elements.
    pub fn len(&self) -> (len: usize)
        requires
            self.wf(),
        ensures
            len == self@.len(),
            len <= N,
    {
        self.0.len
    }

    /// Whether the vector holds no element.
    pub fn is_empty(&self) -> (empty: bool)
        requires
            self.wf(),
        ensures
            empty == (self@.len() == 0),
    {
        self.len() == 0
    }

    /// The number of elements the vector has room for: `N`, whatever it holds.
    pub fn capacity(&self) -> (cap: usize)
        ensures
            cap == N,
    {
        check_len::<N>()
    }

    /// Whether the vector has no room left.
    pub fn is_full(&self) -> (full: bool)
        requires
            self.wf(),
        ensures
            full == (self@.len() == N),
    {
        self.len() == check_len::<N>()
    }

    /// Gives the elements of a full vector back as a complete array, in the same order.
    pub fn into_full(self) -> (full: [T; N])
        requires
            self.wf(),
            self@.len() == N,
        ensures
            full@ == self@,
    {
        arr_conv_live(self.into_repr().arr)
    }

    /// Appends `item` to a vector that is known to have room.
    pub fn push_alt(&mut self, item: T)
        requires
            old(self).wf(),
            old(self)@.len() < N,
        ensures
            final(self).wf(),
            final(self)@ == old(self)@.push(item),
    {
        self.0.arr[self.0.len] = Some(item);
        self.0.len += 1;
    }

    /// Appends `item`, or hands it back if the vector is full.
    pub fn push(&mut self, item: T) -> (r: Result<(), T>)
        requires
            old(self).wf(),
        ensures
            final(self).wf(),
            (final(self)@, r) == push_back(old(self)@, item, N as nat),
    {
        if self.is_full() {
            Err(item)
        } else {
            self.push_alt(item);
            Ok(())
        }
    }

    /// Takes the last element off and returns it; returns nothing if the vector is
    /// empty.
    pub fn pop(&mut self) -> (r: Option<T>)
        requires
            old(self).wf(),
        ensures
            final(self).wf(),
            (final(self)@, r) == pop_back(old(self)@),
    {
        if self.is_empty() {
            return None;
        }
        self.0.len -= 1;
        self.0.arr[self.0.len].take()
    }
}

/// A complete array that `full` takes in and `into_full` gives back comes back as it
/// was: the vector in between may be handed to `into_full`, and the array that comes
/// out equals the one that went in.
pub proof fn lemma_full_then_into_full<T, const N: usize>(
    src: [T; N],
    v: ArrVec<T, N>,
    dst: [T; N],
)
    requires
        call_ensures(ArrVec::<T, N>::full, (src,), v),
        call_ensures(ArrVec::<T, N>::into_full, (v,), dst),
    ensures
        call_requires(ArrVec::<T, N>::into_full, (v,)),
        dst == src,
{
    assert(dst@ =~= src@);
    assert(dst =~= src);
}

} // verus!
