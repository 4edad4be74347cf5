//! Capacity, ring indexing, and the conversions between a complete array and slot storage.
//!
//! A slot is an `Option`: `Some` while it holds a live element, `None` while it is
//! vacant. The conversions in this file are the only places where a complete array
//! becomes slot storage or slot storage becomes a complete array.

use vstd::prelude::*;

verus! {

/// The capacity of every container over an array of `N` elements.
pub fn check_len<const N: usize>() -> (cap: usize)
    ensures
        cap == N,
{
    N
}

/// The physical slot of a logical offset in a ring of `cap` slots: the offset itself
/// below `cap`, and the offset less `cap` from there on.
pub open spec fn phys_idx_spec(logical: int, cap: int) -> int {
    if logical >= cap {
        logical - cap
    } else {
        logical
    }
}

/// Folds a logical offset from the doubled range `[0, 2 * cap)` back into `[0, cap)`.
///
/// A ring buffer adds to or subtracts from an offset without regard to the wrap and
/// then folds the result once. With `cap == 0` the only offset is `0`, which stays `0`.
pub fn phys_idx(logical: usize, cap: usize) -> (phys: usize)
    requires
        logical == 0 || logical < 2 * cap,
    ensures
        phys == phys_idx_spec(logical as int, cap as int),
        phys == 0 || phys < cap,
        cap > 0 ==> phys < cap,
{
    if logical >= cap {
        logical - cap
    } else {
        logical
    }
}

/// In a ring that has slots, folding an offset of the doubled range is taking its
/// remainder by the capacity.
pub proof fn lemma_phys_idx_is_remainder(logical: int, cap: int)
    requires
        0 <= logical < 2 * cap,
    ensures
        0 <= phys_idx_spec(logical, cap) < cap,
        phys_idx_spec(logical, cap) == logical % cap,
{
    if logical >= cap {
        vstd::arithmetic::div_mod::lemma_small_mod((logical - cap) as nat, cap as nat);
        vstd::arithmetic::div_mod::lemma_mod_add_multiples_vanish(logical - cap, cap);
    } else {
        vstd::arithmetic::div_mod::lemma_small_mod(logical as nat, cap as nat);
    }
}

/// Calls `core::array::from_fn`, which builds an array by calling `f` once with each
/// index, walking forward. The contract claims that `f` is called on every index below
/// `N` and on nothing else, and that element `i` of the result is what `f` returned
/// for `i`.
#[verifier::external_body]
pub(crate) fn array_from_fn<T, F: Fn(usize) -> T, const N: usize>(f: F) -> (arr: [T; N])
    requires
        forall|i: usize| i < N ==> f.requires((i,)),
    ensures
        forall|i: int| 0 <= i < N ==> f.ensures((i as usize,), #[trigger] arr@[i]),
{
    core::array::from_fn(f)
}

/// Calls the array method `map`, which applies `f` to each element in order and
/// returns the results as an array of the same length. The contract claims that `f`
/// is called on the elements of `src` and on nothing else, and that element `i` of the
/// result is what `f` returned for element `i` of `src`.
#[verifier::external_body]
pub(crate) fn array_map<T, U, F: Fn(T) -> U, const N: usize>(src: [T; N], f: F) -> (dst: [U; N])
    requires
        forall|i: int| 0 <= i < N ==> f.requires((#[trigger] src@[i],)),
    ensures
        forall|i: int| 0 <= i < N ==> f.ensures((src@[i],), #[trigger] dst@[i]),
{
    src.map(f)
}

/// Calls the slice method `split_at_mut`, which divides a mutable slice in two at
/// `mid`: the first part is the elements below `mid`, the second the rest. The
/// contract claims that much, that neither part can change its length, and that the
/// slice ends as the two parts end, one after the other. `split_at_mut` panics if
/// `mid` is beyond the end, which the precondition rules out.
#[verifier::external_body]
pub(crate) fn slice_split_at_mut<T>(s: &mut [T], mid: usize) -> (parts: (&mut [T], &mut [T]))
    requires
        mid <= old(s)@.len(),
    ensures
        parts.0@ == old(s)@.subrange(0, mid as int),
        parts.1@ == old(s)@.subrange(mid as int, old(s)@.len() as int),
        final(parts.0)@.len() == mid,
        final(parts.1)@.len() == old(s)@.len() - mid,
        final(s)@ == final(parts.0)@ + final(parts.1)@,
{
    s.split_at_mut(mid)
}

/// Slot storage with every slot vacant.
pub fn arr_vacant<T, const N: usize>() -> (slots: [Option<T>; N])
    ensures
        forall|i: int| 0 <= i < N ==> (#[trigger] slots@[i]) is None,
{
    let vacant = |i: usize| -> (slot: Option<T>)
        ensures
            slot is None,
        {
            None
        };
    array_from_fn(vacant)
}

/// Turns a complete array into slot storage in which every slot is live and holds the
/// element that stood at its index.
pub fn arr_conv<T, const N: usize>(src: [T; N]) -> (slots: [Option<T>; N])
    ensures
        forall|i: int| 0 <= i < N ==> (#[trigger] slots@[i]) == Some(src@[i]),
{
    let occupy = |item: T| -> (slot: Option<T>)
        ensures
            slot == Some(item),
        {
            Some(item)
        };
    array_map(src, occupy)
}

/// Turns slot storage in which every slot is live back into the complete array of the
/// elements it holds.
pub fn arr_conv_live<T, const N: usize>(slots: [Option<T>; N]) -> (dst: [T; N])
    requires
        forall|i: int| 0 <= i < N ==> (#[trigger] slots@[i]) is Some,
    ensures
        forall|i: int| 0 <= i < N ==> (#[trigger] slots@[i]) == Some(dst@[i]),
{
    let release = |slot: Option<T>| -> (item: T)
        requires
            slot is Some,
        ensures
            slot == Some(item),
        {
            slot.unwrap()
        };
    array_map(slots, release)
}

} // verus!
