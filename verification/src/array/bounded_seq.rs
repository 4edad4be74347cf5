//! The model of both containers: a sequence of at most `cap` elements, and what an
//! operation at either end makes of it.
//!
//! Each function returns the sequence after the operation together with what the
//! operation hands back to its caller. The containers state their contracts with these
//! functions, so what is proved of them here holds of the containers.

use vstd::prelude::*;

verus! {

/// Appends `item` if there is room; if there is none, leaves the sequence as it is and
/// hands the item back.
pub open spec fn push_back<T>(s: Seq<T>, item: T, cap: nat) -> (Seq<T>, Result<(), T>) {
    if s.len() < cap {
        (s.push(item), Ok(()))
    } else {
        (s, Err(item))
    }
}

/// Puts `item` in front if there is room; if there is none, leaves the sequence as it
/// is and hands the item back.
pub open spec fn push_front<T>(s: Seq<T>, item: T, cap: nat) -> (Seq<T>, Result<(), T>) {
    if s.len() < cap {
        (seq![item] + s, Ok(()))
    } else {
        (s, Err(item))
    }
}

/// Takes the last element off; an empty sequence stays as it is and gives nothing.
pub open spec fn pop_back<T>(s: Seq<T>) -> (Seq<T>, Option<T>) {
    if s.len() > 0 {
        (s.drop_last(), Some(s.last()))
    } else {
        (s, None)
    }
}

/// Takes the first element off; an empty sequence stays as it is and gives nothing.
pub open spec fn pop_front<T>(s: Seq<T>) -> (Seq<T>, Option<T>) {
    if s.len() > 0 {
        (s.drop_first(), Some(s.first()))
    } else {
        (s, None)
    }
}

/// A push within capacity succeeds and lengthens the sequence by exactly one, at
/// either end.
pub proof fn lemma_push_lengthens<T>(s: Seq<T>, item: T, cap: nat)
    requires
        s.len() < cap,
    ensures
        push_back(s, item, cap).1 == Ok::<(), T>(()),
        push_back(s, item, cap).0.len() == s.len() + 1,
        push_front(s, item, cap).1 == Ok::<(), T>(()),
        push_front(s, item, cap).0.len() == s.len() + 1,
{
}

/// After a push at the back that succeeds, a pop at the back gives the pushed item
/// back unchanged and leaves the sequence as it was before the push.
pub proof fn lemma_push_back_then_pop_back<T>(s: Seq<T>, item: T, cap: nat)
    requires
        s.len() < cap,
    ensures
        pop_back(push_back(s, item, cap).0) == (s, Some(item)),
{
    assert(s.push(item).drop_last() =~= s);
}

/// After a push at the front that succeeds, a pop at the front gives the pushed item
/// back unchanged and leaves the sequence as it was before the push.
pub proof fn lemma_push_front_then_pop_front<T>(s: Seq<T>, item: T, cap: nat)
    requires
        s.len() < cap,
    ensures
        pop_front(push_front(s, item, cap).0) == (s, Some(item)),
{
    assert((seq![item] + s).drop_first() =~= s);
}

/// A push onto a full sequence fails at either end: the sequence, and so its length,
/// stays as it was, and the item comes back unchanged.
pub proof fn lemma_push_full_fails<T>(s: Seq<T>, item: T, cap: nat)
    requires
        s.len() >= cap,
    ensures
        push_back(s, item, cap) == (s, Err::<(), T>(item)),
        push_front(s, item, cap) == (s, Err::<(), T>(item)),
{
}

/// A pop from an empty sequence fails at either end: it gives nothing, and the
/// sequence, and so its length, stays as it was.
pub proof fn lemma_pop_empty_fails<T>(s: Seq<T>)
    requires
        s.len() == 0,
    ensures
        pop_back(s) == (s, None::<T>),
        pop_front(s) == (s, None::<T>),
{
}

/// No operation takes a sequence that is within its capacity beyond it.
pub proof fn lemma_stays_within_capacity<T>(s: Seq<T>, item: T, cap: nat)
    requires
        s.len() <= cap,
    ensures
        push_back(s, item, cap).0.len() <= cap,
        push_front(s, item, cap).0.len() <= cap,
        pop_back(s).0.len() <= cap,
        pop_front(s).0.len() <= cap,
{
}

/// The sequence after each of `items` has been pushed at the back, first to last.
pub open spec fn push_back_all<T>(s: Seq<T>, items: Seq<T>, cap: nat) -> Seq<T>
    decreases items.len(),
{
    if items.len() == 0 {
        s
    } else {
        push_back_all(push_back(s, items.first(), cap).0, items.drop_first(), cap)
    }
}

/// The sequence after each of `items` has been pushed at the front, first to last.
pub open spec fn push_front_all<T>(s: Seq<T>, items: Seq<T>, cap: nat) -> Seq<T>
    decreases items.len(),
{
    if items.len() == 0 {
        s
    } else {
        push_front_all(push_front(s, items.first(), cap).0, items.drop_first(), cap)
    }
}

/// The sequence after `n` pops at the back, and the elements they gave, first popped
/// first. Popping stops early where the sequence runs empty.
pub open spec fn pop_back_n<T>(s: Seq<T>, n: nat) -> (Seq<T>, Seq<T>)
    decreases n,
{
    if n == 0 || s.len() == 0 {
        (s, Seq::empty())
    } else {
        let rest = pop_back_n(pop_back(s).0, (n - 1) as nat);
        (rest.0, seq![s.last()] + rest.1)
    }
}

/// The sequence after `n` pops at the front, and the elements they gave, first popped
/// first. Popping stops early where the sequence runs empty.
pub open spec fn pop_front_n<T>(s: Seq<T>, n: nat) -> (Seq<T>, Seq<T>)
    decreases n,
{
    if n == 0 || s.len() == 0 {
        (s, Seq::empty())
    } else {
        let rest = pop_front_n(pop_front(s).0, (n - 1) as nat);
        (rest.0, seq![s.first()] + rest.1)
    }
}

/// Pushes at the back that stay within capacity all succeed: the items stand behind
/// what was there, in the order in which they were pushed.
pub proof fn lemma_push_back_all<T>(s: Seq<T>, items: Seq<T>, cap: nat)
    requires
        s.len() + items.len() <= cap,
    ensures
        push_back_all(s, items, cap) == s + items,
        push_back_all(s, items, cap).len() == s.len() + items.len(),
    decreases items.len(),
{
    if items.len() == 0 {
        assert(s + items =~= s);
    } else {
        lemma_push_back_all(s.push(items.first()), items.drop_first(), cap);
        assert(s.push(items.first()) + items.drop_first() =~= s + items);
    }
}

/// Pushes at the front that stay within capacity all succeed: the items stand before
/// what was there, the last one pushed in front.
pub proof fn lemma_push_front_all<T>(s: Seq<T>, items: Seq<T>, cap: nat)
    requires
        s.len() + items.len() <= cap,
    ensures
        push_front_all(s, items, cap) == items.reverse() + s,
        push_front_all(s, items, cap).len() == s.len() + items.len(),
    decreases items.len(),
{
    if items.len() == 0 {
        assert(items.reverse() + s =~= s);
    } else {
        lemma_push_front_all(seq![items.first()] + s, items.drop_first(), cap);
        assert(items.drop_first().reverse() + (seq![items.first()] + s) =~= items.reverse() + s);
    }
}

/// Pops at the back give the last `n` elements, the last one first, and leave the
/// elements before them.
pub proof fn lemma_pop_back_n<T>(s: Seq<T>, n: nat)
    requires
        n <= s.len(),
    ensures
        pop_back_n(s, n).0 == s.take(s.len() - n),
        pop_back_n(s, n).1 == s.skip(s.len() - n).reverse(),
    decreases n,
{
    if n == 0 || s.len() == 0 {
        assert(s.take(s.len() - n) =~= s);
        assert(s.skip(s.len() - n).reverse() =~= Seq::<T>::empty());
    } else {
        lemma_pop_back_n(s.drop_last(), (n - 1) as nat);
        let rest = pop_back_n(s.drop_last(), (n - 1) as nat);
        assert(s.drop_last().take(s.len() - n) =~= s.take(s.len() - n));
        assert(seq![s.last()] + s.drop_last().skip(s.len() - n).reverse() =~= s.skip(
            s.len() - n,
        ).reverse());
    }
}

/// Pops at the front give the first `n` elements in their order and leave the
/// elements behind them.
pub proof fn lemma_pop_front_n<T>(s: Seq<T>, n: nat)
    requires
        n <= s.len(),
    ensures
        pop_front_n(s, n).0 == s.skip(n as int),
        pop_front_n(s, n).1 == s.take(n as int),
    decreases n,
{
    if n == 0 || s.len() == 0 {
        assert(s.skip(n as int) =~= s);
        assert(s.take(n as int) =~= Seq::<T>::empty());
    } else {
        lemma_pop_front_n(s.drop_first(), (n - 1) as nat);
        assert(s.drop_first().skip(n - 1) =~= s.skip(n as int));
        assert(seq![s.first()] + s.drop_first().take(n - 1) =~= s.take(n as int));
    }
}

/// Stack order at the back: after any pushes within capacity, as many pops give the
/// pushed items back unchanged, the last one pushed first, and leave the sequence as
/// it was before the pushes.
pub proof fn lemma_back_is_a_stack<T>(s: Seq<T>, items: Seq<T>, cap: nat)
    requires
        s.len() + items.len() <= cap,
    ensures
        pop_back_n(push_back_all(s, items, cap), items.len()) == (s, items.reverse()),
{
    lemma_push_back_all(s, items, cap);
    lemma_pop_back_n(s + items, items.len());
    assert((s + items).take(s.len() as int) =~= s);
    assert((s + items).skip(s.len() as int) =~= items);
}

/// Stack order at the front: after any pushes within capacity, as many pops give the
/// pushed items back unchanged, the last one pushed first, and leave the sequence as
/// it was before the pushes.
pub proof fn lemma_front_is_a_stack<T>(s: Seq<T>, items: Seq<T>, cap: nat)
    requires
        s.len() + items.len() <= cap,
    ensures
        pop_front_n(push_front_all(s, items, cap), items.len()) == (s, items.reverse()),
{
    lemma_push_front_all(s, items, cap);
    lemma_pop_front_n(items.reverse() + s, items.len());
    assert((items.reverse() + s).skip(items.len() as int) =~= s);
    assert((items.reverse() + s).take(items.len() as int) =~= items.reverse());
}

/// Queue order: after any pushes at the back within capacity, as many pops at the
/// front of a sequence that was empty give the pushed items back unchanged, the first
/// one pushed first.
pub proof fn lemma_back_to_front_is_a_queue<T>(items: Seq<T>, cap: nat)
    requires
        items.len() <= cap,
    ensures
        pop_front_n(push_back_all(Seq::empty(), items, cap), items.len()) == (
            Seq::<T>::empty(),
            items,
        ),
{
    lemma_push_back_all(Seq::empty(), items, cap);
    assert(Seq::<T>::empty() + items =~= items);
    lemma_pop_front_n(items, items.len());
    assert(items.skip(items.len() as int) =~= Seq::<T>::empty());
    assert(items.take(items.len() as int) =~= items);
}

} // verus!
