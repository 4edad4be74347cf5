use fixcap::array::ArrVec;

#[test]
fn new_vector_is_empty() {
    let v: ArrVec<u32, 4> = ArrVec::new();
    assert_eq!(v.len(), 0);
    assert!(v.is_empty());
    assert!(!v.is_full());
    assert_eq!(v.capacity(), 4);
    assert_eq!(v.as_slice().len(), 0);
}

#[test]
fn full_vector_holds_the_whole_array() {
    let v: ArrVec<u32, 3> = ArrVec::full([1, 2, 3]);
    assert_eq!(v.len(), 3);
    assert!(v.is_full());
    assert!(!v.is_empty());
    assert_eq!(v.capacity(), 3);
    assert_eq!(v.as_slice(), &[Some(1), Some(2), Some(3)]);
}

#[test]
fn push_lengthens_by_one_each_time() {
    let mut v: ArrVec<u32, 3> = ArrVec::new();
    assert_eq!(v.push(10), Ok(()));
    assert_eq!(v.len(), 1);
    assert_eq!(v.push(20), Ok(()));
    assert_eq!(v.len(), 2);
    assert_eq!(v.push(30), Ok(()));
    assert_eq!(v.len(), 3);
    assert!(v.is_full());
    assert_eq!(v.as_slice(), &[Some(10), Some(20), Some(30)]);
}

#[test]
fn pop_returns_the_last_pushed_first() {
    let mut v: ArrVec<u32, 3> = ArrVec::new();
    assert_eq!(v.push(10), Ok(()));
    assert_eq!(v.push(20), Ok(()));
    assert_eq!(v.push(30), Ok(()));
    assert_eq!(v.pop(), Some(30));
    assert_eq!(v.len(), 2);
    assert_eq!(v.pop(), Some(20));
    assert_eq!(v.len(), 1);
    assert_eq!(v.pop(), Some(10));
    assert_eq!(v.len(), 0);
    assert!(v.is_empty());
}

#[test]
fn push_then_pop_restores_the_vector() {
    let mut v: ArrVec<u32, 4> = ArrVec::new();
    assert_eq!(v.push(1), Ok(()));
    assert_eq!(v.push(2), Ok(()));
    assert_eq!(v.push(99), Ok(()));
    assert_eq!(v.pop(), Some(99));
    assert_eq!(v.len(), 2);
    assert_eq!(v.as_slice(), &[Some(1), Some(2)]);
}

#[test]
fn push_on_full_vector_returns_the_item() {
    let mut v: ArrVec<String, 2> = ArrVec::full([String::from("a"), String::from("b")]);
    assert_eq!(v.push(String::from("c")), Err(String::from("c")));
    assert_eq!(v.len(), 2);
    assert!(v.is_full());
    assert_eq!(v.as_slice()[0].as_deref(), Some("a"));
    assert_eq!(v.as_slice()[1].as_deref(), Some("b"));
    assert_eq!(v.push(String::from("d")), Err(String::from("d")));
    assert_eq!(v.len(), 2);
}

#[test]
fn pop_on_empty_vector_returns_nothing() {
    let mut v: ArrVec<u32, 2> = ArrVec::new();
    assert_eq!(v.pop(), None);
    assert_eq!(v.len(), 0);
    assert_eq!(v.push(5), Ok(()));
    assert_eq!(v.pop(), Some(5));
    assert_eq!(v.pop(), None);
    assert_eq!(v.pop(), None);
    assert_eq!(v.len(), 0);
}

#[test]
fn push_alt_appends_where_there_is_room() {
    let mut v: ArrVec<u32, 2> = ArrVec::new();
    assert!(!v.is_full());
    v.push_alt(7);
    assert_eq!(v.len(), 1);
    assert!(!v.is_full());
    v.push_alt(8);
    assert_eq!(v.len(), 2);
    assert!(v.is_full());
    assert_eq!(v.as_slice(), &[Some(7), Some(8)]);
    assert_eq!(v.pop(), Some(8));
    assert_eq!(v.pop(), Some(7));
}

#[test]
fn capacity_never_changes() {
    let mut v: ArrVec<u32, 3> = ArrVec::new();
    assert_eq!(v.capacity(), 3);
    for i in 0..5u32 {
        let _ = v.push(i);
        assert_eq!(v.capacity(), 3);
        assert!(v.len() <= v.capacity());
    }
    for _ in 0..5 {
        let _ = v.pop();
        assert_eq!(v.capacity(), 3);
        assert!(v.len() <= v.capacity());
    }
}

#[test]
fn full_then_into_full_round_trips() {
    let src = [String::from("x"), String::from("y"), String::from("z")];
    let v: ArrVec<String, 3> = ArrVec::full(src.clone());
    assert!(v.is_full());
    assert_eq!(v.into_full(), src);
}

#[test]
fn into_full_after_filling_by_push() {
    let mut v: ArrVec<u32, 3> = ArrVec::new();
    assert_eq!(v.push(3), Ok(()));
    assert_eq!(v.push(2), Ok(()));
    assert_eq!(v.push(1), Ok(()));
    assert!(v.is_full());
    assert_eq!(v.into_full(), [3, 2, 1]);
}

#[test]
fn into_full_after_pop_and_refill() {
    let mut v: ArrVec<u32, 3> = ArrVec::full([1, 2, 3]);
    assert_eq!(v.pop(), Some(3));
    assert_eq!(v.pop(), Some(2));
    assert_eq!(v.push(20), Ok(()));
    assert_eq!(v.push(30), Ok(()));
    assert!(v.is_full());
    assert_eq!(v.into_full(), [1, 20, 30]);
}

#[test]
fn zero_capacity_vector_is_empty_and_full() {
    let mut v: ArrVec<u32, 0> = ArrVec::new();
    assert!(v.is_empty());
    assert!(v.is_full());
    assert_eq!(v.capacity(), 0);
    assert_eq!(v.push(1), Err(1));
    assert_eq!(v.pop(), None);
    assert_eq!(v.len(), 0);
    let arr: [u32; 0] = v.into_full();
    assert_eq!(arr.len(), 0);
}

#[test]
fn as_slice_shows_only_live_slots() {
    let mut v: ArrVec<u32, 4> = ArrVec::full([1, 2, 3, 4]);
    assert_eq!(v.pop(), Some(4));
    assert_eq!(v.pop(), Some(3));
    assert_eq!(v.as_slice(), &[Some(1), Some(2)]);
    assert_eq!(v.pop(), Some(2));
    assert_eq!(v.pop(), Some(1));
    assert_eq!(v.as_slice().len(), 0);
}

#[test]
fn as_mut_slice_changes_elements_in_place() {
    let mut v: ArrVec<u32, 4> = ArrVec::new();
    assert_eq!(v.push(1), Ok(()));
    assert_eq!(v.push(2), Ok(()));
    assert_eq!(v.push(3), Ok(()));
    {
        let slots = v.as_mut_slice();
        assert_eq!(slots.len(), 3);
        assert_eq!(slots[1], Some(2));
        slots[1] = Some(20);
        if let Some(first) = slots[0].as_mut() {
            *first += 100;
        }
    }
    assert_eq!(v.len(), 3);
    assert_eq!(v.as_slice(), &[Some(101), Some(20), Some(3)]);
    assert_eq!(v.pop(), Some(3));
    assert_eq!(v.pop(), Some(20));
    assert_eq!(v.pop(), Some(101));
    assert_eq!(v.pop(), None);
}

#[test]
fn as_mut_slice_of_empty_vector_is_empty() {
    let mut v: ArrVec<u32, 4> = ArrVec::new();
    assert_eq!(v.as_mut_slice().len(), 0);
    let mut w: ArrVec<u32, 0> = ArrVec::new();
    assert_eq!(w.as_mut_slice().len(), 0);
}
