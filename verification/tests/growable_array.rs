use myvec::{next_capacity, CapacityOverflowError, MyVec};
use std::rc::Rc;

#[test]
fn new_structure_is_empty() {
    let v: MyVec<i32> = MyVec::new();
    assert_eq!(v.len(), 0);
    assert_eq!(v.capacity(), 0);
}

#[test]
fn pops_return_pushed_values_in_reverse_order() {
    let mut v: MyVec<i32> = MyVec::new();
    let values: [i32; 10] = [3, 1, 4, 1, 5, 9, 2, 6, 5, 35];
    for value in values {
        v.push(value).unwrap();
    }
    assert_eq!(v.len(), 10);
    for value in values.iter().rev() {
        assert_eq!(v.pop(), Some(*value));
    }
    assert_eq!(v.len(), 0);
}

#[test]
fn push_then_pop_round_trips_and_keeps_capacity() {
    let mut v: MyVec<i32> = MyVec::new();
    v.push(10).unwrap();
    v.push(20).unwrap();
    v.push(30).unwrap();
    // Three elements leave a free slot in a four-slot buffer, so the
    // push of the pair does not grow it.
    let capacity_before: usize = v.capacity();
    assert_eq!(capacity_before, 4);
    v.push(99).unwrap();
    assert_eq!(v.pop(), Some(99));
    assert_eq!(v.capacity(), capacity_before);
    assert_eq!(v.len(), 3);
    assert_eq!(v.pop(), Some(30));
}

#[test]
fn popping_empty_returns_none_and_changes_nothing() {
    let mut v: MyVec<u8> = MyVec::new();
    assert_eq!(v.pop(), None);
    assert_eq!(v.len(), 0);
    assert_eq!(v.capacity(), 0);

    v.push(7).unwrap();
    assert_eq!(v.pop(), Some(7));
    assert_eq!(v.pop(), None);
    assert_eq!(v.pop(), None);
    assert_eq!(v.len(), 0);
    assert_eq!(v.capacity(), 1);
}

#[test]
fn capacity_always_covers_length_and_only_doubles() {
    let mut v: MyVec<u64> = MyVec::new();
    let mut last_capacity: usize = v.capacity();
    for i in 0..100u64 {
        v.push(i).unwrap();
        let capacity: usize = v.capacity();
        assert!(capacity >= v.len());
        assert!(capacity >= last_capacity);
        if capacity != last_capacity {
            let grown: usize = if last_capacity == 0 { 1 } else { 2 * last_capacity };
            assert_eq!(capacity, grown);
        }
        last_capacity = capacity;
    }
    for _ in 0..100u64 {
        v.pop().unwrap();
        assert_eq!(v.capacity(), last_capacity);
    }
}

#[test]
fn growth_preserves_prior_content() {
    let mut v: MyVec<i32> = MyVec::new();
    for i in 0..4i32 {
        v.push(i).unwrap();
    }
    assert_eq!(v.capacity(), 4);
    assert_eq!(v.len(), 4);
    // The buffer is full: this push grows it and must keep every prior
    // element in place.
    v.push(4).unwrap();
    assert_eq!(v.capacity(), 8);
    for expected in [4, 3, 2, 1, 0] {
        assert_eq!(v.pop(), Some(expected));
    }
    assert_eq!(v.pop(), None);
}

#[test]
fn fifty_pushes_reach_capacity_sixty_four_then_drain() {
    let mut v: MyVec<i32> = MyVec::new();
    for i in 0..50i32 {
        v.push(i).unwrap();
        let expected_capacity: usize = match i {
            0 => 1,
            1 => 2,
            2..=3 => 4,
            4..=7 => 8,
            8..=15 => 16,
            16..=31 => 32,
            _ => 64,
        };
        assert_eq!(v.capacity(), expected_capacity);
    }
    assert_eq!(v.len(), 50);
    assert!(v.capacity() >= 50);
    for expected in (0..50i32).rev() {
        assert_eq!(v.pop(), Some(expected));
    }
    assert_eq!(v.pop(), None);
    assert_eq!(v.len(), 0);
}

#[test]
fn dropping_the_structure_finalizes_each_element_once() {
    let tracker: Rc<i32> = Rc::new(0);
    {
        let mut v: MyVec<Rc<i32>> = MyVec::new();
        for _ in 0..10u32 {
            v.push(Rc::clone(&tracker)).unwrap();
        }
        // One owner per stored clone, plus the tracker itself.
        assert_eq!(Rc::strong_count(&tracker), 11);
        let popped: Rc<i32> = v.pop().unwrap();
        assert_eq!(Rc::strong_count(&tracker), 11);
        drop(popped);
        assert_eq!(Rc::strong_count(&tracker), 10);
    }
    // Dropping the structure released the nine remaining clones, each
    // exactly once.
    assert_eq!(Rc::strong_count(&tracker), 1);
}

#[test]
fn next_capacity_doubles_or_starts_at_one() {
    assert_eq!(next_capacity(0, 4), Ok(1));
    assert_eq!(next_capacity(1, 4), Ok(2));
    assert_eq!(next_capacity(2, 4), Ok(4));
    assert_eq!(next_capacity(4, 4), Ok(8));
    assert_eq!(next_capacity(64, 1), Ok(128));
}

#[test]
fn oversized_growth_reports_capacity_overflow() {
    // Doubling this capacity yields a byte count past the platform's
    // maximum single-allocation size.
    let huge_capacity: usize = isize::MAX as usize / 2;
    assert_eq!(next_capacity(huge_capacity, 2), Err(CapacityOverflowError));
    // Even a single element whose size alone reaches the ceiling is
    // rejected.
    assert_eq!(next_capacity(0, isize::MAX as usize), Err(CapacityOverflowError));
    // One byte below the ceiling still fits.
    assert_eq!(next_capacity(0, isize::MAX as usize - 1), Ok(1));
}
