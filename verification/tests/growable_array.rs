use growable_array::Vec as GrowableArray;
use growable_array::VecProducer;

fn filled(n: i32) -> GrowableArray<i32> {
    let mut a = GrowableArray::default();
    let mut i = 1;
    while i <= n {
        a.push(i);
        i += 1;
    }
    a
}

#[test]
fn starts_empty_with_no_storage() {
    let a: GrowableArray<i32> = GrowableArray::default();
    assert_eq!(a.len(), 0);
    assert_eq!(a.cap(), 0);
    assert!(a.is_empty());
    assert_eq!(a.spare_capacity(), 0);
}

#[test]
fn scenario_push_five() {
    let a = filled(5);
    assert_eq!(a.as_slice(), vec![1, 2, 3, 4, 5]);
    assert_eq!(a.len(), 5);
    assert!(a.cap().is_power_of_two());
    assert!(a.cap() >= 5);
    assert_eq!(a.cap(), 8);
}

#[test]
fn scenario_pop_twice() {
    let mut a = filled(5);
    assert_eq!(a.pop().copied(), Some(5));
    assert_eq!(a.pop().copied(), Some(4));
    assert_eq!(a.as_slice(), vec![1, 2, 3]);
}

#[test]
fn scenario_extend_with_zero_lower_bound() {
    let mut a: GrowableArray<i32> = GrowableArray::default();
    a.extend(VecProducer::with_reported_bound(vec![7, 8, 9], 0));
    assert_eq!(a.as_slice(), vec![7, 8, 9]);
}

#[test]
fn scenario_push_into_full_block_of_eight() {
    let mut a: GrowableArray<i32> = GrowableArray::default();
    for i in 0..8 {
        a.push(i);
    }
    assert_eq!(a.len(), 8);
    assert_eq!(a.cap(), 8);
    a.push(99);
    assert_eq!(a.cap(), 16);
    assert_eq!(a.as_slice(), vec![0, 1, 2, 3, 4, 5, 6, 7, 99]);
    assert_eq!(a.get(8).copied(), Some(99));
}

#[test]
fn push_pop_round_trip_leaves_length() {
    let mut a = filled(3);
    let len_before = a.len();
    a.push(77);
    assert_eq!(a.pop().copied(), Some(77));
    assert_eq!(a.len(), len_before);
    assert_eq!(a.as_slice(), vec![1, 2, 3]);
}

#[test]
fn length_never_exceeds_capacity() {
    let mut a: GrowableArray<i32> = GrowableArray::default();
    assert!(a.len() <= a.cap());
    for i in 0..20 {
        a.push(i);
        assert!(a.len() <= a.cap());
    }
    for _ in 0..5 {
        a.pop();
        assert!(a.len() <= a.cap());
    }
    a.shrink_to_fit();
    assert!(a.len() <= a.cap());
    a.extend(VecProducer::new(vec![1, 2, 3]));
    assert!(a.len() <= a.cap());
}

#[test]
fn pushing_doubles_capacity_rarely() {
    let mut a: GrowableArray<i32> = GrowableArray::default();
    let mut reallocations = 0;
    let mut cap = a.cap();
    for i in 0..100 {
        a.push(i);
        if a.cap() != cap {
            reallocations += 1;
            cap = a.cap();
        }
    }
    // capacities 1, 2, 4, ..., 128: logarithmically many reallocations
    assert_eq!(reallocations, 8);
    assert_eq!(a.cap(), 128);
}

#[test]
fn extend_with_accurate_bound() {
    let mut a = filled(2);
    a.extend(VecProducer::new(vec![10, 11, 12]));
    assert_eq!(a.as_slice(), vec![1, 2, 10, 11, 12]);
}

#[test]
fn extend_with_understated_bound() {
    let mut a = filled(2);
    a.extend(VecProducer::with_reported_bound(vec![10, 11, 12, 13], 1));
    assert_eq!(a.as_slice(), vec![1, 2, 10, 11, 12, 13]);
}

#[test]
fn extend_with_nothing() {
    let mut a = filled(2);
    a.extend(VecProducer::new(vec![]));
    assert_eq!(a.as_slice(), vec![1, 2]);
}

#[test]
fn extend_naive_appends_in_order() {
    let mut a = filled(1);
    a.extend_naive(VecProducer::new(vec![5, 6]));
    assert_eq!(a.as_slice(), vec![1, 5, 6]);
}

#[test]
fn extend_unchecked_fills_spare_slots() {
    let mut a = filled(4);
    a.pop();
    a.pop();
    assert_eq!(a.spare_capacity(), 2);
    a.extend_unchecked(VecProducer::new(vec![30, 31]));
    assert_eq!(a.as_slice(), vec![1, 2, 30, 31]);
    assert_eq!(a.cap(), 4);
}

#[test]
fn push_unchecked_uses_a_spare_slot() {
    let mut a = filled(4);
    a.pop();
    let cap = a.cap();
    a.push_unchecked(50);
    assert_eq!(a.as_slice(), vec![1, 2, 3, 50]);
    assert_eq!(a.cap(), cap);
}

#[test]
fn shrink_to_fit_is_idempotent() {
    let mut a = filled(5);
    assert_eq!(a.cap(), 8);
    a.shrink_to_fit();
    assert_eq!(a.cap(), 5);
    assert_eq!(a.len(), 5);
    let snapshot = a.as_slice();
    a.shrink_to_fit();
    assert_eq!(a.cap(), 5);
    assert_eq!(a.as_slice(), snapshot);
}

#[test]
fn shrink_to_fit_of_empty_releases_storage() {
    let mut a = filled(3);
    a.pop();
    a.pop();
    a.pop();
    a.shrink_to_fit();
    assert_eq!(a.cap(), 0);
    assert_eq!(a.len(), 0);
}

#[test]
fn get_checks_bounds() {
    let a = filled(3);
    assert_eq!(a.get(0).copied(), Some(1));
    assert_eq!(a.get(2).copied(), Some(3));
    assert!(a.get(3).is_none());
    assert!(a.get(1000).is_none());
}

#[test]
fn get_mut_writes_are_read_back() {
    let mut a = filled(3);
    *a.get_mut(1).unwrap() = 42;
    assert_eq!(a.get(1).copied(), Some(42));
    assert_eq!(a.as_slice(), vec![1, 42, 3]);
    assert!(a.get_mut(3).is_none());
}

#[test]
fn unchecked_reads_see_the_live_prefix() {
    let mut a = filled(3);
    assert_eq!(*a.get_unchecked(0), 1);
    assert_eq!(*a.get_unchecked(2), 3);
    *a.get_unchecked_mut(2) = 9;
    assert_eq!(a.as_slice(), vec![1, 2, 9]);
}

#[test]
fn last_of_empty_is_absent() {
    let mut a: GrowableArray<i32> = GrowableArray::default();
    assert!(a.last().is_none());
    assert!(a.last_mut().is_none());
    assert!(a.pop().is_none());
}

#[test]
fn last_sees_the_newest_element() {
    let mut a = filled(4);
    assert_eq!(a.last().copied(), Some(4));
    assert_eq!(*a.last_unchecked(), 4);
    *a.last_mut().unwrap() = 44;
    assert_eq!(a.last().copied(), Some(44));
    *a.last_unchecked_mut() = 45;
    assert_eq!(a.as_slice(), vec![1, 2, 3, 45]);
}

#[test]
fn pop_returns_the_removed_value() {
    let mut a = filled(2);
    let popped = a.pop().copied();
    assert_eq!(popped, Some(2));
    assert_eq!(a.len(), 1);
    let popped = a.pop().copied();
    assert_eq!(popped, Some(1));
    assert!(a.is_empty());
    assert!(a.pop().is_none());
}

#[test]
fn into_box_slice_keeps_the_live_prefix() {
    let a = filled(3);
    let b = a.into_box_slice();
    assert_eq!(&*b, &[1, 2, 3]);
}

#[test]
fn into_box_slice_of_empty() {
    let a: GrowableArray<i32> = GrowableArray::default();
    let b = a.into_box_slice();
    assert!(b.is_empty());
}

#[test]
fn clone_copies_the_whole_block() {
    let a = filled(3);
    let mut b = a.clone();
    assert_eq!(b.as_slice(), a.as_slice());
    assert_eq!(b.cap(), a.cap());
    b.push(4);
    assert_eq!(a.as_slice(), vec![1, 2, 3]);
    assert_eq!(b.as_slice(), vec![1, 2, 3, 4]);
}

#[test]
fn spare_capacity_counts_free_slots() {
    let mut a = filled(5);
    assert_eq!(a.cap(), 8);
    assert_eq!(a.spare_capacity(), 3);
    a.pop();
    assert_eq!(a.spare_capacity(), 4);
    a.shrink_to_fit();
    assert_eq!(a.spare_capacity(), 0);
}

#[test]
fn producer_reports_at_most_its_size() {
    let mut a: GrowableArray<i32> = GrowableArray::default();
    // an overstated bound is clamped to the true count before reserving
    a.extend(VecProducer::with_reported_bound(vec![1, 2], 100));
    assert_eq!(a.as_slice(), vec![1, 2]);
}
