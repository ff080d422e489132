use logbook_speedups::{Entry, FrozenSequence};

#[test]
fn frozen_empty_and_len() {
    let e: FrozenSequence<u64> = FrozenSequence::empty();
    assert_eq!(e.len(), 0);
    assert!(e.is_empty());
    assert_eq!(e.to_vec(), Vec::<u64>::new());
    let s = FrozenSequence::new(vec![1u64, 2, 3]);
    assert_eq!(s.len(), 3);
    assert!(!s.is_empty());
}

#[test]
fn frozen_iteration_is_restartable() {
    let s = FrozenSequence::new(vec![4u64, 5, 6]);
    assert_eq!(s.to_vec(), vec![4, 5, 6]);
    assert_eq!(s.to_vec(), vec![4, 5, 6]);
    assert_eq!(s.reversed(), vec![6, 5, 4]);
    assert_eq!(s.reversed(), vec![6, 5, 4]);
}

#[test]
fn frozen_get_and_contains() {
    let s = FrozenSequence::new(vec![10u64, 20, 30]);
    assert_eq!(s.get(0), Some(10));
    assert_eq!(s.get(2), Some(30));
    assert_eq!(s.get(3), None);
    assert!(s.contains(&20));
    assert!(!s.contains(&25));
}

#[test]
fn frozen_slice_gives_frozen_sequence() {
    let s = FrozenSequence::new(vec![1u64, 2, 3, 4, 5]);
    assert_eq!(s.slice(1, 3).to_vec(), vec![2, 3]);
    assert_eq!(s.slice(3, 100).to_vec(), vec![4, 5]);
    assert_eq!(s.slice(4, 2).to_vec(), Vec::<u64>::new());
    assert_eq!(s.slice(9, 12).len(), 0);
    assert!(s.slice(0, 5).equals(&s));
}

#[test]
fn frozen_equal_items_equal_hash() {
    let a = FrozenSequence::new(vec![1u64, 2, 3]);
    let b = FrozenSequence::new(vec![1u64, 2, 3]);
    let c = FrozenSequence::new(vec![3u64, 2, 1]);
    assert!(a.equals(&b));
    assert_eq!(a.hash(), b.hash());
    assert_eq!(a.hash(), a.hash());
    assert!(!a.equals(&c));
    assert_ne!(a.hash(), c.hash());
    let d = FrozenSequence::new(vec![1u64, 2]);
    assert!(!a.equals(&d));
    assert_ne!(FrozenSequence::<u64>::empty().hash(), FrozenSequence::new(vec![0u64]).hash());
}

#[test]
fn frozen_entries_compare_by_number_and_object() {
    let a = FrozenSequence::new(vec![Entry { seq: 0, obj: 7 }]);
    let b = FrozenSequence::new(vec![Entry { seq: 0, obj: 7 }]);
    let c = FrozenSequence::new(vec![Entry { seq: 1, obj: 7 }]);
    assert!(a.equals(&b));
    assert_eq!(a.hash(), b.hash());
    assert!(!a.equals(&c));
}

#[test]
fn frozen_pushed_and_split_last() {
    let s = FrozenSequence::new(vec![1u64, 2]);
    let t = s.pushed(3);
    assert_eq!(s.to_vec(), vec![1, 2]);
    assert_eq!(t.to_vec(), vec![1, 2, 3]);
    let (last, rest) = t.split_last().unwrap();
    assert_eq!(last, 3);
    assert!(rest.equals(&s));
    assert_eq!(rest.hash(), s.hash());
    assert!(FrozenSequence::<u64>::empty().split_last().is_none());
}

#[test]
fn frozen_clone_is_equal() {
    let s = FrozenSequence::new(vec![8u64, 9]);
    let t = s.clone();
    assert!(s.equals(&t));
    assert_eq!(s.hash(), t.hash());
}
