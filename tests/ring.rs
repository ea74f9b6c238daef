use ringbuffer_spsc::index::{advance, distance};
use ringbuffer_spsc::{is_valid_capacity, Ring};

#[test]
fn ring_keeps_order() {
    let mut r: Ring<u32> = Ring::new(8);
    for v in [3u32, 1, 4, 1, 5] {
        assert!(r.push(v).is_none());
    }
    let mut out = Vec::new();
    while let Some(v) = r.pull() {
        out.push(v);
    }
    assert_eq!(out, vec![3, 1, 4, 1, 5]);
}

#[test]
fn ring_full_push_changes_nothing() {
    let mut r: Ring<u32> = Ring::new(2);
    assert!(r.push(1).is_none());
    assert!(r.push(2).is_none());
    assert!(r.is_full());
    assert_eq!(r.push(3), Some(3));
    assert_eq!(r.drain(), vec![1, 2]);
}

#[test]
fn ring_empty_pull_changes_nothing() {
    let mut r: Ring<u32> = Ring::new(4);
    assert!(r.is_empty());
    assert_eq!(r.pull(), None);
    assert!(r.peek().is_none());
    assert!(r.push(7).is_none());
    assert_eq!(r.pull(), Some(7));
    assert_eq!(r.pull(), None);
    assert!(r.is_empty());
}

#[test]
fn ring_capacity_reclaim() {
    let mut r: Ring<usize> = Ring::new(4);
    assert_eq!(r.capacity(), 4);
    for i in 0..4 {
        assert!(!r.is_full());
        assert!(r.push(i).is_none());
    }
    assert!(r.is_full());
    assert_eq!(r.push(99), Some(99));
    assert_eq!(r.pull(), Some(0));
    assert!(!r.is_full());
    assert!(r.push(4).is_none());
    assert!(r.is_full());
    assert_eq!(r.drain(), vec![1, 2, 3, 4]);
    assert!(r.is_empty());
}

#[test]
fn ring_peek_then_pull() {
    let mut r: Ring<String> = Ring::new(4);
    assert!(r.push("x".to_string()).is_none());
    assert!(r.push("y".to_string()).is_none());
    assert_eq!(r.peek(), Some(&"x".to_string()));
    assert_eq!(r.pull(), Some("x".to_string()));
    r.peek_mut().unwrap().push('!');
    assert_eq!(r.pull(), Some("y!".to_string()));
    assert!(r.peek_mut().is_none());
}

#[test]
fn ring_wraps_around_its_slots() {
    let mut r: Ring<u32> = Ring::new(2);
    for i in 0..100u32 {
        assert!(r.push(i).is_none());
        assert!(r.push(i + 1000).is_none());
        assert_eq!(r.push(0), Some(0));
        assert_eq!(r.pull(), Some(i));
        assert_eq!(r.pull(), Some(i + 1000));
    }
}

#[test]
fn ring_of_one_slot() {
    let mut r: Ring<u8> = Ring::new(1);
    assert!(r.push(1).is_none());
    assert_eq!(r.push(2), Some(2));
    assert_eq!(r.pull(), Some(1));
    assert!(r.push(2).is_none());
    assert_eq!(r.drain(), vec![2]);
}

#[test]
fn invalid_capacities_are_rejected() {
    assert!(!is_valid_capacity(0));
    assert!(!is_valid_capacity(3));
    assert!(!is_valid_capacity(100));
    assert!(!is_valid_capacity(usize::MAX));
    assert!(is_valid_capacity(1));
    assert!(is_valid_capacity(16));
    assert!(is_valid_capacity(1024));
    assert!(is_valid_capacity(1usize << (usize::BITS - 1)));
}

#[test]
fn indices_wrap_at_the_largest_value() {
    assert_eq!(advance(u64::MAX), 0);
    assert_eq!(advance(41), 42);
    assert_eq!(distance(3, u64::MAX - 1), 5);
    assert_eq!(distance(10, 4), 6);
    assert_eq!(distance(7, 7), 0);
}
