use crossbeam_utils::thread;
use crossbeam_utils::Backoff;
use ringbuffer_spsc::ringbuffer;
use std::sync::atomic::{AtomicUsize, Ordering};
use std::sync::Arc;

fn stream_in_order(capacity: usize, n: usize) {
    let (mut tx, mut rx) = ringbuffer::<usize>(capacity);
    thread::scope(|s| {
        s.spawn(move |_| {
            let backoff = Backoff::new();
            let mut current: usize = 0;
            while current < n {
                if tx.push(current).is_none() {
                    current = current.wrapping_add(1);
                    backoff.reset();
                } else {
                    backoff.snooze();
                }
            }
        });
        s.spawn(move |_| {
            let backoff = Backoff::new();
            let mut current: usize = 0;
            while current < n {
                if let Some(c) = rx.peek() {
                    assert_eq!(*c, current);
                    let c = rx.peek_mut().unwrap();
                    assert_eq!(*c, current);
                    let c = rx.pull().unwrap();
                    assert_eq!(c, current);
                    current = current.wrapping_add(1);
                    backoff.reset();
                } else {
                    backoff.snooze();
                }
            }
        });
    })
    .unwrap();
}

// Elements arrive in order
#[test]
fn it_works() {
    stream_in_order(16, 1_000_000);
}

#[test]
fn it_works_with_large_capacity() {
    stream_in_order(1024, 1_000_000);
}

struct DropCounter {
    live: Arc<AtomicUsize>,
}

impl DropCounter {
    fn new(live: &Arc<AtomicUsize>) -> Self {
        live.fetch_add(1, Ordering::SeqCst);
        DropCounter { live: live.clone() }
    }
}

impl Drop for DropCounter {
    fn drop(&mut self) {
        self.live.fetch_sub(1, Ordering::SeqCst);
    }
}

#[test]
fn memcheck() {
    const N: usize = 1_024;
    let counter = Arc::new(AtomicUsize::new(0));

    let (mut tx, rx) = ringbuffer::<DropCounter>(N);
    for _ in 0..N {
        assert!(tx.push(DropCounter::new(&counter)).is_none());
    }
    assert!(tx.push(DropCounter::new(&counter)).is_some());

    assert_eq!(
        counter.load(Ordering::SeqCst),
        N,
        "There should be as many counters as ringbuffer capacity"
    );

    // Drop both reader and writer
    drop(tx);
    drop(rx);

    assert_eq!(
        counter.load(Ordering::SeqCst),
        0,
        "All the drop counters should have been dropped"
    );
}

#[test]
fn memcheck_partial_with_peeked_value() {
    let counter = Arc::new(AtomicUsize::new(0));
    let (mut tx, mut rx) = ringbuffer::<DropCounter>(8);
    for _ in 0..5 {
        assert!(tx.push(DropCounter::new(&counter)).is_none());
    }
    drop(rx.pull().unwrap());
    assert!(rx.peek().is_some());
    assert_eq!(counter.load(Ordering::SeqCst), 4);
    drop(rx);
    assert_eq!(counter.load(Ordering::SeqCst), 3);
    drop(tx);
    assert_eq!(counter.load(Ordering::SeqCst), 0);
}

#[test]
fn handles_report_capacity() {
    let (tx, rx) = ringbuffer::<u8>(32);
    assert_eq!(tx.capacity(), 32);
    assert_eq!(rx.capacity(), 32);
}

#[test]
fn full_push_hands_value_back() {
    let (mut tx, mut rx) = ringbuffer::<String>(2);
    assert!(tx.push("a".to_string()).is_none());
    assert!(!tx.is_full());
    assert!(tx.push("b".to_string()).is_none());
    assert!(tx.is_full());
    assert_eq!(tx.push("c".to_string()), Some("c".to_string()));
    assert_eq!(tx.push("c".to_string()), Some("c".to_string()));
    assert_eq!(rx.pull(), Some("a".to_string()));
    assert!(!tx.is_full());
    assert!(tx.push("c".to_string()).is_none());
    assert!(tx.is_full());
    assert_eq!(rx.pull(), Some("b".to_string()));
    assert_eq!(rx.pull(), Some("c".to_string()));
    assert_eq!(rx.pull(), None);
}

#[test]
fn empty_pull_gives_nothing() {
    let (mut tx, mut rx) = ringbuffer::<u32>(4);
    assert!(rx.is_empty());
    assert_eq!(rx.pull(), None);
    assert_eq!(rx.pull(), None);
    assert!(rx.peek().is_none());
    assert!(rx.peek_mut().is_none());
    assert!(tx.push(9).is_none());
    assert!(!rx.is_empty());
    assert_eq!(rx.pull(), Some(9));
    assert!(rx.is_empty());
}

#[test]
fn peek_mut_changes_what_pull_returns() {
    let (mut tx, mut rx) = ringbuffer::<u32>(4);
    assert!(tx.push(1).is_none());
    assert!(tx.push(2).is_none());
    assert_eq!(rx.peek(), Some(&1));
    *rx.peek_mut().unwrap() = 10;
    assert_eq!(rx.peek(), Some(&10));
    assert_eq!(rx.pull(), Some(10));
    assert_eq!(rx.pull(), Some(2));
    assert_eq!(rx.pull(), None);
}

#[test]
fn peeked_slot_is_not_reused_before_pull() {
    let (mut tx, mut rx) = ringbuffer::<u32>(1);
    assert!(tx.push(5).is_none());
    assert_eq!(rx.peek(), Some(&5));
    assert_eq!(tx.push(6), Some(6));
    assert_eq!(rx.pull(), Some(5));
    assert!(tx.push(6).is_none());
    assert_eq!(rx.pull(), Some(6));
}

#[test]
fn many_wraps_of_a_small_buffer() {
    let (mut tx, mut rx) = ringbuffer::<u64>(4);
    for round in 0..1000u64 {
        for k in 0..3u64 {
            assert!(tx.push(round * 3 + k).is_none());
        }
        for k in 0..3u64 {
            assert_eq!(rx.pull(), Some(round * 3 + k));
        }
    }
    assert_eq!(rx.pull(), None);
}
