use ring_buffer::RingBuffer;

#[test]
pub fn st_test() {
    let mut rb = RingBuffer::<u32, 4>::new();
    for i in 0..=8 {
        rb.push(i);
    }
    let read = [
        rb.pop().unwrap(),
        rb.pop().unwrap(),
        rb.pop().unwrap(),
        rb.pop().unwrap(),
    ];
    assert_eq!(read, [5, 6, 7, 8])
}

#[test]
fn fifo_keeps_last_four_then_empty() {
    let mut rb = RingBuffer::<u32, 4>::new();
    for i in 0..=8u32 {
        rb.push(i);
    }
    assert_eq!(rb.pop(), Some(5));
    assert_eq!(rb.pop(), Some(6));
    assert_eq!(rb.pop(), Some(7));
    assert_eq!(rb.pop(), Some(8));
    assert_eq!(rb.pop(), None);
}

#[test]
fn fewer_inserts_than_capacity_come_back_in_order() {
    let mut rb = RingBuffer::<u32, 4>::new();
    assert_eq!(rb.push(10), None);
    assert_eq!(rb.push(20), None);
    assert_eq!(rb.len(), 2);
    assert_eq!(rb.pop(), Some(10));
    assert_eq!(rb.pop(), Some(20));
    assert_eq!(rb.pop(), None);
}

#[test]
fn push_on_full_returns_oldest() {
    let mut rb = RingBuffer::<u32, 3>::new();
    assert_eq!(rb.push(1), None);
    assert_eq!(rb.push(2), None);
    assert_eq!(rb.push(3), None);
    assert_eq!(rb.push(4), Some(1));
    assert_eq!(rb.push(5), Some(2));
    assert_eq!(rb.len(), 3);
    assert_eq!(rb.pop(), Some(3));
}

#[test]
fn eviction_matches_next_removal() {
    let mut a = RingBuffer::<u32, 2>::new();
    let mut b = RingBuffer::<u32, 2>::new();
    for v in [7u32, 9] {
        a.push(v);
        b.push(v);
    }
    let evicted = a.push(11);
    let removed = b.pop();
    assert_eq!(evicted, Some(7));
    assert_eq!(evicted, removed);
}

#[test]
fn fresh_buffer_removes_nothing() {
    let mut one = RingBuffer::<u32, 1>::new();
    let mut four = RingBuffer::<u32, 4>::new();
    let mut big = RingBuffer::<u32, 1024>::new();
    assert_eq!(one.pop(), None);
    assert_eq!(four.pop(), None);
    assert_eq!(big.pop(), None);
    assert_eq!(big.len(), 0);
}

#[test]
fn single_slot_overwrites() {
    let mut rb = RingBuffer::<String, 1>::new();
    assert_eq!(rb.push("a".to_string()), None);
    assert_eq!(rb.push("b".to_string()), Some("a".to_string()));
    assert_eq!(rb.push("c".to_string()), Some("b".to_string()));
    assert_eq!(rb.len(), 1);
    assert_eq!(rb.pop(), Some("c".to_string()));
    assert_eq!(rb.pop(), None);
}

#[test]
fn increasing_inserts_drain_sorted_and_bounded() {
    let mut rb = RingBuffer::<u64, 16>::new();
    for t in 0..1000u64 {
        rb.push(t * 3);
    }
    assert_eq!(rb.len(), 16);
    let mut drained = Vec::new();
    while let Some(v) = rb.pop() {
        drained.push(v);
    }
    assert_eq!(drained.len(), 16);
    for w in drained.windows(2) {
        assert!(w[0] <= w[1]);
    }
    assert_eq!(drained[0], 984 * 3);
    assert_eq!(drained[15], 999 * 3);
}

#[test]
fn drained_buffer_stays_empty() {
    let mut rb = RingBuffer::<u32, 2>::new();
    rb.push(1);
    rb.push(2);
    rb.push(3);
    assert_eq!(rb.pop(), Some(2));
    assert_eq!(rb.pop(), Some(3));
    for _ in 0..5 {
        assert_eq!(rb.pop(), None);
        assert_eq!(rb.len(), 0);
    }
    assert_eq!(rb.push(4), None);
    assert_eq!(rb.pop(), Some(4));
}

#[test]
fn occupancy_never_exceeds_capacity() {
    let mut rb = RingBuffer::<u8, 5>::new();
    for i in 0..40u8 {
        if i % 7 == 3 {
            rb.pop();
        } else {
            rb.push(i);
        }
        assert!(rb.len() <= 5);
    }
}
