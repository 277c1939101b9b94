use serial_echo::queue::ByteQueue;
use serial_echo::queue::CAPACITY;

#[test]
fn new_queue_is_empty() {
    let mut q = ByteQueue::new();
    assert_eq!(q.len(), 0);
    assert!(q.is_empty());
    assert_eq!(q.pop(), None);
}

#[test]
fn fifo_order_roundtrip() {
    let mut q = ByteQueue::new();
    let bytes: Vec<u8> = (1..=10).collect();
    for b in &bytes {
        assert!(q.push(*b));
    }
    assert_eq!(q.len(), 10);
    for b in &bytes {
        assert_eq!(q.pop(), Some(*b));
    }
    assert_eq!(q.pop(), None);
    assert!(q.is_empty());
}

#[test]
fn fifo_order_full_burst() {
    let mut q = ByteQueue::new();
    let bytes: Vec<u8> = (0..CAPACITY as u8).collect();
    for b in &bytes {
        assert!(q.push(*b));
    }
    for b in &bytes {
        assert_eq!(q.pop(), Some(*b));
    }
    assert_eq!(q.pop(), None);
}

#[test]
fn bounded_drop_keeps_first_capacity_bytes() {
    let mut q = ByteQueue::new();
    let k = 7;
    for i in 0..(CAPACITY + k) as u8 {
        let accepted = q.push(i);
        assert_eq!(accepted, (i as usize) < CAPACITY);
        assert!(q.len() <= CAPACITY);
    }
    assert_eq!(q.len(), CAPACITY);
    for i in 0..CAPACITY as u8 {
        assert_eq!(q.pop(), Some(i));
    }
    assert_eq!(q.pop(), None);
}

#[test]
fn push_on_full_queue_is_a_noop() {
    let mut q = ByteQueue::new();
    for _ in 0..CAPACITY {
        assert!(q.push(42));
    }
    assert!(!q.push(99));
    assert_eq!(q.len(), CAPACITY);
    for _ in 0..CAPACITY {
        assert_eq!(q.pop(), Some(42));
    }
    assert_eq!(q.pop(), None);
}

#[test]
fn push_after_pop_reopens_space() {
    let mut q = ByteQueue::new();
    for i in 0..CAPACITY as u8 {
        assert!(q.push(i));
    }
    assert!(!q.push(200));
    assert_eq!(q.pop(), Some(0));
    assert!(q.push(201));
    for i in 1..CAPACITY as u8 {
        assert_eq!(q.pop(), Some(i));
    }
    assert_eq!(q.pop(), Some(201));
    assert_eq!(q.pop(), None);
}
