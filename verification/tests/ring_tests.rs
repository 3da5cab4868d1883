use kernel_core::ring::RingBuffer;

#[test]
fn ring_starts_empty() {
    let r: RingBuffer<u32> = RingBuffer::new(4, 0);
    assert!(r.is_empty());
    assert_eq!(r.len(), 0);
    assert!(!r.is_full());
}

#[test]
fn ring_fifo_order() {
    let mut r: RingBuffer<u32> = RingBuffer::new(3, 0);
    assert!(r.enqueue(10));
    assert!(r.enqueue(20));
    assert!(r.enqueue(30));
    assert_eq!(r.dequeue(), Some(10));
    assert_eq!(r.dequeue(), Some(20));
    assert_eq!(r.dequeue(), Some(30));
    assert_eq!(r.dequeue(), None);
}

#[test]
fn ring_refuses_when_full() {
    let mut r: RingBuffer<u32> = RingBuffer::new(2, 0);
    assert!(r.enqueue(1));
    assert!(r.enqueue(2));
    assert!(r.is_full());
    assert!(!r.enqueue(3));
    assert_eq!(r.dequeue(), Some(1));
    assert_eq!(r.dequeue(), Some(2));
    assert_eq!(r.dequeue(), None);
}

#[test]
fn ring_wraps_around() {
    let mut r: RingBuffer<u32> = RingBuffer::new(2, 0);
    assert!(r.enqueue(1));
    assert_eq!(r.dequeue(), Some(1));
    assert!(r.enqueue(2));
    assert!(r.enqueue(3));
    assert_eq!(r.dequeue(), Some(2));
    assert!(r.enqueue(4));
    assert_eq!(r.dequeue(), Some(3));
    assert_eq!(r.dequeue(), Some(4));
    assert_eq!(r.dequeue(), None);
}

#[test]
fn ring_clear_keeps_capacity() {
    let mut r: RingBuffer<u32> = RingBuffer::new(2, 0);
    assert!(r.enqueue(1));
    r.clear();
    assert!(r.is_empty());
    assert!(r.enqueue(5));
    assert!(r.enqueue(6));
    assert!(!r.enqueue(7));
}
