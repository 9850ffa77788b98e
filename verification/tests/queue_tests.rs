use termspy::queue::BoundedQueue;

#[test]
fn accepts_until_capacity_then_hands_back() {
    let mut q: BoundedQueue<u8> = BoundedQueue::new(3);
    assert_eq!(q.offer(1), None);
    assert_eq!(q.offer(2), None);
    assert_eq!(q.offer(3), None);
    assert!(q.is_full());
    // The producer suspends: the item comes back instead of being dropped.
    assert_eq!(q.offer(4), Some(4));
    assert_eq!(q.len(), 3);
}

#[test]
fn no_item_lost_under_backpressure() {
    let mut q: BoundedQueue<u8> = BoundedQueue::new(2);
    assert_eq!(q.offer(10), None);
    assert_eq!(q.offer(11), None);
    let rejected = q.offer(12).expect("full queue must hand the item back");
    // The consumer catches up; the producer retries with the same item.
    assert_eq!(q.poll(), Some(10));
    assert_eq!(q.offer(rejected), None);
    assert_eq!(q.poll(), Some(11));
    assert_eq!(q.poll(), Some(12));
    assert_eq!(q.poll(), None);
}

#[test]
fn delivery_is_first_in_first_out() {
    let mut q: BoundedQueue<u8> = BoundedQueue::new(8);
    for b in b"order" {
        assert_eq!(q.offer(*b), None);
    }
    let mut out: Vec<u8> = Vec::new();
    while let Some(b) = q.poll() {
        out.push(b);
    }
    assert_eq!(out, b"order".to_vec());
}

#[test]
fn capacity_one_queue_works() {
    let mut q: BoundedQueue<u8> = BoundedQueue::new(1);
    assert!(q.is_empty());
    assert_eq!(q.offer(7), None);
    assert_eq!(q.offer(8), Some(8));
    assert_eq!(q.poll(), Some(7));
    assert!(q.is_empty());
}
