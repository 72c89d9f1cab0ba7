use rws::queue::{Dequeued, DispatchQueue, EnqueueError};

#[test]
fn items_leave_in_the_order_they_entered() {
    let mut q: DispatchQueue<u32> = DispatchQueue::new(16);
    for n in 0..10u32 {
        assert_eq!(q.enqueue(n * 7), Ok(()));
    }
    assert_eq!(q.len(), 10);
    for n in 0..10u32 {
        assert_eq!(q.dequeue(), Dequeued::Item(n * 7));
    }
    assert_eq!(q.dequeue(), Dequeued::Empty);
}

#[test]
fn interleaved_producers_keep_their_order() {
    let mut q: DispatchQueue<&str> = DispatchQueue::new(3);
    assert_eq!(q.enqueue("a"), Ok(()));
    assert_eq!(q.enqueue("b"), Ok(()));
    assert_eq!(q.dequeue(), Dequeued::Item("a"));
    assert_eq!(q.enqueue("c"), Ok(()));
    assert_eq!(q.enqueue("d"), Ok(()));
    assert_eq!(q.dequeue(), Dequeued::Item("b"));
    assert_eq!(q.dequeue(), Dequeued::Item("c"));
    assert_eq!(q.dequeue(), Dequeued::Item("d"));
    assert_eq!(q.dequeue(), Dequeued::Empty);
}

#[test]
fn a_full_queue_hands_the_item_back_until_one_is_taken() {
    let mut q: DispatchQueue<u8> = DispatchQueue::new(2);
    assert_eq!(q.capacity(), 2);
    assert_eq!(q.enqueue(1), Ok(()));
    assert!(!q.is_full());
    assert_eq!(q.enqueue(2), Ok(()));
    assert!(q.is_full());
    assert_eq!(q.enqueue(3), Err(EnqueueError::Full(3)));
    assert_eq!(q.len(), 2);
    assert_eq!(q.dequeue(), Dequeued::Item(1));
    assert_eq!(q.enqueue(3), Ok(()));
    assert_eq!(q.dequeue(), Dequeued::Item(2));
    assert_eq!(q.dequeue(), Dequeued::Item(3));
}

#[test]
fn a_queue_without_capacity_is_always_full() {
    let mut q: DispatchQueue<u8> = DispatchQueue::new(0);
    assert!(q.is_full());
    assert_eq!(q.enqueue(1), Err(EnqueueError::Full(1)));
    assert_eq!(q.dequeue(), Dequeued::Empty);
}

#[test]
fn a_closed_queue_refuses_items_and_drains_what_it_holds() {
    let mut q: DispatchQueue<u8> = DispatchQueue::new(4);
    assert!(!q.is_closed());
    assert_eq!(q.enqueue(1), Ok(()));
    assert_eq!(q.enqueue(2), Ok(()));
    q.close();
    assert!(q.is_closed());
    assert_eq!(q.enqueue(3), Err(EnqueueError::Closed(3)));
    assert_eq!(q.dequeue(), Dequeued::Item(1));
    assert_eq!(q.dequeue(), Dequeued::Item(2));
    assert_eq!(q.dequeue(), Dequeued::Closed);
    assert_eq!(q.dequeue(), Dequeued::Closed);
}

#[test]
fn closing_wins_over_full() {
    let mut q: DispatchQueue<u8> = DispatchQueue::new(1);
    assert_eq!(q.enqueue(1), Ok(()));
    assert_eq!(q.enqueue(2), Err(EnqueueError::Full(2)));
    q.close();
    assert_eq!(q.enqueue(2), Err(EnqueueError::Closed(2)));
}
