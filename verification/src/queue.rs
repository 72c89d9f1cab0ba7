//! The dispatch queue: a bounded, ordered, single-consumer queue.

use std::collections::VecDeque;
use vstd::prelude::*;

verus! {

/// Why an item was not taken into the queue. The item is handed back in
/// either case, so nothing is lost when the producer has to wait or give up.
#[derive(Debug, PartialEq, Eq)]
pub enum EnqueueError<T> {
    /// The queue holds as many items as its capacity allows: the producer
    /// suspends until the consumer has taken one.
    Full(T),
    /// The queue has been closed and takes no more items.
    Closed(T),
}

/// What the consumer finds at the head of the queue.
#[derive(Debug, PartialEq, Eq)]
pub enum Dequeued<T> {
    /// The oldest item, now removed from the queue.
    Item(T),
    /// Nothing is queued, but producers may still add items: the consumer
    /// suspends.
    Empty,
    /// Nothing is queued and nothing will be: the queue is closed.
    Closed,
}

/// A FIFO queue with a capacity fixed at construction and a closed flag.
///
/// Its view is the sequence of queued items, oldest first.
pub struct DispatchQueue<T> {
    items: VecDeque<T>,
    capacity: usize,
    closed: bool,
}

impl<T> View for DispatchQueue<T> {
    type V = Seq<T>;

    closed spec fn view(&self) -> Seq<T> {
        self.items@
    }
}

impl<T> DispatchQueue<T> {
    /// The queue never holds more items than its capacity.
    pub closed spec fn wf(&self) -> bool {
        self.items@.len() <= self.capacity
    }

    pub closed spec fn spec_capacity(&self) -> usize {
        self.capacity
    }

    pub closed spec fn spec_is_closed(&self) -> bool {
        self.closed
    }

    pub open spec fn spec_is_full(&self) -> bool {
        self@.len() >= self.spec_capacity()
    }

    /// An open, empty queue that holds up to `capacity` items.
    pub fn new(capacity: usize) -> (q: Self)
        ensures
            q.wf(),
            q@ == Seq::<T>::empty(),
            q.spec_capacity() == capacity,
            !q.spec_is_closed(),
    {
        DispatchQueue { items: VecDeque::new(), capacity, closed: false }
    }

    #[verifier::when_used_as_spec(spec_capacity)]
    pub fn capacity(&self) -> (c: usize)
        ensures
            c == self.spec_capacity(),
    {
        self.capacity
    }

    #[verifier::when_used_as_spec(spec_is_closed)]
    pub fn is_closed(&self) -> (c: bool)
        ensures
            c == self.spec_is_closed(),
    {
        self.closed
    }

    /// The number of queued items.
    pub fn len(&self) -> (n: usize)
        ensures
            n == self@.len(),
    {
        self.items.len()
    }

    #[verifier::when_used_as_spec(spec_is_full)]
    pub fn is_full(&self) -> (f: bool)
        ensures
            f == self.spec_is_full(),
    {
        self.items.len() >= self.capacity
    }

    /// Appends `item` behind everything already queued.
    ///
    /// A closed queue refuses with `Closed`, an open queue at capacity with
    /// `Full`; both hand `item` back and leave the queue as it was.
    pub fn enqueue(&mut self, item: T) -> (r: Result<(), EnqueueError<T>>)
        requires
            old(self).wf(),
        ensures
            final(self).wf(),
            final(self).capacity() == old(self).capacity(),
            final(self).is_closed() == old(self).is_closed(),
            match r {
                Ok(()) => {
                    &&& !old(self).is_closed()
                    &&& !old(self).is_full()
                    &&& final(self)@ == old(self)@.push(item)
                },
                Err(EnqueueError::Closed(back)) => {
                    &&& old(self).is_closed()
                    &&& back == item
                    &&& final(self)@ == old(self)@
                },
                Err(EnqueueError::Full(back)) => {
                    &&& !old(self).is_closed()
                    &&& old(self).is_full()
                    &&& back == item
                    &&& final(self)@ == old(self)@
                },
            },
    {
        if self.closed {
            Err(EnqueueError::Closed(item))
        } else if self.items.len() >= self.capacity {
            Err(EnqueueError::Full(item))
        } else {
            self.items.push_back(item);
            Ok(())
        }
    }

    /// Removes and returns the oldest item.
    ///
    /// Items queued before a close are still delivered; only an empty queue
    /// reports `Closed` (when closed) or `Empty` (when open).
    pub fn dequeue(&mut self) -> (r: Dequeued<T>)
        requires
            old(self).wf(),
        ensures
            final(self).wf(),
            final(self).capacity() == old(self).capacity(),
            final(self).is_closed() == old(self).is_closed(),
            match r {
                Dequeued::Item(item) => {
                    &&& old(self)@.len() > 0
                    &&& item == old(self)@[0]
                    &&& final(self)@ == old(self)@.subrange(1, old(self)@.len() as int)
                },
                Dequeued::Empty => {
                    &&& old(self)@.len() == 0
                    &&& !old(self).is_closed()
                    &&& final(self)@ == old(self)@
                },
                Dequeued::Closed => {
                    &&& old(self)@.len() == 0
                    &&& old(self).is_closed()
                    &&& final(self)@ == old(self)@
                },
            },
    {
        match self.items.pop_front() {
            Some(item) => Dequeued::Item(item),
            None => if self.closed {
                Dequeued::Closed
            } else {
                Dequeued::Empty
            },
        }
    }

    /// Closes the queue: every later `enqueue` fails with `Closed`. What is
    /// queued stays queued until it is taken.
    pub fn close(&mut self)
        requires
            old(self).wf(),
        ensures
            final(self).wf(),
            final(self).is_closed(),
            final(self).capacity() == old(self).capacity(),
            final(self)@ == old(self)@,
    {
        self.closed = true;
    }
}

} // verus!
