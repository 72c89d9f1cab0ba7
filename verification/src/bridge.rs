//! One worker's bridge: the dispatch queue, the handle table and the slot
//! arena behind the operations that the network side and the engine call.

use crate::error::BridgeError;
use crate::queue::{Dequeued, DispatchQueue, EnqueueError};
use crate::request::{PendingRequest, Reply, RequestMeta, Ticket};
use crate::slot::CompletionSlot;
use crate::state::{BridgeState, Lifecycle, Resource};
use crate::table::{Handle, HandleTable};
use std::collections::HashMap;
use vstd::prelude::*;

verus! {

broadcast use vstd::std_specs::hash::group_hash_axioms;

/// The capacity of a worker's dispatch queue unless another is asked for.
pub const DEFAULT_CAPACITY: usize = 104800;

/// What the engine gets from a poll of the inbox.
#[derive(Debug, PartialEq, Eq)]
pub enum Polled {
    /// The oldest queued request, and the handle under which its response
    /// is to be completed.
    Request { request: RequestMeta, response_handle: Handle },
    /// Nothing is queued yet: the engine suspends and polls again.
    Empty,
    /// Nothing is queued and the queue is closed: no more requests.
    Closed,
}

/// The bridge state of one worker. Nothing in it is shared with another
/// worker.
pub struct Bridge {
    queue: DispatchQueue<PendingRequest>,
    table: HandleTable<Resource>,
    inbox: Option<Handle>,
    slots: HashMap<Ticket, CompletionSlot>,
    next_ticket: Ticket,
    fault: Option<BridgeError>,
}

impl View for Bridge {
    type V = BridgeState;

    closed spec fn view(&self) -> BridgeState {
        BridgeState {
            capacity: self.queue.capacity() as nat,
            closed: self.queue.is_closed(),
            fault: self.fault,
            pending: self.queue@,
            inbox: self.inbox,
            handles: self.table@,
            next_handle: self.table.next_handle(),
            slots: self.slots@,
            next_ticket: self.next_ticket,
        }
    }
}

impl Bridge {
    /// The parts are well formed and the abstract state satisfies its
    /// invariant.
    pub closed spec fn wf(&self) -> bool {
        &&& self.queue.wf()
        &&& self.table.wf()
        &&& self@.inv()
    }

    /// A well-formed bridge is in a state that satisfies the invariant.
    pub proof fn law_wf_implies_inv(&self)
        requires
            self.wf(),
        ensures
            self@.inv(),
    {
    }

    /// An open bridge with an empty queue of the given capacity, an empty
    /// table and no slots.
    pub fn new(capacity: usize) -> (b: Self)
        ensures
            b.wf(),
            b@ == BridgeState::init(capacity as nat),
    {
        let b = Bridge {
            queue: DispatchQueue::new(capacity),
            table: HandleTable::new(),
            inbox: None,
            slots: HashMap::new(),
            next_ticket: 0,
            fault: None,
        };
        proof {
            BridgeState::lemma_init_inv(capacity as nat);
            assert(b@ =~= BridgeState::init(capacity as nat));
        }
        b
    }

    /// Whether the dispatch queue has been closed.
    pub fn is_closed(&self) -> (c: bool)
        ensures
            c == self@.closed,
    {
        self.queue.is_closed()
    }

    /// The capacity of the dispatch queue.
    pub fn capacity(&self) -> (c: usize)
        ensures
            c == self@.capacity,
    {
        self.queue.capacity()
    }

    /// How many requests are queued.
    pub fn queued(&self) -> (n: usize)
        ensures
            n == self@.pending.len(),
    {
        self.queue.len()
    }

    /// Whether a handle is left to issue.
    pub fn has_spare_handle(&self) -> (b: bool)
        ensures
            b == self@.has_spare_handle(),
    {
        self.table.has_spare()
    }

    /// Whether a ticket is left to issue.
    pub fn has_spare_ticket(&self) -> (b: bool)
        ensures
            b == self@.has_spare_ticket(),
    {
        self.next_ticket < u64::MAX
    }

    /// Queues a request for the engine and returns the ticket on which the
    /// connection waits for the response.
    ///
    /// A closed bridge refuses with `Closed`, a full queue with `Full`; the
    /// request is handed back and nothing changes.
    pub fn submit(&mut self, meta: RequestMeta) -> (r: Result<Ticket, EnqueueError<RequestMeta>>)
        requires
            old(self).wf(),
            old(self)@.has_spare_ticket(),
        ensures
            final(self).wf(),
            match r {
                Ok(ticket) => {
                    &&& old(self)@.accepts()
                    &&& ticket == old(self)@.next_ticket
                    &&& final(self)@ == old(self)@.submit(meta)
                },
                Err(EnqueueError::Closed(back)) => {
                    &&& old(self)@.closed
                    &&& back == meta
                    &&& final(self)@ == old(self)@
                },
                Err(EnqueueError::Full(back)) => {
                    &&& !old(self)@.closed
                    &&& old(self)@.pending.len() >= old(self)@.capacity
                    &&& back == meta
                    &&& final(self)@ == old(self)@
                },
            },
    {
        let ticket = self.next_ticket;
        match self.queue.enqueue(PendingRequest { ticket, meta }) {
            Ok(()) => {
                self.next_ticket = ticket + 1;
                self.slots.insert(ticket, CompletionSlot::new());
                proof {
                    old(self)@.lemma_submit_inv(meta);
                    assert(self@ =~= old(self)@.submit(meta));
                }
                Ok(ticket)
            },
            Err(EnqueueError::Closed(back)) => {
                assert(self@ =~= old(self)@);
                Err(EnqueueError::Closed(back.meta))
            },
            Err(EnqueueError::Full(back)) => {
                assert(self@ =~= old(self)@);
                Err(EnqueueError::Full(back.meta))
            },
        }
    }

    /// Asks for the response to `ticket`.
    ///
    /// A written response is handed over and its slot is used up. A slot
    /// that still waits stays while the bridge is open; once the bridge has
    /// closed it is dropped and the answer is `Failed`.
    pub fn take_reply(&mut self, ticket: Ticket) -> (r: Reply)
        requires
            old(self).wf(),
        ensures
            final(self).wf(),
            r == old(self)@.reply(ticket),
            final(self)@ == old(self)@.collect(ticket),
    {
        proof {
            old(self)@.lemma_collect_inv(ticket);
        }
        match self.slots.remove(&ticket) {
            None => {
                assert(self@ =~= old(self)@.collect(ticket));
                Reply::Unknown
            },
            Some(slot) => match slot.into_body() {
                Some(body) => {
                    assert(self@ =~= old(self)@.collect(ticket));
                    Reply::Ready(body)
                },
                None => if self.queue.is_closed() {
                    assert(self@ =~= old(self)@.collect(ticket));
                    Reply::Failed
                } else {
                    self.slots.insert(ticket, CompletionSlot::new());
                    assert(self@ =~= old(self)@.collect(ticket));
                    Reply::Waiting
                },
            },
        }
    }

    /// Drops the slot of a connection that has gone away, and says whether
    /// there was one. The request stays queued or pending: the engine may
    /// still complete it, and the response is then discarded.
    pub fn abandon(&mut self, ticket: Ticket) -> (dropped: bool)
        requires
            old(self).wf(),
        ensures
            final(self).wf(),
            dropped == old(self)@.slots.contains_key(ticket),
            final(self)@ == old(self)@.abandon(ticket),
    {
        let gone = self.slots.remove(&ticket);
        proof {
            old(self)@.lemma_abandon_inv(ticket);
            assert(self@ =~= old(self)@.abandon(ticket));
        }
        gone.is_some()
    }

    /// Where the worker stands: booting, serving, or down and why.
    pub fn lifecycle(&self) -> (l: Lifecycle)
        ensures
            l == self@.lifecycle(),
    {
        match self.fault {
            Some(reason) => Lifecycle::Down(reason),
            None => if self.inbox.is_some() {
                Lifecycle::Serving
            } else {
                Lifecycle::Booting
            },
        }
    }

    /// Closes the queue and records `reason` unless a reason is recorded
    /// already.
    fn shut(&mut self, reason: BridgeError)
        requires
            old(self).wf(),
            reason.is_fatal(),
        ensures
            final(self).wf(),
            final(self)@ == old(self)@.shut(reason),
    {
        self.queue.close();
        if self.fault.is_none() {
            self.fault = Some(reason);
        }
        proof {
            old(self)@.lemma_shut_inv(reason);
            assert(self@ =~= old(self)@.shut(reason));
        }
    }

    /// Closes the dispatch queue: no request is accepted any more, and
    /// connections that still wait are told that their request failed.
    pub fn close(&mut self)
        requires
            old(self).wf(),
        ensures
            final(self).wf(),
            final(self)@ == old(self)@.close(),
    {
        self.shut(BridgeError::QueueClosed);
    }

    /// Records that the engine is gone and returns the fatal condition to
    /// report: `EngineBootFailure` if the engine never opened the inbox,
    /// `QueueClosed` if it did, the first reason if the bridge was already
    /// down. The bridge is closed from then on.
    pub fn engine_lost(&mut self) -> (reason: BridgeError)
        requires
            old(self).wf(),
        ensures
            final(self).wf(),
            reason == old(self)@.loss_reason(),
            reason.is_fatal(),
            final(self)@ == old(self)@.engine_lost(),
            final(self)@.lifecycle() == Lifecycle::Down(reason),
    {
        let reason = match self.lifecycle() {
            Lifecycle::Booting => BridgeError::EngineBootFailure,
            Lifecycle::Serving => BridgeError::QueueClosed,
            Lifecycle::Down(first) => first,
        };
        self.shut(reason);
        reason
    }

    /// Returns the handle that names the inbox, registering the inbox on
    /// the first call. Every later call returns the same handle.
    pub fn open_inbox(&mut self) -> (handle: Handle)
        requires
            old(self).wf(),
            old(self)@.inbox is None ==> old(self)@.has_spare_handle(),
        ensures
            final(self).wf(),
            handle == old(self)@.inbox_handle(),
            final(self)@ == old(self)@.open_inbox(),
            final(self)@.names_inbox(handle),
    {
        proof {
            old(self)@.lemma_open_inbox_inv();
        }
        match self.inbox {
            Some(handle) => handle,
            None => {
                let handle = self.table.insert(Resource::Inbox);
                self.inbox = Some(handle);
                assert(self@ =~= old(self)@.open_inbox());
                handle
            },
        }
    }

    /// Takes the oldest queued request for the engine.
    ///
    /// `inbox` must name the inbox, else the poll fails with
    /// `UnknownHandle`. A delivered request comes with a fresh handle that
    /// names its completion slot. An empty queue answers `Empty` while open
    /// and `Closed` once closed.
    pub fn poll(&mut self, inbox: Handle) -> (r: Result<Polled, BridgeError>)
        requires
            old(self).wf(),
            old(self)@.has_spare_handle(),
        ensures
            final(self).wf(),
            match r {
                Ok(Polled::Request { request, response_handle }) => {
                    &&& old(self)@.names_inbox(inbox)
                    &&& old(self)@.pending.len() > 0
                    &&& request == old(self)@.pending[0].meta
                    &&& response_handle == old(self)@.next_handle
                    &&& final(self)@ == old(self)@.deliver()
                },
                Ok(Polled::Empty) => {
                    &&& old(self)@.names_inbox(inbox)
                    &&& old(self)@.pending.len() == 0
                    &&& !old(self)@.closed
                    &&& final(self)@ == old(self)@
                },
                Ok(Polled::Closed) => {
                    &&& old(self)@.names_inbox(inbox)
                    &&& old(self)@.pending.len() == 0
                    &&& old(self)@.closed
                    &&& final(self)@ == old(self)@
                },
                Err(e) => {
                    &&& !old(self)@.names_inbox(inbox)
                    &&& e == BridgeError::UnknownHandle
                    &&& final(self)@ == old(self)@
                },
            },
    {
        let is_inbox = match self.table.get(inbox) {
            Ok(Resource::Inbox) => true,
            _ => false,
        };
        if !is_inbox {
            return Err(BridgeError::UnknownHandle);
        }
        match self.queue.dequeue() {
            Dequeued::Item(next) => {
                let response_handle = self.table.insert(Resource::Pending(next.ticket));
                proof {
                    old(self)@.lemma_deliver_inv();
                    assert(self@ =~= old(self)@.deliver());
                }
                Ok(Polled::Request { request: next.meta, response_handle })
            },
            Dequeued::Empty => {
                assert(self@ =~= old(self)@);
                Ok(Polled::Empty)
            },
            Dequeued::Closed => {
                assert(self@ =~= old(self)@);
                Ok(Polled::Closed)
            },
        }
    }

    /// Answers the request that `response_handle` names with `body`.
    ///
    /// The handle is consumed: a second completion, like any handle that
    /// does not name a pending request, fails with `UnknownHandle` and
    /// changes nothing. If the connection has gone away the body is
    /// discarded and the completion still succeeds.
    pub fn complete(&mut self, response_handle: Handle, body: String) -> (r: Result<
        (),
        BridgeError,
    >)
        requires
            old(self).wf(),
        ensures
            final(self).wf(),
            match r {
                Ok(()) => {
                    &&& old(self)@.names_pending(response_handle)
                    &&& final(self)@ == old(self)@.complete(response_handle, body)
                },
                Err(e) => {
                    &&& !old(self)@.names_pending(response_handle)
                    &&& e == BridgeError::UnknownHandle
                    &&& final(self)@ == old(self)@
                },
            },
    {
        let ticket = match self.table.get(response_handle) {
            Ok(Resource::Pending(ticket)) => *ticket,
            _ => {
                return Err(BridgeError::UnknownHandle);
            },
        };
        let _ = self.table.remove(response_handle);
        match self.slots.remove(&ticket) {
            Some(slot) => {
                let mut slot = slot;
                let _ = slot.resolve(body);
                self.slots.insert(ticket, slot);
            },
            None => {},
        }
        proof {
            old(self)@.lemma_complete_inv(response_handle, body);
            assert(self@ =~= old(self)@.complete(response_handle, body));
        }
        Ok(())
    }
}

} // verus!
