//! The bridge as a state machine: its abstract state, its transitions, and
//! the invariant that every transition keeps.
//!
//! [`crate::bridge::Bridge`] implements these transitions; its contracts are
//! written in terms of this module, and so are the laws in [`crate::laws`].

use crate::error::BridgeError;
use crate::request::{PendingRequest, Reply, RequestMeta, Ticket};
use crate::slot::CompletionSlot;
use crate::table::Handle;
use vstd::prelude::*;

verus! {

/// What a handle can name.
#[derive(Clone, Copy, Debug, PartialEq, Eq, Structural)]
pub enum Resource {
    /// The consumer end of the worker's dispatch queue.
    Inbox,
    /// The producer half of the completion slot with this ticket: the
    /// request has been handed to the engine and awaits its response.
    Pending(Ticket),
}

/// Where a worker stands between boot and shutdown.
#[derive(Clone, Copy, Debug, PartialEq, Eq, Structural)]
pub enum Lifecycle {
    /// The engine has not opened the inbox yet. Requests are queued for it.
    Booting,
    /// The engine has opened the inbox and serves requests.
    Serving,
    /// The worker routes no more requests to its engine, for this reason.
    Down(BridgeError),
}

/// The abstract state of one worker's bridge.
#[verifier::ext_equal]
pub struct BridgeState {
    /// How many requests the dispatch queue holds at most.
    pub capacity: nat,
    /// Whether the dispatch queue has been closed.
    pub closed: bool,
    /// Why the bridge closed, once it has.
    pub fault: Option<BridgeError>,
    /// The queued requests, oldest first.
    pub pending: Seq<PendingRequest>,
    /// The handle of the inbox, once it has been opened.
    pub inbox: Option<Handle>,
    /// The handle table.
    pub handles: Map<Handle, Resource>,
    /// The handle that will be issued next.
    pub next_handle: Handle,
    /// The completion slots that a connection still holds a ticket for.
    pub slots: Map<Ticket, CompletionSlot>,
    /// The ticket that will be issued next.
    pub next_ticket: Ticket,
}

impl BridgeState {
    /// A fresh bridge: open, nothing queued, no handle and no ticket issued.
    pub open spec fn init(capacity: nat) -> BridgeState {
        BridgeState {
            capacity,
            closed: false,
            fault: None,
            pending: Seq::empty(),
            inbox: None,
            handles: Map::empty(),
            next_handle: 1,
            slots: Map::empty(),
            next_ticket: 0,
        }
    }

    /// Whether a request with this ticket is in the queue.
    pub open spec fn queued(self, ticket: Ticket) -> bool {
        exists|i: int| 0 <= i < self.pending.len() && (#[trigger] self.pending[i]).ticket == ticket
    }

    /// Whether some handle names the slot with this ticket.
    pub open spec fn outstanding(self, ticket: Ticket) -> bool {
        exists|h: Handle| #[trigger]
            self.handles.contains_key(h) && self.handles[h] == Resource::Pending(ticket)
    }

    /// Whether `handle` names the inbox.
    pub open spec fn names_inbox(self, handle: Handle) -> bool {
        self.handles.contains_key(handle) && self.handles[handle] == Resource::Inbox
    }

    /// Whether `handle` names a request that awaits its response.
    pub open spec fn names_pending(self, handle: Handle) -> bool {
        self.handles.contains_key(handle) && self.handles[handle] is Pending
    }

    /// The ticket of the slot that `handle` names.
    pub open spec fn ticket_of(self, handle: Handle) -> Ticket
        recommends
            self.names_pending(handle),
    {
        self.handles[handle]->Pending_0
    }

    /// Whether a handle is left to issue.
    pub open spec fn has_spare_handle(self) -> bool {
        self.next_handle < u64::MAX
    }

    /// Whether a ticket is left to issue.
    pub open spec fn has_spare_ticket(self) -> bool {
        self.next_ticket < u64::MAX
    }

    /// The handle that `open_inbox` returns: the one already issued for the
    /// inbox, or else the next fresh one.
    pub open spec fn inbox_handle(self) -> Handle {
        match self.inbox {
            Some(h) => h,
            None => self.next_handle,
        }
    }

    /// Opening the inbox registers it once; opening it again changes
    /// nothing.
    pub open spec fn open_inbox(self) -> BridgeState {
        match self.inbox {
            Some(_) => self,
            None => BridgeState {
                inbox: Some(self.next_handle),
                handles: self.handles.insert(self.next_handle, Resource::Inbox),
                next_handle: (self.next_handle + 1) as Handle,
                ..self
            },
        }
    }

    /// Whether a submitted request is queued rather than refused.
    pub open spec fn accepts(self) -> bool {
        !self.closed && self.pending.len() < self.capacity
    }

    /// Submitting a request queues it behind the others under a fresh
    /// ticket, with a waiting slot.
    pub open spec fn submit(self, meta: RequestMeta) -> BridgeState
        recommends
            self.accepts(),
    {
        BridgeState {
            pending: self.pending.push(PendingRequest { ticket: self.next_ticket, meta }),
            slots: self.slots.insert(self.next_ticket, CompletionSlot::Waiting),
            next_ticket: (self.next_ticket + 1) as Ticket,
            ..self
        }
    }

    /// Delivering takes the oldest request off the queue and registers its
    /// slot under a fresh handle.
    pub open spec fn deliver(self) -> BridgeState
        recommends
            self.pending.len() > 0,
    {
        BridgeState {
            pending: self.pending.subrange(1, self.pending.len() as int),
            handles: self.handles.insert(
                self.next_handle,
                Resource::Pending(self.pending[0].ticket),
            ),
            next_handle: (self.next_handle + 1) as Handle,
            ..self
        }
    }

    /// Completing consumes the handle and writes `body` into the slot it
    /// named, if a connection still waits on that slot.
    pub open spec fn complete(self, handle: Handle, body: String) -> BridgeState
        recommends
            self.names_pending(handle),
    {
        let ticket = self.ticket_of(handle);
        BridgeState {
            handles: self.handles.remove(handle),
            slots: if self.slots.contains_key(ticket) && self.slots[ticket]
                == CompletionSlot::Waiting {
                self.slots.insert(ticket, CompletionSlot::Resolved(body))
            } else {
                self.slots
            },
            ..self
        }
    }

    /// What the holder of `ticket` is told.
    pub open spec fn reply(self, ticket: Ticket) -> Reply {
        if !self.slots.contains_key(ticket) {
            Reply::Unknown
        } else {
            match self.slots[ticket] {
                CompletionSlot::Resolved(body) => Reply::Ready(body),
                CompletionSlot::Waiting => if self.closed {
                    Reply::Failed
                } else {
                    Reply::Waiting
                },
            }
        }
    }

    /// Asking for the response uses the slot up unless the answer is to
    /// keep waiting.
    pub open spec fn collect(self, ticket: Ticket) -> BridgeState {
        if self.reply(ticket) == Reply::Waiting {
            self
        } else {
            BridgeState { slots: self.slots.remove(ticket), ..self }
        }
    }

    /// Abandoning drops the slot; the request itself stays where it is.
    pub open spec fn abandon(self, ticket: Ticket) -> BridgeState {
        BridgeState { slots: self.slots.remove(ticket), ..self }
    }

    /// Where the worker stands.
    pub open spec fn lifecycle(self) -> Lifecycle {
        match self.fault {
            Some(reason) => Lifecycle::Down(reason),
            None => if self.inbox is Some {
                Lifecycle::Serving
            } else {
                Lifecycle::Booting
            },
        }
    }

    /// Shutting stops the queue from taking requests and records why. A
    /// bridge that is already down keeps its first reason.
    pub open spec fn shut(self, reason: BridgeError) -> BridgeState {
        BridgeState {
            closed: true,
            fault: match self.fault {
                Some(first) => Some(first),
                None => Some(reason),
            },
            ..self
        }
    }

    /// Closing shuts the bridge as a closed queue.
    pub open spec fn close(self) -> BridgeState {
        self.shut(BridgeError::QueueClosed)
    }

    /// What the loss of the engine amounts to: a boot failure if the engine
    /// never opened the inbox, a closed queue if it did.
    pub open spec fn loss_reason(self) -> BridgeError {
        match self.lifecycle() {
            Lifecycle::Booting => BridgeError::EngineBootFailure,
            Lifecycle::Serving => BridgeError::QueueClosed,
            Lifecycle::Down(reason) => reason,
        }
    }

    /// Losing the engine shuts the bridge for the reason that the loss
    /// amounts to.
    pub open spec fn engine_lost(self) -> BridgeState {
        self.shut(self.loss_reason())
    }

    /// What holds of every reachable state.
    ///
    /// The bridge is closed exactly when a reason is recorded, and the
    /// reason is a fatal one. The queue respects its capacity. Live handles
    /// are nonzero and were issued; at most one of them names the inbox, and
    /// it is the recorded one. Every ticket in use was issued. No ticket is
    /// queued twice, named by two handles, or both queued and named by a
    /// handle. A slot whose request is still queued or still awaits
    /// completion has not been resolved.
    pub open spec fn inv(self) -> bool {
        &&& self.closed <==> self.fault is Some
        &&& self.fault is Some ==> self.fault->0.is_fatal()
        &&& self.pending.len() <= self.capacity
        &&& self.next_handle >= 1
        &&& forall|h: Handle| #[trigger]
            self.handles.contains_key(h) ==> 1 <= h < self.next_handle
        &&& match self.inbox {
            Some(h) => self.names_inbox(h),
            None => true,
        }
        &&& forall|h: Handle| #[trigger]
            self.handles.contains_key(h) && self.handles[h] == Resource::Inbox ==> self.inbox
                == Some(h)
        &&& forall|t: Ticket| #[trigger] self.slots.contains_key(t) ==> t < self.next_ticket
        &&& forall|i: int|
            0 <= i < self.pending.len() ==> (#[trigger] self.pending[i]).ticket
                < self.next_ticket
        &&& forall|i: int, j: int|
            0 <= i < j < self.pending.len() ==> (#[trigger] self.pending[i]).ticket != (
            #[trigger] self.pending[j]).ticket
        &&& forall|h: Handle| #[trigger]
            self.handles.contains_key(h) && self.handles[h] is Pending ==> self.ticket_of(h)
                < self.next_ticket
        &&& forall|h1: Handle, h2: Handle|
            #![trigger self.handles.contains_key(h1), self.handles.contains_key(h2)]
            self.handles.contains_key(h1) && self.handles.contains_key(h2)
                && self.handles[h1] is Pending && self.handles[h1] == self.handles[h2] ==> h1
                == h2
        &&& forall|h: Handle, i: int|
            #![trigger self.handles.contains_key(h), self.pending[i]]
            self.handles.contains_key(h) && 0 <= i < self.pending.len() ==> self.handles[h]
                != Resource::Pending(self.pending[i].ticket)
        &&& forall|i: int|
            0 <= i < self.pending.len() && self.slots.contains_key(
                (#[trigger] self.pending[i]).ticket,
            ) ==> self.slots[self.pending[i].ticket] == CompletionSlot::Waiting
        &&& forall|h: Handle| #[trigger]
            self.handles.contains_key(h) && self.handles[h] is Pending
                && self.slots.contains_key(self.ticket_of(h)) ==> self.slots[self.ticket_of(h)]
                == CompletionSlot::Waiting
    }

    /// A fresh bridge satisfies the invariant.
    pub proof fn lemma_init_inv(capacity: nat)
        ensures
            Self::init(capacity).inv(),
    {
    }

    /// Opening the inbox keeps the invariant.
    pub proof fn lemma_open_inbox_inv(self)
        requires
            self.inv(),
            self.inbox is None ==> self.has_spare_handle(),
        ensures
            self.open_inbox().inv(),
            self.open_inbox().names_inbox(self.inbox_handle()),
    {
    }

    /// Submitting an accepted request keeps the invariant.
    pub proof fn lemma_submit_inv(self, meta: RequestMeta)
        requires
            self.inv(),
            self.accepts(),
            self.has_spare_ticket(),
        ensures
            self.submit(meta).inv(),
    {
    }

    /// Delivering the oldest request keeps the invariant.
    pub proof fn lemma_deliver_inv(self)
        requires
            self.inv(),
            self.pending.len() > 0,
            self.has_spare_handle(),
        ensures
            self.deliver().inv(),
    {
    }

    /// Completing a request keeps the invariant.
    pub proof fn lemma_complete_inv(self, handle: Handle, body: String)
        requires
            self.inv(),
            self.names_pending(handle),
        ensures
            self.complete(handle, body).inv(),
    {
    }

    /// Asking for a response keeps the invariant.
    pub proof fn lemma_collect_inv(self, ticket: Ticket)
        requires
            self.inv(),
        ensures
            self.collect(ticket).inv(),
    {
    }

    /// Abandoning a ticket keeps the invariant.
    pub proof fn lemma_abandon_inv(self, ticket: Ticket)
        requires
            self.inv(),
        ensures
            self.abandon(ticket).inv(),
    {
    }

    /// Shutting for a fatal reason keeps the invariant, and so do closing
    /// and losing the engine.
    pub proof fn lemma_shut_inv(self, reason: BridgeError)
        requires
            self.inv(),
            reason.is_fatal(),
        ensures
            self.shut(reason).inv(),
            self.close().inv(),
            self.engine_lost().inv(),
    {
    }
}

} // verus!
