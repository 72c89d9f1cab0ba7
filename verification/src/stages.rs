//! The life of one request, from submission to completion.
//!
//! A request is queued, then handed to the engine under a handle, then
//! finished by the completion of that handle. Nothing moves it backwards or
//! lets it skip a stage, and what happens to one request moves no other.

use crate::request::{RequestMeta, Ticket};
use crate::state::{BridgeState, Resource};
use crate::table::Handle;
use vstd::prelude::*;

verus! {

/// Where a request stands.
pub enum Stage {
    /// No request has been submitted under this ticket.
    Unissued,
    /// The request waits in the dispatch queue. No handle names it.
    Enqueued,
    /// The engine has polled the request and holds a handle for it.
    Dequeued,
    /// The handle has been completed. Nothing names the request any more.
    Finished,
}

/// The stage of the request with this ticket.
pub open spec fn stage(s: BridgeState, ticket: Ticket) -> Stage {
    if s.queued(ticket) {
        Stage::Enqueued
    } else if s.outstanding(ticket) {
        Stage::Dequeued
    } else if ticket < s.next_ticket {
        Stage::Finished
    } else {
        Stage::Unissued
    }
}

/// Whether the connection of this request still waits for the response.
/// A request whose connection went away lives on until it is finished.
pub open spec fn awaited(s: BridgeState, ticket: Ticket) -> bool {
    s.slots.contains_key(ticket)
}

/// A submission starts the life of exactly one request: the new ticket
/// goes from unissued to enqueued, and every other request stays where it
/// is.
pub proof fn law_submit_enqueues(s: BridgeState, meta: RequestMeta)
    requires
        s.inv(),
        s.accepts(),
        s.has_spare_ticket(),
    ensures
        stage(s, s.next_ticket) == Stage::Unissued,
        stage(s.submit(meta), s.next_ticket) == Stage::Enqueued,
        awaited(s.submit(meta), s.next_ticket),
        forall|t: Ticket| t != s.next_ticket ==> #[trigger] stage(s.submit(meta), t) == stage(s, t),
{
    let after = s.submit(meta);
    let new = s.next_ticket;
    lemma_not_yet_issued(s, new);
    assert(after.pending[s.pending.len() as int].ticket == new);
    assert forall|t: Ticket| t != new implies #[trigger] stage(after, t) == stage(s, t) by {
        if s.queued(t) {
            let i = choose|i: int| 0 <= i < s.pending.len() && (#[trigger] s.pending[i]).ticket == t;
            assert(after.pending[i].ticket == t);
        }
        if after.queued(t) {
            let i = choose|i: int|
                0 <= i < after.pending.len() && (#[trigger] after.pending[i]).ticket == t;
            assert(s.pending[i].ticket == t);
        }
        lemma_same_handles(s, after, t);
        lemma_issued_below_next(s, t);
    }
}

/// A poll moves exactly one request: the oldest queued request goes from
/// enqueued to dequeued, and every other request stays where it is.
pub proof fn law_poll_dequeues(s: BridgeState)
    requires
        s.inv(),
        s.pending.len() > 0,
        s.has_spare_handle(),
    ensures
        stage(s, s.pending[0].ticket) == Stage::Enqueued,
        stage(s.deliver(), s.pending[0].ticket) == Stage::Dequeued,
        s.deliver().names_pending(s.next_handle),
        s.deliver().ticket_of(s.next_handle) == s.pending[0].ticket,
        forall|t: Ticket|
            t != s.pending[0].ticket ==> #[trigger] stage(s.deliver(), t) == stage(s, t),
{
    let after = s.deliver();
    let head = s.pending[0].ticket;
    assert(s.queued(head));
    lemma_deliver_moves_the_head(s);
    assert forall|t: Ticket| t != head implies #[trigger] stage(after, t) == stage(s, t) by {
        lemma_deliver_keeps_the_rest(s, t);
    }
}

/// A completion finishes exactly one request: the request that the handle
/// names goes from dequeued to finished, and every other request stays
/// where it is. No handle names a request that is still enqueued.
pub proof fn law_complete_finishes(s: BridgeState, handle: Handle, body: String)
    requires
        s.inv(),
        s.names_pending(handle),
    ensures
        stage(s, s.ticket_of(handle)) == Stage::Dequeued,
        stage(s.complete(handle, body), s.ticket_of(handle)) == Stage::Finished,
        forall|t: Ticket|
            t != s.ticket_of(handle) ==> #[trigger] stage(s.complete(handle, body), t) == stage(
                s,
                t,
            ),
{
    let after = s.complete(handle, body);
    let done = s.ticket_of(handle);
    assert(s.handles.contains_key(handle) && s.handles[handle] == Resource::Pending(done));
    assert(s.outstanding(done));
    assert(!s.queued(done)) by {
        if s.queued(done) {
            let i = choose|i: int|
                0 <= i < s.pending.len() && (#[trigger] s.pending[i]).ticket == done;
            assert(s.handles[handle] != Resource::Pending(s.pending[i].ticket));
        }
    }
    assert(!after.outstanding(done)) by {
        if after.outstanding(done) {
            let h = choose|h: Handle| #[trigger]
                after.handles.contains_key(h) && after.handles[h] == Resource::Pending(done);
            assert(s.handles.contains_key(h));
            assert(h == handle);
        }
    }
    assert forall|t: Ticket| t != done implies #[trigger] stage(after, t) == stage(s, t) by {
        lemma_same_queue(s, after, t);
        if s.outstanding(t) {
            let h = choose|h: Handle| #[trigger]
                s.handles.contains_key(h) && s.handles[h] == Resource::Pending(t);
            assert(after.handles.contains_key(h) && after.handles[h] == Resource::Pending(t));
        }
        if after.outstanding(t) {
            let h = choose|h: Handle| #[trigger]
                after.handles.contains_key(h) && after.handles[h] == Resource::Pending(t);
            assert(s.handles.contains_key(h) && s.handles[h] == Resource::Pending(t));
        }
    }
}

/// What the network side does with its tickets, and the opening and
/// closing of the bridge, move no request: a connection that reads its
/// response or goes away leaves every request where it is.
pub proof fn law_bystanders_move_nothing(s: BridgeState, ticket: Ticket, t: Ticket)
    requires
        s.inv(),
        s.inbox is None ==> s.has_spare_handle(),
    ensures
        stage(s.collect(ticket), t) == stage(s, t),
        stage(s.abandon(ticket), t) == stage(s, t),
        stage(s.close(), t) == stage(s, t),
        stage(s.engine_lost(), t) == stage(s, t),
        stage(s.open_inbox(), t) == stage(s, t),
        !awaited(s.abandon(ticket), ticket),
{
    lemma_same_queue(s, s.collect(ticket), t);
    lemma_same_handles(s, s.collect(ticket), t);
    lemma_same_queue(s, s.abandon(ticket), t);
    lemma_same_handles(s, s.abandon(ticket), t);
    lemma_same_queue(s, s.close(), t);
    lemma_same_handles(s, s.close(), t);
    lemma_same_queue(s, s.engine_lost(), t);
    lemma_same_handles(s, s.engine_lost(), t);
    let opened = s.open_inbox();
    lemma_same_queue(s, opened, t);
    if s.outstanding(t) {
        let h = choose|h: Handle| #[trigger]
            s.handles.contains_key(h) && s.handles[h] == Resource::Pending(t);
        assert(opened.handles.contains_key(h) && opened.handles[h] == Resource::Pending(t));
    }
    if opened.outstanding(t) {
        let h = choose|h: Handle| #[trigger]
            opened.handles.contains_key(h) && opened.handles[h] == Resource::Pending(t);
        assert(s.handles.contains_key(h) && s.handles[h] == Resource::Pending(t));
    }
}

/// Two states with the same queue have the same requests queued.
proof fn lemma_same_queue(a: BridgeState, b: BridgeState, t: Ticket)
    requires
        a.pending == b.pending,
    ensures
        a.queued(t) == b.queued(t),
{
    if a.queued(t) {
        let i = choose|i: int| 0 <= i < a.pending.len() && (#[trigger] a.pending[i]).ticket == t;
        assert(b.pending[i].ticket == t);
    }
    if b.queued(t) {
        let i = choose|i: int| 0 <= i < b.pending.len() && (#[trigger] b.pending[i]).ticket == t;
        assert(a.pending[i].ticket == t);
    }
}

/// Two states with the same table have the same requests named by
/// handles.
proof fn lemma_same_handles(a: BridgeState, b: BridgeState, t: Ticket)
    requires
        a.handles == b.handles,
    ensures
        a.outstanding(t) == b.outstanding(t),
{
    if a.outstanding(t) {
        let h = choose|h: Handle| #[trigger]
            a.handles.contains_key(h) && a.handles[h] == Resource::Pending(t);
        assert(b.handles.contains_key(h) && b.handles[h] == Resource::Pending(t));
    }
    if b.outstanding(t) {
        let h = choose|h: Handle| #[trigger]
            b.handles.contains_key(h) && b.handles[h] == Resource::Pending(t);
        assert(a.handles.contains_key(h) && a.handles[h] == Resource::Pending(t));
    }
}

/// A ticket that has not been issued is neither queued nor named by a
/// handle.
proof fn lemma_not_yet_issued(s: BridgeState, ticket: Ticket)
    requires
        s.inv(),
        ticket >= s.next_ticket,
    ensures
        !s.queued(ticket),
        !s.outstanding(ticket),
{
    if s.queued(ticket) {
        let i = choose|i: int| 0 <= i < s.pending.len() && (#[trigger] s.pending[i]).ticket == ticket;
        assert(s.pending[i].ticket < s.next_ticket);
    }
    if s.outstanding(ticket) {
        let h = choose|h: Handle| #[trigger]
            s.handles.contains_key(h) && s.handles[h] == Resource::Pending(ticket);
        assert(s.ticket_of(h) < s.next_ticket);
    }
}

/// A ticket that is queued or named by a handle has been issued.
proof fn lemma_issued_below_next(s: BridgeState, ticket: Ticket)
    requires
        s.inv(),
    ensures
        s.queued(ticket) || s.outstanding(ticket) ==> ticket < s.next_ticket,
{
    if ticket >= s.next_ticket {
        lemma_not_yet_issued(s, ticket);
    }
}

/// After a poll the head of the queue is named by the new handle and is no
/// longer queued.
proof fn lemma_deliver_moves_the_head(s: BridgeState)
    requires
        s.inv(),
        s.pending.len() > 0,
        s.has_spare_handle(),
    ensures
        !s.deliver().queued(s.pending[0].ticket),
        s.deliver().outstanding(s.pending[0].ticket),
        s.deliver().names_pending(s.next_handle),
        s.deliver().ticket_of(s.next_handle) == s.pending[0].ticket,
{
    let after = s.deliver();
    let head = s.pending[0].ticket;
    if after.queued(head) {
        let i = choose|i: int|
            0 <= i < after.pending.len() && (#[trigger] after.pending[i]).ticket == head;
        assert(after.pending[i] == s.pending[i + 1]);
        assert(s.pending[0].ticket != s.pending[i + 1].ticket);
    }
    assert(after.handles.contains_key(s.next_handle) && after.handles[s.next_handle]
        == Resource::Pending(head));
}

/// A poll leaves every request but the head of the queue where it is.
proof fn lemma_deliver_keeps_the_rest(s: BridgeState, t: Ticket)
    requires
        s.inv(),
        s.pending.len() > 0,
        s.has_spare_handle(),
        t != s.pending[0].ticket,
    ensures
        s.deliver().queued(t) == s.queued(t),
        s.deliver().outstanding(t) == s.outstanding(t),
        s.deliver().next_ticket == s.next_ticket,
{
    let after = s.deliver();
    if s.queued(t) {
        let i = choose|i: int| 0 <= i < s.pending.len() && (#[trigger] s.pending[i]).ticket == t;
        assert(after.pending[i - 1] == s.pending[i]);
        assert(after.pending[i - 1].ticket == t);
    }
    if after.queued(t) {
        let i = choose|i: int|
            0 <= i < after.pending.len() && (#[trigger] after.pending[i]).ticket == t;
        assert(after.pending[i] == s.pending[i + 1]);
        assert(s.pending[i + 1].ticket == t);
    }
    if s.outstanding(t) {
        let h = choose|h: Handle| #[trigger]
            s.handles.contains_key(h) && s.handles[h] == Resource::Pending(t);
        assert(h != s.next_handle);
        assert(after.handles.contains_key(h) && after.handles[h] == Resource::Pending(t));
    }
    if after.outstanding(t) {
        let h = choose|h: Handle| #[trigger]
            after.handles.contains_key(h) && after.handles[h] == Resource::Pending(t);
        assert(h != s.next_handle);
        assert(s.handles.contains_key(h) && s.handles[h] == Resource::Pending(t));
    }
}

} // verus!
