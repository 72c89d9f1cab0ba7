//! What holds of the bridge across several operations.
//!
//! Every law is stated over the abstract state of [`crate::state`], in which
//! the contracts of [`crate::bridge::Bridge`] are written.

use crate::error::BridgeError;
use crate::request::{Reply, RequestMeta, Ticket};
use crate::slot::CompletionSlot;
use crate::state::{BridgeState, Lifecycle, Resource};
use crate::table::Handle;
use vstd::prelude::*;

verus! {

/// The metadata of the queued requests, oldest first.
pub open spec fn queued_metas(s: BridgeState) -> Seq<RequestMeta> {
    Seq::new(s.pending.len(), |i: int| s.pending[i].meta)
}

/// The state after the requests of `metas` have been submitted in order.
pub open spec fn submit_all(s: BridgeState, metas: Seq<RequestMeta>) -> BridgeState
    decreases metas.len(),
{
    if metas.len() == 0 {
        s
    } else {
        submit_all(s, metas.drop_last()).submit(metas.last())
    }
}

/// The state after `n` successful polls.
pub open spec fn deliver_many(s: BridgeState, n: nat) -> BridgeState
    decreases n,
{
    if n == 0 {
        s
    } else {
        deliver_many(s, (n - 1) as nat).deliver()
    }
}

/// The requests that `n` successful polls hand to the engine, in the order
/// of the polls.
pub open spec fn delivered(s: BridgeState, n: nat) -> Seq<RequestMeta>
    decreases n,
{
    if n == 0 {
        Seq::empty()
    } else {
        delivered(s, (n - 1) as nat).push(deliver_many(s, (n - 1) as nat).pending[0].meta)
    }
}

/// Submitting a run of requests to an open bridge with room for all of them
/// queues them behind what was queued, in the order given, and touches
/// nothing on the engine's side.
pub proof fn lemma_submit_all(s: BridgeState, metas: Seq<RequestMeta>)
    requires
        s.inv(),
        !s.closed,
        s.pending.len() + metas.len() <= s.capacity,
        s.next_ticket + metas.len() <= u64::MAX,
    ensures
        submit_all(s, metas).inv(),
        queued_metas(submit_all(s, metas)) == queued_metas(s) + metas,
        submit_all(s, metas).pending.len() == s.pending.len() + metas.len(),
        submit_all(s, metas).next_ticket == s.next_ticket + metas.len(),
        submit_all(s, metas).closed == s.closed,
        submit_all(s, metas).capacity == s.capacity,
        submit_all(s, metas).inbox == s.inbox,
        submit_all(s, metas).handles == s.handles,
        submit_all(s, metas).next_handle == s.next_handle,
    decreases metas.len(),
{
    if metas.len() == 0 {
        assert(queued_metas(s) + metas =~= queued_metas(s));
    } else {
        let before = submit_all(s, metas.drop_last());
        lemma_submit_all(s, metas.drop_last());
        before.lemma_submit_inv(metas.last());
        assert(queued_metas(before.submit(metas.last())) =~= queued_metas(before).push(
            metas.last(),
        ));
        assert(metas =~= metas.drop_last().push(metas.last()));
        assert(queued_metas(s) + metas =~= (queued_metas(s) + metas.drop_last()).push(
            metas.last(),
        ));
    }
}

/// Polling `n` queued requests hands out the `n` oldest, oldest first, and
/// leaves the rest queued in their order.
pub proof fn lemma_deliver_many(s: BridgeState, n: nat)
    requires
        s.inv(),
        n <= s.pending.len(),
        s.next_handle + n <= u64::MAX,
    ensures
        deliver_many(s, n).inv(),
        deliver_many(s, n).pending == s.pending.subrange(n as int, s.pending.len() as int),
        deliver_many(s, n).next_handle == s.next_handle + n,
        delivered(s, n) == queued_metas(s).subrange(0, n as int),
    decreases n,
{
    if n == 0 {
        assert(s.pending.subrange(0, s.pending.len() as int) =~= s.pending);
        assert(queued_metas(s).subrange(0, 0) =~= Seq::<RequestMeta>::empty());
    } else {
        let m = (n - 1) as nat;
        let before = deliver_many(s, m);
        lemma_deliver_many(s, m);
        before.lemma_deliver_inv();
        assert(before.deliver().pending =~= s.pending.subrange(
            n as int,
            s.pending.len() as int,
        ));
        assert(before.pending[0] == s.pending[m as int]);
        assert(delivered(s, n) =~= queued_metas(s).subrange(0, n as int));
    }
}

/// First in, first out: whatever is submitted to an open bridge with room
/// for it comes out of the polls in the order of submission, behind what
/// was queued before.
pub proof fn law_fifo(s: BridgeState, metas: Seq<RequestMeta>)
    requires
        s.inv(),
        !s.closed,
        s.pending.len() + metas.len() <= s.capacity,
        s.next_ticket + metas.len() <= u64::MAX,
        s.next_handle + s.pending.len() + metas.len() <= u64::MAX,
    ensures
        delivered(submit_all(s, metas), s.pending.len() + metas.len()) == queued_metas(s)
            + metas,
        s.pending.len() == 0 ==> delivered(submit_all(s, metas), metas.len()) == metas,
{
    let filled = submit_all(s, metas);
    let total = s.pending.len() + metas.len();
    lemma_submit_all(s, metas);
    lemma_deliver_many(filled, total);
    assert(queued_metas(filled).subrange(0, total as int) =~= queued_metas(filled));
    if s.pending.len() == 0 {
        assert(queued_metas(s) + metas =~= metas);
    }
}

/// One step of the traffic through the queue.
pub enum Step {
    /// The network side submits a request.
    Submit(RequestMeta),
    /// The engine polls a request.
    Poll,
}

/// Whether the step goes through: a submission is accepted, a poll finds a
/// request.
pub open spec fn enabled(s: BridgeState, step: Step) -> bool {
    match step {
        Step::Submit(_) => s.accepts(),
        Step::Poll => s.pending.len() > 0,
    }
}

/// The state after a step.
pub open spec fn step(s: BridgeState, step: Step) -> BridgeState {
    match step {
        Step::Submit(meta) => s.submit(meta),
        Step::Poll => s.deliver(),
    }
}

/// The state after the steps of `trace`, taken in order.
pub open spec fn run(s: BridgeState, trace: Seq<Step>) -> BridgeState
    decreases trace.len(),
{
    if trace.len() == 0 {
        s
    } else {
        step(run(s, trace.drop_last()), trace.last())
    }
}

/// Whether every step of `trace` goes through when its turn comes.
pub open spec fn feasible(s: BridgeState, trace: Seq<Step>) -> bool
    decreases trace.len(),
{
    trace.len() > 0 ==> feasible(s, trace.drop_last()) && enabled(
        run(s, trace.drop_last()),
        trace.last(),
    )
}

/// The requests that the submissions of `trace` bring, in order.
pub open spec fn submitted(trace: Seq<Step>) -> Seq<RequestMeta>
    decreases trace.len(),
{
    if trace.len() == 0 {
        Seq::empty()
    } else {
        match trace.last() {
            Step::Submit(meta) => submitted(trace.drop_last()).push(meta),
            Step::Poll => submitted(trace.drop_last()),
        }
    }
}

/// The requests that the polls of `trace` hand out, in order.
pub open spec fn polled(s: BridgeState, trace: Seq<Step>) -> Seq<RequestMeta>
    decreases trace.len(),
{
    if trace.len() == 0 {
        Seq::empty()
    } else {
        match trace.last() {
            Step::Submit(_) => polled(s, trace.drop_last()),
            Step::Poll => polled(s, trace.drop_last()).push(
                run(s, trace.drop_last()).pending[0].meta,
            ),
        }
    }
}

/// First in, first out, however submissions and polls interleave: what the
/// polls have handed out, followed by what is still queued, is what was
/// queued at the start followed by everything submitted since, in order.
/// No request is lost, doubled or overtaken.
pub proof fn law_fifo_interleaved(s: BridgeState, trace: Seq<Step>)
    requires
        feasible(s, trace),
    ensures
        polled(s, trace) + queued_metas(run(s, trace)) == queued_metas(s) + submitted(trace),
    decreases trace.len(),
{
    if trace.len() == 0 {
        assert(polled(s, trace) + queued_metas(s) =~= queued_metas(s) + submitted(trace));
    } else {
        let before = run(s, trace.drop_last());
        let out = polled(s, trace.drop_last());
        let sent = submitted(trace.drop_last());
        law_fifo_interleaved(s, trace.drop_last());
        match trace.last() {
            Step::Submit(meta) => {
                assert(queued_metas(before.submit(meta)) =~= queued_metas(before).push(meta));
                assert(out + queued_metas(before).push(meta) =~= (out + queued_metas(
                    before,
                )).push(meta));
                assert((queued_metas(s) + sent).push(meta) =~= queued_metas(s) + sent.push(
                    meta,
                ));
            },
            Step::Poll => {
                let head = before.pending[0].meta;
                assert(queued_metas(before)[0] == head);
                assert(queued_metas(before.deliver()) =~= queued_metas(before).subrange(
                    1,
                    before.pending.len() as int,
                ));
                assert(out.push(head) + queued_metas(before.deliver()) =~= out + queued_metas(
                    before,
                ));
            },
        }
    }
}

/// A submission and a poll do not get in each other's way: with a request
/// queued, polling before another request arrives or after it leaves the
/// bridge in the same state and hands out the same request.
pub proof fn law_submit_commutes_with_poll(s: BridgeState, meta: RequestMeta)
    requires
        s.inv(),
        s.accepts(),
        s.pending.len() > 0,
    ensures
        s.submit(meta).deliver() == s.deliver().submit(meta),
        s.submit(meta).pending[0] == s.pending[0],
{
    assert(s.submit(meta).deliver() =~= s.deliver().submit(meta));
}

/// A completion resolves the one slot that its handle names, to the body
/// given, and touches no other slot; no other handle names that slot.
pub proof fn law_completion_resolves_one_slot(s: BridgeState, handle: Handle, body: String)
    requires
        s.inv(),
        s.names_pending(handle),
    ensures
        s.slots.contains_key(s.ticket_of(handle)) ==> {
            &&& s.complete(handle, body).slots[s.ticket_of(handle)] == CompletionSlot::Resolved(
                body,
            )
            &&& s.complete(handle, body).reply(s.ticket_of(handle)) == Reply::Ready(body)
        },
        s.complete(handle, body).slots.dom() == s.slots.dom(),
        forall|t: Ticket|
            t != s.ticket_of(handle) && s.slots.contains_key(t) ==> #[trigger] s.complete(
                handle,
                body,
            ).slots[t] == s.slots[t],
        forall|other: Handle|
            other != handle && #[trigger] s.names_pending(other) ==> s.ticket_of(other)
                != s.ticket_of(handle),
        !s.queued(s.ticket_of(handle)),
{
    assert(s.handles.contains_key(handle));
    assert(s.complete(handle, body).slots.dom() =~= s.slots.dom());
    assert forall|other: Handle| other != handle && #[trigger] s.names_pending(other) implies s.ticket_of(
        other,
    ) != s.ticket_of(handle) by {
        assert(s.handles.contains_key(other));
    }
}

/// A handle completes once: after a completion the same handle names
/// nothing, so a second completion is refused.
pub proof fn law_second_completion_fails(s: BridgeState, handle: Handle, body: String)
    requires
        s.inv(),
        s.names_pending(handle),
    ensures
        !s.complete(handle, body).names_pending(handle),
        !s.complete(handle, body).names_inbox(handle),
        !s.complete(handle, body).handles.contains_key(handle),
{
}

/// A handle that the table has not issued names nothing: neither the inbox
/// nor a pending request.
pub proof fn law_unissued_handle_names_nothing(s: BridgeState, handle: Handle)
    requires
        s.inv(),
        handle == 0 || handle >= s.next_handle,
    ensures
        !s.handles.contains_key(handle),
        !s.names_inbox(handle),
        !s.names_pending(handle),
{
}

/// A handle that was issued and has been consumed is never issued again: no
/// operation brings it back.
pub proof fn law_dead_handle_stays_dead(
    s: BridgeState,
    handle: Handle,
    meta: RequestMeta,
    other: Handle,
    body: String,
    ticket: Ticket,
)
    requires
        s.inv(),
        handle < s.next_handle,
        !s.handles.contains_key(handle),
    ensures
        s.inbox is Some ==> !s.open_inbox().handles.contains_key(handle),
        s.inbox is None && s.has_spare_handle() ==> !s.open_inbox().handles.contains_key(
            handle,
        ),
        !s.submit(meta).handles.contains_key(handle),
        s.has_spare_handle() ==> !s.deliver().handles.contains_key(handle),
        !s.complete(other, body).handles.contains_key(handle),
        !s.collect(ticket).handles.contains_key(handle),
        !s.abandon(ticket).handles.contains_key(handle),
        !s.close().handles.contains_key(handle),
{
}

/// Backpressure: a full open queue refuses a submission, and accepts one
/// again as soon as a single request has been polled.
pub proof fn law_backpressure(s: BridgeState)
    requires
        s.inv(),
        !s.closed,
        s.pending.len() == s.capacity,
    ensures
        !s.accepts(),
        s.capacity > 0 ==> s.deliver().accepts(),
{
}

/// Nothing queued is lost: an accepted request sits at the back of the
/// queue, and every request queued before it keeps its place until a poll
/// hands it out.
pub proof fn law_nothing_dropped(s: BridgeState, meta: RequestMeta)
    requires
        s.inv(),
        s.accepts(),
    ensures
        s.submit(meta).pending.len() == s.pending.len() + 1,
        s.submit(meta).pending.last().meta == meta,
        forall|i: int|
            0 <= i < s.pending.len() ==> #[trigger] s.submit(meta).pending[i] == s.pending[i],
        forall|i: int|
            1 <= i < s.pending.len() ==> #[trigger] s.pending[i] == s.deliver().pending[i - 1],
{
}

/// Closing turns every later submission away, whether or not the queue was
/// full, and tells the engine so once the queue has run empty.
pub proof fn law_closed_is_terminal(s: BridgeState, meta: RequestMeta, ticket: Ticket)
    requires
        s.inv(),
    ensures
        !s.close().accepts(),
        !s.close().submit(meta).accepts(),
        s.close().pending == s.pending,
        s.close().close() == s.close(),
        s.slots.contains_key(ticket) && s.slots[ticket] == CompletionSlot::Waiting
            ==> s.close().reply(ticket) == Reply::Failed,
{
}

/// Losing the engine is fatal to the worker and never passes in silence:
/// the bridge goes down for a fatal reason, a boot failure if the engine
/// never opened the inbox, and takes no request from then on.
pub proof fn law_engine_loss_is_fatal(s: BridgeState)
    requires
        s.inv(),
    ensures
        s.engine_lost().lifecycle() == Lifecycle::Down(s.loss_reason()),
        s.loss_reason().is_fatal(),
        s.lifecycle() == Lifecycle::Booting ==> s.loss_reason() == BridgeError::EngineBootFailure,
        s.lifecycle() == Lifecycle::Serving ==> s.loss_reason() == BridgeError::QueueClosed,
        !s.engine_lost().accepts(),
        s.engine_lost().engine_lost() == s.engine_lost(),
{
}

/// Every handle and every ticket handed out is new: a handle is nonzero
/// and names nothing before it is issued, and a ticket has no slot, no
/// queued request and no handle before it is issued.
pub proof fn law_issued_names_are_fresh(s: BridgeState)
    requires
        s.inv(),
    ensures
        s.next_handle != 0,
        !s.handles.contains_key(s.next_handle),
        s.inbox is None ==> s.inbox_handle() == s.next_handle,
        !s.slots.contains_key(s.next_ticket),
        !s.queued(s.next_ticket),
        !s.outstanding(s.next_ticket),
{
    if s.handles.contains_key(s.next_handle) {
        assert(s.next_handle < s.next_handle);
    }
    if s.slots.contains_key(s.next_ticket) {
        assert(s.next_ticket < s.next_ticket);
    }
    if s.queued(s.next_ticket) {
        let i = choose|i: int| 0 <= i < s.pending.len() && (#[trigger] s.pending[i]).ticket
            == s.next_ticket;
        assert(s.pending[i].ticket < s.next_ticket);
    }
    if s.outstanding(s.next_ticket) {
        let h = choose|h: Handle| #[trigger]
            s.handles.contains_key(h) && s.handles[h] == Resource::Pending(s.next_ticket);
        assert(s.ticket_of(h) < s.next_ticket);
    }
}

/// A connection that goes away does not disturb the engine: the handle of
/// its request still completes, and the body written is seen by no one.
pub proof fn law_abandoned_request_still_completes(s: BridgeState, handle: Handle, body: String)
    requires
        s.inv(),
        s.names_pending(handle),
    ensures
        s.abandon(s.ticket_of(handle)).inv(),
        s.abandon(s.ticket_of(handle)).names_pending(handle),
        s.abandon(s.ticket_of(handle)).complete(handle, body).slots == s.abandon(
            s.ticket_of(handle),
        ).slots,
        s.abandon(s.ticket_of(handle)).complete(handle, body).reply(s.ticket_of(handle))
            == Reply::Unknown,
{
    s.lemma_abandon_inv(s.ticket_of(handle));
}

/// The inbox is opened once: opening it again returns the same handle and
/// changes nothing, and no other handle ever names it.
pub proof fn law_inbox_opens_once(s: BridgeState, other: Handle)
    requires
        s.inv(),
        s.inbox is None ==> s.has_spare_handle(),
    ensures
        s.open_inbox().open_inbox() == s.open_inbox(),
        s.open_inbox().inbox_handle() == s.inbox_handle(),
        s.open_inbox().names_inbox(s.inbox_handle()),
        other != s.inbox_handle() ==> !s.open_inbox().names_inbox(other),
{
    s.lemma_open_inbox_inv();
    if s.open_inbox().names_inbox(other) {
        assert(s.open_inbox().handles.contains_key(other));
    }
}

} // verus!
