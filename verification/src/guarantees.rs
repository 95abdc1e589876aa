//! What the engine guarantees about time, order and repetition.

use crate::awaits::{accepts, lemma_first_accepting, Await, AwaitId};
use crate::event::{
    earlier, EventHeader, EventId, EventKey, EventKind, Id, TaskId, Time, TypeTag,
};
use crate::event_queue::is_earliest;
use crate::registry::KeyGetter;
use crate::run::Op;
use crate::state::{Action, SimState};
use vstd::prelude::*;

verus! {

/// An event is delivered at the time it was emitted for, which is never
/// before the time of its emission: when the event that an emission at state
/// `emitted_at` created is delivered from state `delivered_at`, the clock
/// reads the emission's clock plus the delay.
pub proof fn lemma_delivery_not_before_emission<P>(
    emitted_at: SimState<P>,
    src: Id,
    dst: Id,
    kind: EventKind,
    key: Option<EventKey>,
    delay: Time,
    delivered_at: SimState<P>,
)
    requires
        emitted_at.clock + delay <= u64::MAX,
    ensures
        ({
            let h = emitted_at.next_header(src, dst, kind, key, delay);
            &&& delivered_at.deliver(h).clock == emitted_at.clock + delay
            &&& delivered_at.deliver(h).clock >= emitted_at.clock
        }),
{
}

/// The clock never travels backward, whatever the operation.
pub proof fn lemma_clock_never_decreases<P>(s: SimState<P>, op: Op<P>)
    requires
        s.wf(),
    ensures
        s.apply(op).clock >= s.clock,
{
}

/// Events are delivered in `(time, id)` order: of two delivered events, one
/// precedes the other in that order exactly when it was delivered first.
pub proof fn lemma_delivery_order<P>(s: SimState<P>, i: int, j: int)
    requires
        s.wf(),
        0 <= i < s.delivered.len(),
        0 <= j < s.delivered.len(),
    ensures
        earlier(s.delivered[i], s.delivered[j]) <==> i < j,
{
}

/// What a step delivers comes after everything delivered before and before
/// everything that stays pending.
pub proof fn lemma_step_delivers_in_order<P>(s: SimState<P>, h: EventHeader)
    requires
        s.wf(),
        is_earliest(h, s.pending),
    ensures
        forall|i: int| 0 <= i < s.delivered.len() ==> earlier(#[trigger] s.delivered[i], h),
        forall|e: EventHeader| #[trigger] s.deliver(h).pending.contains(e) ==> earlier(h, e),
{
}

/// No event is left behind by the clock: whatever is pending occurs at the
/// current time or later, so an event of time `t` is delivered before the
/// clock exceeds `t`.
pub proof fn lemma_pending_events_lie_ahead<P>(s: SimState<P>, e: EventHeader)
    requires
        s.wf(),
        s.pending.contains(e),
    ensures
        e.time >= s.clock,
{
}

/// An event emitted for the current time is scheduled after all events that
/// are already pending for that time.
pub proof fn lemma_emit_now_comes_last<P>(
    s: SimState<P>,
    src: Id,
    dst: Id,
    kind: EventKind,
    key: Option<EventKey>,
    e: EventHeader,
)
    requires
        s.wf(),
        s.event_count < u64::MAX,
        s.pending.contains(e),
        e.time == s.clock,
    ensures
        earlier(e, s.next_header(src, dst, kind, key, 0)),
{
}

/// An emission gets an id that no event had before: larger than those of all
/// pending and all delivered events.
pub proof fn lemma_emission_gets_new_id<P>(
    s: SimState<P>,
    src: Id,
    dst: Id,
    kind: EventKind,
    key: Option<EventKey>,
    delay: Time,
)
    requires
        s.wf(),
        s.event_count < u64::MAX,
    ensures
        ({
            let h = s.next_header(src, dst, kind, key, delay);
            &&& h.id == s.event_count
            &&& forall|e: EventHeader| #[trigger] s.pending.contains(e) ==> e.id < h.id
            &&& forall|i: int| 0 <= i < s.delivered.len() ==> (#[trigger] s.delivered[i]).id < h.id
        }),
{
}

/// Ids strictly increase over a simulation: an event emitted after any run
/// of operations gets a larger id than one emitted before the run. So of two
/// events for the same time, the one emitted first is delivered first.
pub proof fn lemma_ids_strictly_increase<P>(
    s: SimState<P>,
    first: Op<P>,
    ops: Seq<Op<P>>,
    second: Op<P>,
)
    requires
        s.wf(),
        s.emitted_by(first) is Some,
        s.admits(first),
        s.apply(first).admits_run(ops),
        s.apply(first).run(ops).emitted_by(second) is Some,
        s.apply(first).run(ops).admits(second),
    ensures
        ({
            let mid = s.apply(first).run(ops);
            let h1 = s.emitted_by(first)->0;
            let h2 = mid.emitted_by(second)->0;
            &&& s.apply(first).pending.contains(h1)
            &&& mid.apply(second).pending.contains(h2)
            &&& h1.id < h2.id
            &&& h1.time <= h2.time ==> earlier(h1, h2)
        }),
{
    s.lemma_apply_wf(first);
    s.apply(first).lemma_run_wf(ops);
}

/// A task that goes to sleep for `delay` at clock `t` resumes at clock
/// `t + delay` exactly: as long as the sleep is not canceled, delivering its
/// timer event sets the clock to `t + delay` and wakes the task.
pub proof fn lemma_sleep_resumes_on_time<P>(
    s: SimState<P>,
    task: TaskId,
    comp: Id,
    delay: Time,
    later: SimState<P>,
)
    requires
        s.wf(),
        s.event_count < u64::MAX,
        s.await_count < u64::MAX,
        s.timer_count < u64::MAX,
        s.clock + delay <= u64::MAX,
        later.wf(),
        later.pending.contains(
            s.next_header(
                comp,
                comp,
                EventKind::Timer,
                Some(s.timer_count as EventKey),
                delay,
            ),
        ),
        later.awaits.contains(
            (Await {
                id: s.await_count as AwaitId,
                task,
                dst: comp,
                src: Some(comp),
                kind: EventKind::Timer,
                key: Some(s.timer_count as EventKey),
            }),
        ),
    ensures
        ({
            let h = s.next_header(
                comp,
                comp,
                EventKind::Timer,
                Some(s.timer_count as EventKey),
                delay,
            );
            &&& s.sleep(task, comp, delay).pending.contains(h)
            &&& later.deliver(h).clock == s.clock + delay
            &&& later.route(h) == (Action::Wake {
                task,
                await_id: s.await_count as AwaitId,
                event: later.event_of(h),
            })
        }),
{
    let timer = Some(s.timer_count as EventKey);
    let h = s.next_header(comp, comp, EventKind::Timer, timer, delay);
    lemma_first_accepting(later.awaits, h, 0);
}

/// An event that exactly one pending await accepts goes to the task of that await.
pub proof fn lemma_sole_acceptor_is_woken<P>(s: SimState<P>, h: EventHeader, k: int)
    requires
        0 <= k < s.awaits.len(),
        accepts(s.awaits[k], h),
        forall|j: int| 0 <= j < s.awaits.len() && j != k ==> !accepts(#[trigger] s.awaits[j], h),
    ensures
        s.route(h) == (Action::Wake {
            task: s.awaits[k].task,
            await_id: s.awaits[k].id,
            event: s.event_of(h),
        }),
        s.deliver(h).awaits == s.awaits.remove(k),
        s.deliver(h).executor == s.executor.wake(s.awaits[k].task),
{
    lemma_first_accepting(s.awaits, h, 0);
}

/// Replay is deterministic: the same operations from the same state lead to
/// the same state, show the driver the same actions and deliver the same
/// events in the same order.
pub proof fn lemma_replay_is_deterministic<P>(a: SimState<P>, b: SimState<P>, ops: Seq<Op<P>>)
    requires
        a == b,
    ensures
        a.run(ops) == b.run(ops),
        a.trace(ops) == b.trace(ops),
        a.run(ops).delivered == b.run(ops).delivered,
{
}

/// The order of delivery is settled by the pending events alone: a
/// well-formed state has at most one event that can be delivered next.
pub proof fn lemma_next_delivery_is_determined<P>(s: SimState<P>, a: EventHeader, b: EventHeader)
    requires
        s.wf(),
        is_earliest(a, s.pending),
        is_earliest(b, s.pending),
    ensures
        a == b,
        s.next_event() == a,
{
}

/// Registering the same key extractor twice equals registering it once.
pub proof fn lemma_register_key_getter_twice<P>(s: SimState<P>, tag: TypeTag, getter: KeyGetter)
    requires
        s.may_register(tag, getter),
    ensures
        s.register_key_getter(tag, getter).may_register(tag, getter),
        s.register_key_getter(tag, getter).register_key_getter(tag, getter)
            == s.register_key_getter(tag, getter),
{
}

/// Canceling an event that is already canceled changes nothing.
pub proof fn lemma_cancel_event_twice<P>(s: SimState<P>, id: EventId)
    ensures
        s.cancel_event(id).cancel_event(id) == s.cancel_event(id),
{
}

/// Canceling an event that is not pending, such as one already delivered,
/// changes nothing.
pub proof fn lemma_cancel_event_not_pending<P>(s: SimState<P>, id: EventId)
    requires
        s.wf(),
        forall|e: EventHeader| #[trigger] s.pending.contains(e) ==> e.id != id,
    ensures
        s.cancel_event(id) == s,
{
}

/// A delivered event is never pending again, so canceling it changes nothing.
pub proof fn lemma_cancel_delivered_event<P>(s: SimState<P>, i: int)
    requires
        s.wf(),
        0 <= i < s.delivered.len(),
    ensures
        s.cancel_event(s.delivered[i].id) == s,
{
}

} // verus!
