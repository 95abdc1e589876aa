//! Runs of a simulation: the operations a driver and its components perform,
//! one after another, and what holds of every state that a run reaches.

use crate::awaits::AwaitId;
use crate::directory::{handler_of, id_of, EventCancellationPolicy, HandlerKind};
use crate::event::{EventHeader, EventId, EventKey, EventKind, Id, TaskId, Time, TypeTag};
use crate::event_queue::is_earliest;
use crate::registry::KeyGetter;
use crate::state::{Action, SimState};
use vstd::prelude::*;

verus! {

/// One operation on a simulation.
pub enum Op<P> {
    /// A payload is emitted.
    Emit { src: Id, dst: Id, tag: TypeTag, key: Option<EventKey>, data: P, delay: Time },
    /// An event without a payload is emitted.
    Signal { src: Id, dst: Id, tag: TypeTag, key: Option<EventKey>, delay: Time },
    /// An event is canceled.
    CancelEvent { event: EventId },
    /// A key extractor is registered.
    RegisterKeyGetter { tag: TypeTag, getter: KeyGetter },
    /// A component is created.
    CreateContext { name: Seq<char> },
    /// A handler is bound to a component.
    AddHandler { comp: Id, kind: HandlerKind },
    /// The handler of a component is removed.
    RemoveHandler { comp: Id, policy: EventCancellationPolicy },
    /// A task starts to wait for an event.
    Await { task: TaskId, dst: Id, from: Option<Id>, tag: TypeTag, key: Option<EventKey> },
    /// An await is deregistered.
    CancelAwait { ordinal: AwaitId },
    /// A task goes to sleep.
    Sleep { task: TaskId, comp: Id, delay: Time },
    /// A task is spawned.
    Spawn,
    /// A task has completed.
    Finish { task: TaskId },
    /// The driver makes a step, leaving events after `limit` alone.
    Step { limit: Time },
}

impl<P> SimState<P> {
    /// Whether `op` may be performed in this state: what the operation
    /// demands of its caller, and that the counters it advances have room.
    pub open spec fn admits(self, op: Op<P>) -> bool {
        match op {
            Op::Emit { src, dst, tag, key, data, delay } => self.may_emit(tag, key)
                && self.event_count < u64::MAX && self.clock + delay <= u64::MAX,
            Op::Signal { src, dst, tag, key, delay } => self.may_emit(tag, key) && self.event_count
                < u64::MAX && self.clock + delay <= u64::MAX,
            Op::CancelEvent { event } => true,
            Op::RegisterKeyGetter { tag, getter } => self.may_register(tag, getter),
            Op::CreateContext { name } => id_of(self.components, name) is None
                && self.components.len() < u32::MAX,
            Op::AddHandler { comp, kind } => comp < self.components.len() && handler_of(
                self.components,
                comp,
            ) is None,
            Op::RemoveHandler { comp, policy } => true,
            Op::Await { task, dst, from, tag, key } => self.may_await(tag, key) && self.await_count
                < u64::MAX,
            Op::CancelAwait { ordinal } => true,
            Op::Sleep { task, comp, delay } => self.event_count < u64::MAX && self.await_count
                < u64::MAX && self.timer_count < u64::MAX && self.clock + delay <= u64::MAX,
            Op::Spawn => self.executor.count < u64::MAX,
            Op::Finish { task } => true,
            Op::Step { limit } => true,
        }
    }

    /// The state after `op`.
    pub open spec fn apply(self, op: Op<P>) -> Self {
        match op {
            Op::Emit { src, dst, tag, key, data, delay } => self.emit(
                src,
                dst,
                tag,
                key,
                data,
                delay,
            ),
            Op::Signal { src, dst, tag, key, delay } => self.signal(src, dst, tag, key, delay),
            Op::CancelEvent { event } => self.cancel_event(event),
            Op::RegisterKeyGetter { tag, getter } => self.register_key_getter(tag, getter),
            Op::CreateContext { name } => self.create_context(name),
            Op::AddHandler { comp, kind } => self.add_handler(comp, kind),
            Op::RemoveHandler { comp, policy } => self.remove_handler(comp, policy),
            Op::Await { task, dst, from, tag, key } => self.await_event(
                task,
                dst,
                from,
                EventKind::Message(tag),
                key,
            ),
            Op::CancelAwait { ordinal } => self.cancel_await(ordinal),
            Op::Sleep { task, comp, delay } => self.sleep(task, comp, delay),
            Op::Spawn => self.spawn(),
            Op::Finish { task } => self.finish(task),
            Op::Step { limit } => self.step(limit).0,
        }
    }

    /// The header of the event that `op` emits in this state, if it emits one.
    pub open spec fn emitted_by(self, op: Op<P>) -> Option<EventHeader> {
        match op {
            Op::Emit { src, dst, tag, key, data, delay } => Some(
                self.next_header(src, dst, EventKind::Message(tag), key, delay),
            ),
            Op::Signal { src, dst, tag, key, delay } => Some(
                self.next_header(src, dst, EventKind::Message(tag), key, delay),
            ),
            Op::Sleep { task, comp, delay } => Some(
                self.next_header(
                    comp,
                    comp,
                    EventKind::Timer,
                    Some(self.timer_count as EventKey),
                    delay,
                ),
            ),
            _ => None,
        }
    }

    /// What `op` hands to the driver: the action of a step, nothing otherwise.
    pub open spec fn output(self, op: Op<P>) -> Option<Action<P>> {
        match op {
            Op::Step { limit } => Some(self.step(limit).1),
            _ => None,
        }
    }

    /// The state after the operations `ops`, performed in order.
    pub open spec fn run(self, ops: Seq<Op<P>>) -> Self
        decreases ops.len(),
    {
        if ops.len() == 0 {
            self
        } else {
            self.run(ops.drop_last()).apply(ops.last())
        }
    }

    /// Whether each of `ops` may be performed in the state that the ones before it led to.
    pub open spec fn admits_run(self, ops: Seq<Op<P>>) -> bool
        decreases ops.len(),
    {
        if ops.len() == 0 {
            true
        } else {
            self.admits_run(ops.drop_last()) && self.run(ops.drop_last()).admits(ops.last())
        }
    }

    /// What the driver saw during the run: the actions of its steps, in order.
    pub open spec fn trace(self, ops: Seq<Op<P>>) -> Seq<Action<P>>
        decreases ops.len(),
    {
        if ops.len() == 0 {
            Seq::empty()
        } else {
            let before = self.trace(ops.drop_last());
            match self.run(ops.drop_last()).output(ops.last()) {
                Some(action) => before.push(action),
                None => before,
            }
        }
    }

    /// `self` comes no later than `next`: the clock and the counters have not
    /// gone back, and what was delivered is still the start of the history.
    pub open spec fn precedes(self, next: Self) -> bool {
        &&& self.clock <= next.clock
        &&& self.event_count <= next.event_count
        &&& self.await_count <= next.await_count
        &&& self.timer_count <= next.timer_count
        &&& self.executor.count <= next.executor.count
        &&& self.delivered.is_prefix_of(next.delivered)
    }

    /// An admissible operation keeps the invariant.
    pub proof fn lemma_apply_wf(self, op: Op<P>)
        requires
            self.wf(),
            self.admits(op),
        ensures
            self.apply(op).wf(),
    {
        match op {
            Op::Emit { src, dst, tag, key, data, delay } => {
                self.lemma_emit_wf(src, dst, tag, key, data, delay);
            },
            Op::Signal { src, dst, tag, key, delay } => {
                self.lemma_signal_wf(src, dst, tag, key, delay);
            },
            Op::CancelEvent { event } => {
                self.lemma_cancel_event_wf(event);
            },
            Op::RegisterKeyGetter { tag, getter } => {
                self.lemma_register_key_getter_wf(tag, getter);
            },
            Op::CreateContext { name } => {
                self.lemma_create_context_wf(name);
            },
            Op::AddHandler { comp, kind } => {
                self.lemma_add_handler_wf(comp, kind);
            },
            Op::RemoveHandler { comp, policy } => {
                self.lemma_remove_handler_wf(comp, policy);
            },
            Op::Await { task, dst, from, tag, key } => {
                self.lemma_await_message_wf(task, dst, from, tag, key);
            },
            Op::CancelAwait { ordinal } => {
                self.lemma_cancel_await_wf(ordinal);
            },
            Op::Sleep { task, comp, delay } => {
                self.lemma_sleep_wf(task, comp, delay);
            },
            Op::Spawn => {
                self.lemma_spawn_wf();
            },
            Op::Finish { task } => {
                self.lemma_finish_wf(task);
            },
            Op::Step { limit } => {
                self.lemma_step_wf(limit);
            },
        }
    }

    /// No operation turns the clock or a counter back, and none rewrites the history.
    pub proof fn lemma_apply_precedes(self, op: Op<P>)
        requires
            self.wf(),
        ensures
            self.precedes(self.apply(op)),
    {
        match op {
            Op::Step { limit } => {
                if self.executor.ready.len() == 0 && self.has_due(limit) {
                    let e = choose|e: EventHeader| is_earliest(e, self.pending) && e.time <= limit;
                    self.lemma_deliver_wf(e);
                }
            },
            _ => {},
        }
    }

    /// Every state that a new simulation reaches by an admissible run satisfies the invariant.
    pub proof fn lemma_reachable_wf(ops: Seq<Op<P>>)
        requires
            Self::initial().admits_run(ops),
        ensures
            Self::initial().run(ops).wf(),
    {
        Self::lemma_initial_wf();
        Self::initial().lemma_run_wf(ops);
    }

    /// Every state of an admissible run satisfies the invariant and comes no
    /// earlier than the state the run started from.
    pub proof fn lemma_run_wf(self, ops: Seq<Op<P>>)
        requires
            self.wf(),
            self.admits_run(ops),
        ensures
            self.run(ops).wf(),
            self.precedes(self.run(ops)),
        decreases ops.len(),
    {
        if ops.len() > 0 {
            self.lemma_run_wf(ops.drop_last());
            let mid = self.run(ops.drop_last());
            mid.lemma_apply_wf(ops.last());
            mid.lemma_apply_precedes(ops.last());
        }
    }
}

} // verus!
