//! The simulation as contracts see it: its abstract state and the
//! transitions the engine makes on it.

use crate::awaits::{first_accepting, ordinals_ordered, without, Await, AwaitId};
use crate::directory::{
    handler_of, names_unique, purged, with_handler, Component, EventCancellationPolicy,
    HandlerKind,
};
use crate::event::{
    earlier, Event, EventHeader, EventId, EventKey, EventKind, Id, TaskId, Time, TypeTag,
};
use crate::event_queue::is_earliest;
use crate::executor::ExecutorState;
use crate::registry::{admits, KeyGetter};
use vstd::prelude::*;

verus! {

/// What the driver has to do next.
#[derive(Debug)]
pub enum Action<P> {
    /// Poll `task`, which was at the front of the ready queue.
    Poll { task: TaskId },
    /// The next event was routed to await `await_id` of `task`, which is now ready.
    Wake { task: TaskId, await_id: AwaitId, event: Event<P> },
    /// The next event goes to the callback handler of its destination.
    Handle { handler: HandlerKind, event: Event<P> },
    /// The next event has neither an awaiter nor a handler: a fatal routing error.
    Unroutable { event: Event<P> },
    /// No task is ready and no event is due.
    Idle,
}

impl<P> Action<P> {
    /// Whether the action is the delivery of an event.
    pub open spec fn is_delivery(self) -> bool {
        self is Wake || self is Handle || self is Unroutable
    }

    /// Whether the action is the delivery of an event.
    pub fn delivers_event(&self) -> (b: bool)
        ensures
            b == self.is_delivery(),
    {
        match self {
            Action::Wake { .. } => true,
            Action::Handle { .. } => true,
            Action::Unroutable { .. } => true,
            _ => false,
        }
    }
}

/// The ids of the events in `set`.
pub open spec fn ids_of(set: Set<EventHeader>) -> Set<EventId> {
    Set::new(|id: EventId| exists|e: EventHeader| #[trigger] set.contains(e) && e.id == id)
}

/// The state of a simulation.
#[verifier::ext_equal]
pub struct SimState<P> {
    /// The current simulated time.
    pub clock: nat,
    /// The number of events emitted so far: the next event id.
    pub event_count: nat,
    /// The events that are emitted, not canceled and not yet delivered.
    pub pending: Set<EventHeader>,
    /// The payloads of the pending events that carry one, by event id.
    pub payloads: Map<EventId, P>,
    /// The events delivered so far, in delivery order.
    pub delivered: Seq<EventHeader>,
    /// The key extractor of each payload type that has one.
    pub key_getters: Map<TypeTag, KeyGetter>,
    /// The components, indexed by id.
    pub components: Seq<Component>,
    /// The pending awaits, in registration order.
    pub awaits: Seq<Await>,
    /// The number of awaits registered so far: the next ordinal.
    pub await_count: nat,
    /// The tasks and the ready queue.
    pub executor: ExecutorState,
    /// The number of timers started so far: the next timer tag.
    pub timer_count: nat,
}

impl<P> SimState<P> {
    /// The state of a new simulation.
    pub open spec fn initial() -> Self {
        SimState {
            clock: 0,
            event_count: 0,
            pending: Set::empty(),
            payloads: Map::empty(),
            delivered: Seq::empty(),
            key_getters: Map::empty(),
            components: Seq::empty(),
            awaits: Seq::empty(),
            await_count: 0,
            executor: ExecutorState::empty(),
            timer_count: 0,
        }
    }

    /// The invariant of every reachable state.
    pub open spec fn wf(self) -> bool {
        &&& self.events_wf()
        &&& self.history_wf()
        &&& self.timers_wf()
        &&& names_unique(self.components)
        &&& ordinals_ordered(self.awaits, self.await_count)
        &&& self.executor.wf()
    }

    /// Pending events lie in the future, bear ids that were issued, each id
    /// once, and payloads belong to pending events.
    pub open spec fn events_wf(self) -> bool {
        &&& forall|e: EventHeader| #[trigger]
            self.pending.contains(e) ==> e.id < self.event_count && e.time >= self.clock
        &&& forall|a: EventHeader, b: EventHeader|
            #![trigger self.pending.contains(a), self.pending.contains(b)]
            self.pending.contains(a) && self.pending.contains(b) && a.id == b.id ==> a == b
        &&& forall|id: EventId| #[trigger]
            self.payloads.contains_key(id) ==> ids_of(self.pending).contains(id)
    }

    /// Deliveries happened in `(time, id)` order, not after the current time,
    /// and before anything that is still pending; no delivered event is pending.
    pub open spec fn history_wf(self) -> bool {
        &&& forall|i: int, j: int|
            0 <= i < j < self.delivered.len() ==> earlier(
                #[trigger] self.delivered[i],
                #[trigger] self.delivered[j],
            )
        &&& forall|i: int|
            0 <= i < self.delivered.len() ==> (#[trigger] self.delivered[i]).id < self.event_count
                && self.delivered[i].time <= self.clock
        &&& forall|i: int, e: EventHeader|
            0 <= i < self.delivered.len() && #[trigger] self.pending.contains(e) ==> earlier(
                #[trigger] self.delivered[i],
                e,
            ) && self.delivered[i].id != e.id
    }

    /// Every await on a timer names one timer, and no two name the same.
    pub open spec fn timers_wf(self) -> bool {
        &&& forall|i: int|
            0 <= i < self.awaits.len() && (#[trigger] self.awaits[i]).kind == EventKind::Timer ==> {
                &&& self.awaits[i].key matches Some(k)
                &&& k < self.timer_count
            }
        &&& forall|i: int, j: int|
            0 <= i < j < self.awaits.len() && (#[trigger] self.awaits[i]).kind == EventKind::Timer
                && (#[trigger] self.awaits[j]).kind == EventKind::Timer ==> self.awaits[i].key
                != self.awaits[j].key
        &&& forall|e: EventHeader|
            #[trigger] self.pending.contains(e) && e.kind == EventKind::Timer ==> {
                &&& e.key matches Some(k)
                &&& k < self.timer_count
            }
    }

    /// The header of the event that an emission creates now.
    pub open spec fn next_header(
        self,
        src: Id,
        dst: Id,
        kind: EventKind,
        key: Option<EventKey>,
        delay: Time,
    ) -> EventHeader {
        EventHeader {
            id: self.event_count as EventId,
            time: (self.clock + delay) as Time,
            src,
            dst,
            kind,
            key,
        }
    }

    /// After enqueuing an event of `kind` that occurs `delay` from now.
    pub open spec fn enqueue(
        self,
        src: Id,
        dst: Id,
        kind: EventKind,
        key: Option<EventKey>,
        data: Option<P>,
        delay: Time,
    ) -> Self {
        let h = self.next_header(src, dst, kind, key, delay);
        SimState {
            event_count: self.event_count + 1,
            pending: self.pending.insert(h),
            payloads: match data {
                Some(p) => self.payloads.insert(h.id, p),
                None => self.payloads,
            },
            ..self
        }
    }

    /// Whether an event of payload type `tag` may carry `key`: it carries a
    /// key exactly when the type has a key extractor.
    pub open spec fn may_emit(self, tag: TypeTag, key: Option<EventKey>) -> bool {
        key.is_some() == self.key_getters.contains_key(tag)
    }

    /// After emitting a payload of type `tag` from `src` to `dst`.
    pub open spec fn emit(
        self,
        src: Id,
        dst: Id,
        tag: TypeTag,
        key: Option<EventKey>,
        data: P,
        delay: Time,
    ) -> Self {
        self.enqueue(src, dst, EventKind::Message(tag), key, Some(data), delay)
    }

    /// After emitting an event of type `tag` without a payload.
    pub open spec fn signal(
        self,
        src: Id,
        dst: Id,
        tag: TypeTag,
        key: Option<EventKey>,
        delay: Time,
    ) -> Self {
        self.enqueue(src, dst, EventKind::Message(tag), key, None, delay)
    }

    /// After canceling event `id`: it is no longer pending.
    pub open spec fn cancel_event(self, id: EventId) -> Self {
        SimState {
            pending: self.pending.filter(|e: EventHeader| e.id != id),
            payloads: self.payloads.remove(id),
            ..self
        }
    }

    /// Whether `getter` may be registered for `tag`: no other extractor is
    /// registered for it, and a first registration does not come after an
    /// unkeyed await on the type.
    pub open spec fn may_register(self, tag: TypeTag, getter: KeyGetter) -> bool {
        &&& admits(self.key_getters, tag, getter)
        &&& !self.key_getters.contains_key(tag) ==> !crate::awaits::awaits_on(
            self.awaits,
            tag,
            false,
        )
    }

    /// After registering `getter` as the key extractor of `tag`.
    pub open spec fn register_key_getter(self, tag: TypeTag, getter: KeyGetter) -> Self {
        SimState { key_getters: self.key_getters.insert(tag, getter), ..self }
    }

    /// After creating a component called `name`.
    pub open spec fn create_context(self, name: Seq<char>) -> Self {
        SimState { components: self.components.push(Component { name, handler: None }), ..self }
    }

    /// After binding a handler of `kind` to component `id`.
    pub open spec fn add_handler(self, id: Id, kind: HandlerKind) -> Self {
        SimState { components: with_handler(self.components, id, Some(kind)), ..self }
    }

    /// After removing the handler of component `id` under `policy`.
    pub open spec fn remove_handler(self, id: Id, policy: EventCancellationPolicy) -> Self {
        let kept = self.pending.filter(|e: EventHeader| !purged(e, id, policy));
        SimState {
            components: with_handler(self.components, id, None),
            pending: kept,
            payloads: self.payloads.restrict(ids_of(kept)),
            ..self
        }
    }

    /// Whether an await on payload type `tag` with `key` may be registered:
    /// a keyed await needs a key extractor for the type, and keyed and unkeyed
    /// awaits on one type are never pending together.
    pub open spec fn may_await(self, tag: TypeTag, key: Option<EventKey>) -> bool {
        &&& key.is_some() ==> self.key_getters.contains_key(tag)
        &&& !crate::awaits::awaits_on(self.awaits, tag, !key.is_some())
    }

    /// After registering an await for `task`.
    pub open spec fn await_event(
        self,
        task: TaskId,
        dst: Id,
        src: Option<Id>,
        kind: EventKind,
        key: Option<EventKey>,
    ) -> Self {
        SimState {
            awaits: self.awaits.push(
                Await { id: self.await_count as AwaitId, task, dst, src, kind, key },
            ),
            await_count: self.await_count + 1,
            ..self
        }
    }

    /// After deregistering await `id`.
    pub open spec fn cancel_await(self, id: AwaitId) -> Self {
        SimState { awaits: without(self.awaits, id), ..self }
    }

    /// After `task` of component `comp` has gone to sleep for `delay`: a timer
    /// event addressed to the component itself is pending, and the task awaits it.
    pub open spec fn sleep(self, task: TaskId, comp: Id, delay: Time) -> Self {
        let timer = Some(self.timer_count as EventKey);
        let armed = self.enqueue(comp, comp, EventKind::Timer, timer, None, delay).await_event(
            task,
            comp,
            Some(comp),
            EventKind::Timer,
            timer,
        );
        SimState { timer_count: self.timer_count + 1, ..armed }
    }

    /// After spawning a task.
    pub open spec fn spawn(self) -> Self {
        SimState { executor: self.executor.spawn(), ..self }
    }

    /// After `task` has completed.
    pub open spec fn finish(self, task: TaskId) -> Self {
        SimState { executor: self.executor.finish(task), ..self }
    }

    /// The payload of event `id`, if it is pending with one.
    pub open spec fn payload_of(self, id: EventId) -> Option<P> {
        if self.payloads.contains_key(id) {
            Some(self.payloads[id])
        } else {
            None
        }
    }

    /// The pending event `h` with its payload.
    pub open spec fn event_of(self, h: EventHeader) -> Event<P> {
        Event {
            id: h.id,
            time: h.time,
            src: h.src,
            dst: h.dst,
            kind: h.kind,
            key: h.key,
            data: self.payload_of(h.id),
        }
    }

    /// Where event `h` goes: to the accepting await with the smallest
    /// ordinal; without one, a payload goes to the handler of its
    /// destination; without that too, and for a timer, nowhere.
    pub open spec fn route(self, h: EventHeader) -> Action<P> {
        match first_accepting(self.awaits, h) {
            Some(i) => Action::Wake {
                task: self.awaits[i].task,
                await_id: self.awaits[i].id,
                event: self.event_of(h),
            },
            None => match (h.kind, handler_of(self.components, h.dst)) {
                (EventKind::Message(_), Some(handler)) => Action::Handle {
                    handler,
                    event: self.event_of(h),
                },
                _ => Action::Unroutable { event: self.event_of(h) },
            },
        }
    }

    /// After delivering the pending event `h`: the clock stands at its time,
    /// the await that took it is gone and its task is ready.
    pub open spec fn deliver(self, h: EventHeader) -> Self {
        SimState {
            clock: h.time as nat,
            pending: self.pending.remove(h),
            payloads: self.payloads.remove(h.id),
            delivered: self.delivered.push(h),
            awaits: match first_accepting(self.awaits, h) {
                Some(i) => self.awaits.remove(i),
                None => self.awaits,
            },
            executor: match first_accepting(self.awaits, h) {
                Some(i) => self.executor.wake(self.awaits[i].task),
                None => self.executor,
            },
            ..self
        }
    }

    /// The time `duration` from now, or the end of time if that lies beyond it.
    pub open spec fn time_after(self, duration: Time) -> Time {
        if self.clock + duration <= u64::MAX {
            (self.clock + duration) as Time
        } else {
            u64::MAX
        }
    }

    /// The pending event that is delivered next.
    pub open spec fn next_event(self) -> EventHeader {
        choose|e: EventHeader| is_earliest(e, self.pending)
    }

    /// Whether an event is pending that occurs no later than `limit`.
    pub open spec fn has_due(self, limit: Time) -> bool {
        exists|e: EventHeader| is_earliest(e, self.pending) && e.time <= limit
    }

    /// One step of the driver, with events after `limit` left alone: a ready
    /// task is polled first; else the next event that is due is delivered.
    pub open spec fn step(self, limit: Time) -> (Self, Action<P>) {
        if self.executor.ready.len() > 0 {
            (
                SimState { executor: self.executor.poll(), ..self },
                Action::Poll { task: self.executor.ready[0] },
            )
        } else if self.has_due(limit) {
            (self.deliver(self.next_event()), self.route(self.next_event()))
        } else {
            (self, Action::Idle)
        }
    }
}

} // verus!
