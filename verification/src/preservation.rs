//! Every transition of the simulation keeps its invariant.

use crate::awaits::{first_accepting, lemma_first_accepting, lemma_position, AwaitId};
use crate::directory::{EventCancellationPolicy, HandlerKind};
use crate::event::{EventHeader, EventId, EventKey, EventKind, Id, TaskId, Time, TypeTag};
use crate::event_queue::is_earliest;
use crate::registry::KeyGetter;
use crate::state::{ids_of, SimState};
use vstd::prelude::*;

verus! {

impl<P> SimState<P> {
    /// The state of a new simulation satisfies the invariant.
    pub proof fn lemma_initial_wf()
        ensures
            Self::initial().wf(),
    {
    }

    /// Enqueuing an event keeps the invariants on events and on the history.
    pub proof fn lemma_enqueue_events_wf(
        self,
        src: Id,
        dst: Id,
        kind: EventKind,
        key: Option<EventKey>,
        data: Option<P>,
        delay: Time,
    )
        requires
            self.events_wf(),
            self.history_wf(),
            self.event_count < u64::MAX,
            self.clock + delay <= u64::MAX,
        ensures
            self.enqueue(src, dst, kind, key, data, delay).events_wf(),
            self.enqueue(src, dst, kind, key, data, delay).history_wf(),
    {
        let h = self.next_header(src, dst, kind, key, delay);
        let n = self.enqueue(src, dst, kind, key, data, delay);
        assert(n.pending.contains(h));
        assert forall|id: EventId| #[trigger] n.payloads.contains_key(id) implies ids_of(
            n.pending,
        ).contains(id) by {
            if id != h.id {
                let e = choose|e: EventHeader| #[trigger] self.pending.contains(e) && e.id == id;
                assert(n.pending.contains(e) && e.id == id);
            }
        }
    }

    /// Emitting a payload keeps the invariant.
    pub proof fn lemma_emit_wf(
        self,
        src: Id,
        dst: Id,
        tag: TypeTag,
        key: Option<EventKey>,
        data: P,
        delay: Time,
    )
        requires
            self.wf(),
            self.event_count < u64::MAX,
            self.clock + delay <= u64::MAX,
        ensures
            self.emit(src, dst, tag, key, data, delay).wf(),
    {
        self.lemma_enqueue_events_wf(src, dst, EventKind::Message(tag), key, Some(data), delay);
    }

    /// Emitting an event without a payload keeps the invariant.
    pub proof fn lemma_signal_wf(
        self,
        src: Id,
        dst: Id,
        tag: TypeTag,
        key: Option<EventKey>,
        delay: Time,
    )
        requires
            self.wf(),
            self.event_count < u64::MAX,
            self.clock + delay <= u64::MAX,
        ensures
            self.signal(src, dst, tag, key, delay).wf(),
    {
        self.lemma_enqueue_events_wf(src, dst, EventKind::Message(tag), key, None, delay);
    }

    /// Canceling an event keeps the invariant.
    pub proof fn lemma_cancel_event_wf(self, id: EventId)
        requires
            self.wf(),
        ensures
            self.cancel_event(id).wf(),
    {
        let n = self.cancel_event(id);
        assert forall|k: EventId| #[trigger] n.payloads.contains_key(k) implies ids_of(
            n.pending,
        ).contains(k) by {
            let e = choose|e: EventHeader| #[trigger] self.pending.contains(e) && e.id == k;
            assert(n.pending.contains(e) && e.id == k);
        }
    }

    /// Removing a handler keeps the invariant.
    pub proof fn lemma_remove_handler_wf(self, id: Id, policy: EventCancellationPolicy)
        requires
            self.wf(),
        ensures
            self.remove_handler(id, policy).wf(),
    {
    }

    /// Binding a handler keeps the invariant.
    pub proof fn lemma_add_handler_wf(self, id: Id, kind: HandlerKind)
        requires
            self.wf(),
        ensures
            self.add_handler(id, kind).wf(),
    {
    }

    /// Creating a component with a new name keeps the invariant.
    pub proof fn lemma_create_context_wf(self, name: Seq<char>)
        requires
            self.wf(),
            crate::directory::id_of(self.components, name) is None,
            self.components.len() < u32::MAX,
        ensures
            self.create_context(name).wf(),
    {
    }

    /// Registering a key extractor keeps the invariant.
    pub proof fn lemma_register_key_getter_wf(self, tag: TypeTag, getter: KeyGetter)
        requires
            self.wf(),
        ensures
            self.register_key_getter(tag, getter).wf(),
    {
    }

    /// Registering an await on a payload type keeps the invariant.
    pub proof fn lemma_await_message_wf(
        self,
        task: TaskId,
        dst: Id,
        src: Option<Id>,
        tag: TypeTag,
        key: Option<EventKey>,
    )
        requires
            self.wf(),
            self.await_count < u64::MAX,
        ensures
            self.await_event(task, dst, src, EventKind::Message(tag), key).wf(),
    {
    }

    /// Deregistering an await keeps the invariant.
    pub proof fn lemma_cancel_await_wf(self, id: AwaitId)
        requires
            self.wf(),
        ensures
            self.cancel_await(id).wf(),
    {
        lemma_position(self.awaits, id, 0);
    }

    /// Going to sleep keeps the invariant.
    pub proof fn lemma_sleep_wf(self, task: TaskId, comp: Id, delay: Time)
        requires
            self.wf(),
            self.event_count < u64::MAX,
            self.await_count < u64::MAX,
            self.timer_count < u64::MAX,
            self.clock + delay <= u64::MAX,
        ensures
            self.sleep(task, comp, delay).wf(),
    {
        let timer = Some(self.timer_count as EventKey);
        self.lemma_enqueue_events_wf(comp, comp, EventKind::Timer, timer, None, delay);
    }

    /// Spawning a task keeps the invariant.
    pub proof fn lemma_spawn_wf(self)
        requires
            self.wf(),
            self.executor.count < u64::MAX,
        ensures
            self.spawn().wf(),
    {
        self.executor.lemma_spawn_wf();
    }

    /// Dropping a completed task keeps the invariant.
    pub proof fn lemma_finish_wf(self, task: TaskId)
        requires
            self.wf(),
        ensures
            self.finish(task).wf(),
    {
        self.executor.lemma_finish_wf(task);
    }

    /// Among the pending events of a well-formed state, at most one is the earliest.
    pub proof fn lemma_next_event_unique(self, a: EventHeader, b: EventHeader)
        requires
            self.events_wf(),
            is_earliest(a, self.pending),
            is_earliest(b, self.pending),
        ensures
            a == b,
    {
    }

    /// Delivering the earliest pending event keeps the invariant.
    pub proof fn lemma_deliver_wf(self, h: EventHeader)
        requires
            self.wf(),
            is_earliest(h, self.pending),
        ensures
            self.deliver(h).wf(),
            self.next_event() == h,
    {
        lemma_first_accepting(self.awaits, h, 0);
        match first_accepting(self.awaits, h) {
            Some(i) => {
                self.executor.lemma_wake_wf(self.awaits[i].task);
            },
            None => {},
        }
    }

    /// Taking a ready task for polling keeps the invariant.
    pub proof fn lemma_poll_wf(self)
        requires
            self.wf(),
            self.executor.ready.len() > 0,
        ensures
            (SimState { executor: self.executor.poll(), ..self }).wf(),
    {
        self.executor.lemma_poll_wf();
    }

    /// A step of the driver keeps the invariant.
    pub proof fn lemma_step_wf(self, limit: Time)
        requires
            self.wf(),
        ensures
            self.step(limit).0.wf(),
    {
        if self.executor.ready.len() > 0 {
            self.lemma_poll_wf();
        } else if self.has_due(limit) {
            let e = choose|e: EventHeader| is_earliest(e, self.pending) && e.time <= limit;
            self.lemma_deliver_wf(e);
        }
    }
}

} // verus!
