//! The simulation context: the handle through which a component acts.

use crate::awaits::AwaitId;
use crate::event::{EventId, EventKey, EventKind, Id, TaskId, Time, TypeTag};
use crate::registry::KeyGetter;
use crate::simulation::{Simulation, Sleep};
use vstd::prelude::*;

verus! {

/// The capability handle of one component.
#[derive(Debug)]
pub struct SimulationContext {
    id: Id,
    name: String,
}

impl Clone for SimulationContext {
    /// Another handle of the same component.
    fn clone(&self) -> (ctx: Self)
        ensures
            ctx.id_of() == self.id_of(),
            ctx.name_of() == self.name_of(),
    {
        SimulationContext { id: self.id, name: self.name.clone() }
    }
}

impl SimulationContext {
    /// The id of the component, as contracts see it.
    pub closed spec fn id_of(&self) -> Id {
        self.id
    }

    /// The name of the component, as contracts see it.
    pub closed spec fn name_of(&self) -> Seq<char> {
        self.name@
    }

    /// The context of component `id`, called `name`.
    pub fn new(id: Id, name: &str) -> (ctx: Self)
        ensures
            ctx.id_of() == id,
            ctx.name_of() == name@,
    {
        SimulationContext { id, name: name.to_owned() }
    }

    /// The id of the component.
    pub fn id(&self) -> (id: Id)
        ensures
            id == self.id_of(),
    {
        self.id
    }

    /// The name of the component.
    pub fn name(&self) -> (name: &str)
        ensures
            name@ == self.name_of(),
    {
        self.name.as_str()
    }

    /// The current simulated time.
    pub fn time<P>(&self, sim: &Simulation<P>) -> (t: Time)
        ensures
            t == sim@.clock,
    {
        sim.time()
    }

    /// Emits a payload of type `tag` to `dst`, to occur `delay` from now.
    pub fn emit<P>(
        &self,
        sim: &mut Simulation<P>,
        tag: TypeTag,
        key: Option<EventKey>,
        data: P,
        dst: Id,
        delay: Time,
    ) -> (id: EventId)
        requires
            old(sim).wf(),
            old(sim)@.may_emit(tag, key),
            old(sim)@.event_count < u64::MAX,
            old(sim)@.clock + delay <= u64::MAX,
        ensures
            final(sim).wf(),
            id == old(sim)@.event_count,
            final(sim)@ == old(sim)@.emit(self.id_of(), dst, tag, key, data, delay),
    {
        sim.emit(self.id, dst, tag, key, data, delay)
    }

    /// Emits a payload of type `tag` to `dst`, to occur now: after the events
    /// already pending for the current time.
    pub fn emit_now<P>(
        &self,
        sim: &mut Simulation<P>,
        tag: TypeTag,
        key: Option<EventKey>,
        data: P,
        dst: Id,
    ) -> (id: EventId)
        requires
            old(sim).wf(),
            old(sim)@.may_emit(tag, key),
            old(sim)@.event_count < u64::MAX,
        ensures
            final(sim).wf(),
            id == old(sim)@.event_count,
            final(sim)@ == old(sim)@.emit(self.id_of(), dst, tag, key, data, 0),
    {
        sim.emit(self.id, dst, tag, key, data, 0)
    }

    /// Emits a payload of type `tag` to this component, to occur `delay` from now.
    pub fn emit_self<P>(
        &self,
        sim: &mut Simulation<P>,
        tag: TypeTag,
        key: Option<EventKey>,
        data: P,
        delay: Time,
    ) -> (id: EventId)
        requires
            old(sim).wf(),
            old(sim)@.may_emit(tag, key),
            old(sim)@.event_count < u64::MAX,
            old(sim)@.clock + delay <= u64::MAX,
        ensures
            final(sim).wf(),
            id == old(sim)@.event_count,
            final(sim)@ == old(sim)@.emit(self.id_of(), self.id_of(), tag, key, data, delay),
    {
        sim.emit(self.id, self.id, tag, key, data, delay)
    }

    /// Emits a payload of type `tag` to this component, to occur now.
    pub fn emit_self_now<P>(
        &self,
        sim: &mut Simulation<P>,
        tag: TypeTag,
        key: Option<EventKey>,
        data: P,
    ) -> (id: EventId)
        requires
            old(sim).wf(),
            old(sim)@.may_emit(tag, key),
            old(sim)@.event_count < u64::MAX,
        ensures
            final(sim).wf(),
            id == old(sim)@.event_count,
            final(sim)@ == old(sim)@.emit(self.id_of(), self.id_of(), tag, key, data, 0),
    {
        sim.emit(self.id, self.id, tag, key, data, 0)
    }

    /// Emits an event of type `tag` without a payload to this component, to occur now.
    pub fn signal_self_now<P>(
        &self,
        sim: &mut Simulation<P>,
        tag: TypeTag,
        key: Option<EventKey>,
    ) -> (id: EventId)
        requires
            old(sim).wf(),
            old(sim)@.may_emit(tag, key),
            old(sim)@.event_count < u64::MAX,
        ensures
            final(sim).wf(),
            id == old(sim)@.event_count,
            final(sim)@ == old(sim)@.signal(self.id_of(), self.id_of(), tag, key, 0),
    {
        sim.emit_signal(self.id, self.id, tag, key, 0)
    }

    /// Cancels event `id`: if it is pending, it will not be delivered.
    pub fn cancel_event<P>(&self, sim: &mut Simulation<P>, id: EventId)
        requires
            old(sim).wf(),
        ensures
            final(sim).wf(),
            final(sim)@ == old(sim)@.cancel_event(id),
    {
        sim.cancel_event(id)
    }

    /// Puts `task` to sleep for `delay`.
    pub fn sleep<P>(&self, sim: &mut Simulation<P>, task: TaskId, delay: Time) -> (s: Sleep)
        requires
            old(sim).wf(),
            old(sim)@.event_count < u64::MAX,
            old(sim)@.await_count < u64::MAX,
            old(sim)@.timer_count < u64::MAX,
            old(sim)@.clock + delay <= u64::MAX,
        ensures
            final(sim).wf(),
            s.event_id == old(sim)@.event_count,
            s.await_id == old(sim)@.await_count,
            final(sim)@ == old(sim)@.sleep(task, self.id_of(), delay),
    {
        sim.sleep(task, self.id, delay)
    }

    /// Registers an await of `task` for the next event of payload type `tag`
    /// addressed to this component.
    pub fn recv_event<P>(&self, sim: &mut Simulation<P>, task: TaskId, tag: TypeTag) -> (id:
        AwaitId)
        requires
            old(sim).wf(),
            old(sim)@.may_await(tag, None),
            old(sim)@.await_count < u64::MAX,
        ensures
            final(sim).wf(),
            id == old(sim)@.await_count,
            final(sim)@ == old(sim)@.await_event(
                task,
                self.id_of(),
                None,
                EventKind::Message(tag),
                None,
            ),
    {
        sim.recv_event(task, self.id, None, tag, None)
    }

    /// As `recv_event`, for events emitted by `src` only.
    pub fn recv_event_from<P>(
        &self,
        sim: &mut Simulation<P>,
        task: TaskId,
        src: Id,
        tag: TypeTag,
    ) -> (id: AwaitId)
        requires
            old(sim).wf(),
            old(sim)@.may_await(tag, None),
            old(sim)@.await_count < u64::MAX,
        ensures
            final(sim).wf(),
            id == old(sim)@.await_count,
            final(sim)@ == old(sim)@.await_event(
                task,
                self.id_of(),
                Some(src),
                EventKind::Message(tag),
                None,
            ),
    {
        sim.recv_event(task, self.id, Some(src), tag, None)
    }

    /// As `recv_event`, for events emitted by this component only.
    pub fn recv_event_from_self<P>(
        &self,
        sim: &mut Simulation<P>,
        task: TaskId,
        tag: TypeTag,
    ) -> (id: AwaitId)
        requires
            old(sim).wf(),
            old(sim)@.may_await(tag, None),
            old(sim)@.await_count < u64::MAX,
        ensures
            final(sim).wf(),
            id == old(sim)@.await_count,
            final(sim)@ == old(sim)@.await_event(
                task,
                self.id_of(),
                Some(self.id_of()),
                EventKind::Message(tag),
                None,
            ),
    {
        sim.recv_event(task, self.id, Some(self.id), tag, None)
    }

    /// Registers an await of `task` for the next event of payload type `tag`
    /// addressed to this component whose key is `key`.
    pub fn recv_event_by_key<P>(
        &self,
        sim: &mut Simulation<P>,
        task: TaskId,
        tag: TypeTag,
        key: EventKey,
    ) -> (id: AwaitId)
        requires
            old(sim).wf(),
            old(sim)@.may_await(tag, Some(key)),
            old(sim)@.await_count < u64::MAX,
        ensures
            final(sim).wf(),
            id == old(sim)@.await_count,
            final(sim)@ == old(sim)@.await_event(
                task,
                self.id_of(),
                None,
                EventKind::Message(tag),
                Some(key),
            ),
    {
        sim.recv_event(task, self.id, None, tag, Some(key))
    }

    /// As `recv_event_by_key`, for events emitted by `src` only.
    pub fn recv_event_by_key_from<P>(
        &self,
        sim: &mut Simulation<P>,
        task: TaskId,
        src: Id,
        tag: TypeTag,
        key: EventKey,
    ) -> (id: AwaitId)
        requires
            old(sim).wf(),
            old(sim)@.may_await(tag, Some(key)),
            old(sim)@.await_count < u64::MAX,
        ensures
            final(sim).wf(),
            id == old(sim)@.await_count,
            final(sim)@ == old(sim)@.await_event(
                task,
                self.id_of(),
                Some(src),
                EventKind::Message(tag),
                Some(key),
            ),
    {
        sim.recv_event(task, self.id, Some(src), tag, Some(key))
    }

    /// As `recv_event_by_key`, for events emitted by this component only.
    pub fn recv_event_by_key_from_self<P>(
        &self,
        sim: &mut Simulation<P>,
        task: TaskId,
        tag: TypeTag,
        key: EventKey,
    ) -> (id: AwaitId)
        requires
            old(sim).wf(),
            old(sim)@.may_await(tag, Some(key)),
            old(sim)@.await_count < u64::MAX,
        ensures
            final(sim).wf(),
            id == old(sim)@.await_count,
            final(sim)@ == old(sim)@.await_event(
                task,
                self.id_of(),
                Some(self.id_of()),
                EventKind::Message(tag),
                Some(key),
            ),
    {
        sim.recv_event(task, self.id, Some(self.id), tag, Some(key))
    }

    /// Registers a new task, ready to be polled, and returns its id.
    pub fn spawn<P>(&self, sim: &mut Simulation<P>) -> (task: TaskId)
        requires
            old(sim).wf(),
            old(sim)@.executor.count < u64::MAX,
        ensures
            final(sim).wf(),
            task == old(sim)@.executor.count,
            final(sim)@ == old(sim)@.spawn(),
    {
        sim.spawn()
    }

    /// Registers `getter` as the key extractor of payload type `tag`.
    pub fn register_key_getter_for<P>(
        &self,
        sim: &mut Simulation<P>,
        tag: TypeTag,
        getter: KeyGetter,
    )
        requires
            old(sim).wf(),
            old(sim)@.may_register(tag, getter),
        ensures
            final(sim).wf(),
            final(sim)@ == old(sim)@.register_key_getter(tag, getter),
    {
        sim.register_key_getter_for(tag, getter)
    }
}

} // verus!
