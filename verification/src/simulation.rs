//! The simulation engine: clock, event queue, registries and the stepping decision.

use crate::awaits::{lemma_first_accepting, AwaitId, AwaitRegistry};
use crate::context::SimulationContext;
use crate::directory::{id_of, purged, Directory, EventCancellationPolicy, HandlerKind};
use crate::event::{
    Event, EventHeader, EventId, EventKey, EventKind, Id, TaskId, Time, TypeTag,
};
use crate::event_queue::{is_earliest, EventQueue};
use crate::executor::{Executor, TaskState};
use crate::registry::{KeyGetter, TypeRegistry};
use crate::state::{ids_of, Action, SimState};
use std::collections::HashMap;
use std::collections::HashSet;
use vstd::prelude::*;

verus! {

/// What a sleeping task holds: its await and the timer event that ends the sleep.
#[derive(Clone, Copy, Debug)]
pub struct Sleep {
    /// The await registered for the timer.
    pub await_id: AwaitId,
    /// The timer event.
    pub event_id: EventId,
}

/// A discrete-event simulation.
pub struct Simulation<P> {
    seed: u64,
    clock: Time,
    event_count: u64,
    events: EventQueue,
    canceled: HashSet<EventId>,
    payloads: HashMap<EventId, P>,
    history: Ghost<Seq<EventHeader>>,
    registry: TypeRegistry,
    directory: Directory,
    awaits: AwaitRegistry,
    executor: Executor,
    timer_count: u64,
}

impl<P> View for Simulation<P> {
    type V = SimState<P>;

    closed spec fn view(&self) -> SimState<P> {
        SimState {
            clock: self.clock as nat,
            event_count: self.event_count as nat,
            pending: Set::new(
                |e: EventHeader| self.events@.contains(e) && !self.canceled@.contains(e.id),
            ),
            payloads: self.payloads@,
            delivered: self.history@,
            key_getters: self.registry@,
            components: self.directory@,
            awaits: self.awaits@,
            await_count: self.awaits.count(),
            executor: self.executor@,
            timer_count: self.timer_count as nat,
        }
    }
}

impl<P> Simulation<P> {
    /// The invariant of the representation.
    pub closed spec fn inv(&self) -> bool {
        &&& self.events.wf()
        &&& self.awaits.wf()
        &&& self.executor.wf()
        &&& self.directory.wf()
        &&& forall|e: EventHeader| #[trigger]
            self.events@.contains(e) ==> e.id < self.event_count && e.time >= self.clock
        &&& forall|id: EventId| #[trigger] self.canceled@.contains(id) ==> id < self.event_count
    }

    /// Well-formedness: the representation is sound and the state satisfies its invariant.
    pub open spec fn wf(&self) -> bool {
        &&& self.inv()
        &&& self@.wf()
        &&& self.counters_fit()
    }

    /// The counters of the state fit their machine types.
    pub open spec fn counters_fit(&self) -> bool {
        &&& self@.clock <= u64::MAX
        &&& self@.event_count <= u64::MAX
        &&& self@.await_count <= u64::MAX
        &&& self@.timer_count <= u64::MAX
        &&& self@.executor.count <= u64::MAX
    }

    /// The seed the simulation was created with.
    pub closed spec fn seed_of(&self) -> u64 {
        self.seed
    }

    proof fn lemma_counters(&self)
        requires
            self.inv(),
        ensures
            self.counters_fit(),
    {
        self.awaits.lemma_wf();
    }

    /// A new simulation: clock at zero, nothing pending, nothing registered.
    pub fn new(seed: u64) -> (sim: Self)
        ensures
            sim.wf(),
            sim@ == SimState::<P>::initial(),
            sim.seed_of() == seed,
    {
        let sim = Simulation {
            seed,
            clock: 0,
            event_count: 0,
            events: EventQueue::new(),
            canceled: HashSet::new(),
            payloads: HashMap::new(),
            history: Ghost(Seq::empty()),
            registry: TypeRegistry::new(),
            directory: Directory::new(),
            awaits: AwaitRegistry::new(),
            executor: Executor::new(),
            timer_count: 0,
        };
        proof {
            assert(sim@ =~= SimState::<P>::initial());
            sim.lemma_counters();
        }
        sim
    }

    /// The seed the simulation was created with, for the random number generator.
    pub fn seed(&self) -> (s: u64)
        ensures
            s == self.seed_of(),
    {
        self.seed
    }

    /// The current simulated time.
    pub fn time(&self) -> (t: Time)
        ensures
            t == self@.clock,
    {
        self.clock
    }

    /// The time `duration` from now, or the end of time if that lies beyond
    /// it: the limit of a run that lasts `duration`.
    pub fn time_after(&self, duration: Time) -> (t: Time)
        ensures
            t == self@.time_after(duration),
    {
        if duration <= u64::MAX - self.clock {
            self.clock + duration
        } else {
            u64::MAX
        }
    }

    /// The number of events emitted so far.
    pub fn event_count(&self) -> (n: u64)
        ensures
            n == self@.event_count,
    {
        self.event_count
    }

    fn enqueue(
        &mut self,
        src: Id,
        dst: Id,
        kind: EventKind,
        key: Option<EventKey>,
        data: Option<P>,
        delay: Time,
    ) -> (id: EventId)
        requires
            old(self).inv(),
            old(self)@.events_wf(),
            old(self)@.event_count < u64::MAX,
            old(self)@.clock + delay <= u64::MAX,
        ensures
            final(self).inv(),
            id == old(self)@.event_count,
            final(self)@ == old(self)@.enqueue(src, dst, kind, key, data, delay),
    {
        let id = self.event_count;
        let h = EventHeader { id, time: self.clock + delay, src, dst, kind, key };
        self.events.push(h);
        match data {
            Some(p) => {
                self.payloads.insert(id, p);
            },
            None => {},
        }
        self.event_count = self.event_count + 1;
        proof {
            assert(h == old(self)@.next_header(src, dst, kind, key, delay));
            assert(self@.pending =~= old(self)@.pending.insert(h));
            assert(self@ =~= old(self)@.enqueue(src, dst, kind, key, data, delay));
        }
        id
    }

    /// Emits a payload of type `tag` from `src` to `dst`, to occur `delay`
    /// from now, and returns the id of the event.
    pub fn emit(
        &mut self,
        src: Id,
        dst: Id,
        tag: TypeTag,
        key: Option<EventKey>,
        data: P,
        delay: Time,
    ) -> (id: EventId)
        requires
            old(self).wf(),
            old(self)@.may_emit(tag, key),
            old(self)@.event_count < u64::MAX,
            old(self)@.clock + delay <= u64::MAX,
        ensures
            final(self).wf(),
            id == old(self)@.event_count,
            final(self)@ == old(self)@.emit(src, dst, tag, key, data, delay),
    {
        proof {
            self@.lemma_emit_wf(src, dst, tag, key, data, delay);
        }
        let id = self.enqueue(src, dst, EventKind::Message(tag), key, Some(data), delay);
        proof {
            self.lemma_counters();
        }
        id
    }

    /// Emits an event of type `tag` that carries no payload, from `src` to
    /// `dst`, to occur `delay` from now, and returns the id of the event.
    pub fn emit_signal(
        &mut self,
        src: Id,
        dst: Id,
        tag: TypeTag,
        key: Option<EventKey>,
        delay: Time,
    ) -> (id: EventId)
        requires
            old(self).wf(),
            old(self)@.may_emit(tag, key),
            old(self)@.event_count < u64::MAX,
            old(self)@.clock + delay <= u64::MAX,
        ensures
            final(self).wf(),
            id == old(self)@.event_count,
            final(self)@ == old(self)@.signal(src, dst, tag, key, delay),
    {
        proof {
            self@.lemma_signal_wf(src, dst, tag, key, delay);
        }
        let id = self.enqueue(src, dst, EventKind::Message(tag), key, None, delay);
        proof {
            self.lemma_counters();
        }
        id
    }

    /// Whether an event of payload type `tag` may carry `key`.
    pub fn can_emit(&self, tag: TypeTag, key: &Option<EventKey>) -> (b: bool)
        ensures
            b == self@.may_emit(tag, *key),
    {
        key.is_some() == self.registry.has_key_getter(tag)
    }

    /// Cancels event `id`: if it is pending, it will not be delivered.
    pub fn cancel_event(&mut self, id: EventId)
        requires
            old(self).wf(),
        ensures
            final(self).wf(),
            final(self)@ == old(self)@.cancel_event(id),
    {
        proof {
            self@.lemma_cancel_event_wf(id);
        }
        if id < self.event_count {
            self.canceled.insert(id);
            self.payloads.remove(&id);
            proof {
                assert(self@.pending =~= old(self)@.cancel_event(id).pending);
                assert(self@ =~= old(self)@.cancel_event(id));
            }
        } else {
            proof {
                let s = old(self)@;
                assert(s.cancel_event(id).pending =~= s.pending);
                assert(!s.payloads.contains_key(id)) by {
                    if s.payloads.contains_key(id) {
                        assert(ids_of(s.pending).contains(id));
                    }
                }
                assert(s.cancel_event(id).payloads =~= s.payloads);
                assert(self@ =~= s.cancel_event(id));
            }
        }
        proof {
            self.lemma_counters();
        }
    }

    /// One step of the driver: polls a ready task first; else delivers the
    /// next pending event, provided it occurs no later than `limit`.
    pub fn advance_until(&mut self, limit: Time) -> (action: Action<P>)
        requires
            old(self).wf(),
        ensures
            final(self).wf(),
            final(self)@ == old(self)@.step(limit).0,
            action == old(self)@.step(limit).1,
    {
        proof {
            self@.lemma_step_wf(limit);
        }
        match self.executor.next_ready() {
            Some(task) => {
                proof {
                    assert(self@ =~= old(self)@.step(limit).0);
                    self.lemma_counters();
                }
                return Action::Poll { task };
            },
            None => {},
        }
        assert(self@ =~= old(self)@);
        loop
            invariant
                self.inv(),
                self@ == old(self)@,
                self@.wf(),
                self@.executor.ready.len() == 0,
                old(self)@.step(limit).0.wf(),
            decreases self.events.count(),
        {
            let ghost here = *self;
            match self.events.peek() {
                None => {
                    proof {
                        assert(self@.pending =~= Set::<EventHeader>::empty());
                        assert(!self@.has_due(limit));
                        self.lemma_counters();
                    }
                    return Action::Idle;
                },
                Some(h) => {
                    if self.canceled.contains(&h.id) {
                        let popped = self.events.pop();
                        self.canceled.remove(&h.id);
                        proof {
                            here.events.lemma_earliest_unique(popped->0, h);
                            assert forall|e: EventHeader| self@.pending.contains(e) == here@.pending.contains(
                                e,
                            ) by {
                                if here.events@.contains(e) && e.id == h.id {
                                    here.events.lemma_ids_unique(e, h);
                                }
                            }
                            assert(self@.pending =~= here@.pending);
                            assert(self@ =~= here@);
                        }
                    } else if h.time > limit {
                        proof {
                            assert(is_earliest(h, self@.pending));
                            assert(!self@.has_due(limit)) by {
                                if self@.has_due(limit) {
                                    let e = choose|e: EventHeader|
                                        is_earliest(e, self@.pending) && e.time <= limit;
                                    self@.lemma_next_event_unique(e, h);
                                }
                            }
                            self.lemma_counters();
                        }
                        return Action::Idle;
                    } else {
                        proof {
                            assert(is_earliest(h, self@.pending));
                            assert(self@.has_due(limit));
                            self@.lemma_deliver_wf(h);
                            lemma_first_accepting(self@.awaits, h, 0);
                        }
                        let popped = self.events.pop();
                        proof {
                            here.events.lemma_earliest_unique(popped->0, h);
                        }
                        self.clock = h.time;
                        let data = self.payloads.remove(&h.id);
                        self.history = Ghost(self.history@.push(h));
                        let event = Event::assemble(h, data);
                        assert(event == here@.event_of(h));
                        let claimed = self.awaits.claim(&h);
                        let action = match claimed {
                            Some(a) => {
                                self.executor.wake(a.task);
                                Action::Wake { task: a.task, await_id: a.id, event }
                            },
                            None => match h.kind {
                                EventKind::Message(_) => match self.directory.handler(h.dst) {
                                    Some(handler) => Action::Handle { handler, event },
                                    None => Action::Unroutable { event },
                                },
                                EventKind::Timer => Action::Unroutable { event },
                            },
                        };
                        proof {
                            assert(self@.pending =~= here@.deliver(h).pending);
                            assert(self@ =~= here@.deliver(h));
                            assert(action == here@.route(h));
                            assert forall|e: EventHeader| #[trigger]
                                self.events@.contains(e) implies e.id < self.event_count && e.time
                                >= self.clock by {
                                assert(here.events@.contains(e));
                            }
                            self.lemma_counters();
                        }
                        return action;
                    }
                },
            }
        }
    }

    /// One step of the driver: polls a ready task first; else delivers the
    /// next pending event.
    pub fn advance(&mut self) -> (action: Action<P>)
        requires
            old(self).wf(),
        ensures
            final(self).wf(),
            final(self)@ == old(self)@.step(u64::MAX).0,
            action == old(self)@.step(u64::MAX).1,
    {
        self.advance_until(u64::MAX)
    }

    /// The key extractor registered for payload type `tag`, if any.
    pub fn key_getter(&self, tag: TypeTag) -> (r: Option<KeyGetter>)
        ensures
            r == (if self@.key_getters.contains_key(tag) {
                Some(self@.key_getters[tag])
            } else {
                None
            }),
    {
        self.registry.key_getter(tag)
    }

    /// Whether `getter` may be registered as the key extractor of `tag`.
    pub fn can_register_key_getter(&self, tag: TypeTag, getter: KeyGetter) -> (b: bool)
        ensures
            b == self@.may_register(tag, getter),
    {
        match self.registry.key_getter(tag) {
            Some(g) => g == getter,
            None => !self.awaits.has_await_on(tag, false),
        }
    }

    /// Registers `getter` as the key extractor of payload type `tag`.
    pub fn register_key_getter_for(&mut self, tag: TypeTag, getter: KeyGetter)
        requires
            old(self).wf(),
            old(self)@.may_register(tag, getter),
        ensures
            final(self).wf(),
            final(self)@ == old(self)@.register_key_getter(tag, getter),
    {
        self.registry.register_key_getter_for(tag, getter);
        proof {
            assert(self@.pending =~= old(self)@.pending);
            assert(self@ =~= old(self)@.register_key_getter(tag, getter));
        }
    }

    /// The id of the component called `name`, if there is one.
    pub fn lookup_id(&self, name: &str) -> (r: Option<Id>)
        requires
            self.wf(),
        ensures
            r == id_of(self@.components, name@),
            r matches Some(id) ==> id < self@.components.len() && self@.components[id as int].name
                == name@,
    {
        self.directory.lookup_id(name)
    }

    /// The name of component `id`, if the component exists.
    pub fn lookup_name(&self, id: Id) -> (r: Option<String>)
        requires
            self.wf(),
        ensures
            match r {
                Some(name) => id < self@.components.len() && name@ == self@.components[id as int].name,
                None => id >= self@.components.len(),
            },
    {
        self.directory.lookup_name(id)
    }

    /// The handler bound to component `id`, if the component exists and has one.
    pub fn handler(&self, id: Id) -> (r: Option<HandlerKind>)
        requires
            self.wf(),
        ensures
            r == crate::directory::handler_of(self@.components, id),
    {
        self.directory.handler(id)
    }

    /// The number of components.
    pub fn component_count(&self) -> (n: usize)
        ensures
            n == self@.components.len(),
    {
        self.directory.len()
    }

    /// Creates a component called `name` and returns its context.
    pub fn create_context(&mut self, name: &str) -> (ctx: SimulationContext)
        requires
            old(self).wf(),
            id_of(old(self)@.components, name@) is None,
            old(self)@.components.len() < u32::MAX,
        ensures
            final(self).wf(),
            ctx.id_of() == old(self)@.components.len(),
            ctx.name_of() == name@,
            final(self)@ == old(self)@.create_context(name@),
    {
        proof {
            self@.lemma_create_context_wf(name@);
        }
        let id = self.directory.create(name);
        proof {
            assert(self@.pending =~= old(self)@.pending);
            assert(self@ =~= old(self)@.create_context(name@));
        }
        SimulationContext::new(id, name)
    }

    fn bind(&mut self, name: &str, kind: HandlerKind) -> (id: Id)
        requires
            old(self).wf(),
            id_of(old(self)@.components, name@) matches Some(i) && crate::directory::handler_of(
                old(self)@.components,
                i,
            ) is None,
        ensures
            final(self).wf(),
            Some(id) == id_of(old(self)@.components, name@),
            final(self)@ == old(self)@.add_handler(id, kind),
    {
        let found = self.directory.lookup_id(name);
        let id = match found {
            Some(id) => id,
            None => 0,
        };
        proof {
            self@.lemma_add_handler_wf(id, kind);
        }
        self.directory.set_handler(id, Some(kind));
        proof {
            assert(self@.pending =~= old(self)@.pending);
            assert(self@ =~= old(self)@.add_handler(id, kind));
        }
        id
    }

    /// Binds a callback handler to the component called `name`, which has
    /// none yet, and returns the component's id.
    pub fn add_handler(&mut self, name: &str) -> (id: Id)
        requires
            old(self).wf(),
            id_of(old(self)@.components, name@) matches Some(i) && crate::directory::handler_of(
                old(self)@.components,
                i,
            ) is None,
        ensures
            final(self).wf(),
            Some(id) == id_of(old(self)@.components, name@),
            final(self)@ == old(self)@.add_handler(id, HandlerKind::Callback),
    {
        self.bind(name, HandlerKind::Callback)
    }

    /// Binds a shared handler to the component called `name`, which has none
    /// yet, and returns the component's id.
    pub fn add_static_handler(&mut self, name: &str) -> (id: Id)
        requires
            old(self).wf(),
            id_of(old(self)@.components, name@) matches Some(i) && crate::directory::handler_of(
                old(self)@.components,
                i,
            ) is None,
        ensures
            final(self).wf(),
            Some(id) == id_of(old(self)@.components, name@),
            final(self)@ == old(self)@.add_handler(id, HandlerKind::Static),
    {
        self.bind(name, HandlerKind::Static)
    }

    /// Detaches the handler of component `id` and cancels the pending events
    /// that `policy` names.
    pub fn remove_handler(&mut self, id: Id, policy: EventCancellationPolicy)
        requires
            old(self).wf(),
        ensures
            final(self).wf(),
            final(self)@ == old(self)@.remove_handler(id, policy),
    {
        proof {
            self@.lemma_remove_handler_wf(id, policy);
        }
        self.directory.set_handler(id, None);
        let ids = self.events.purged_ids(id, &policy);
        let mut i: usize = 0;
        while i < ids.len()
            invariant
                0 <= i <= ids@.len(),
                self.inv(),
                self.events == old(self).events,
                self.event_count == old(self).event_count,
                self.clock == old(self).clock,
                self.history == old(self).history,
                self.registry == old(self).registry,
                self.awaits == old(self).awaits,
                self.executor == old(self).executor,
                self.timer_count == old(self).timer_count,
                self.directory@ == crate::directory::with_handler(old(self).directory@, id, None),
                forall|k: EventId|
                    ids@.contains(k) <==> exists|e: EventHeader|
                        #[trigger] self.events@.contains(e) && e.id == k && purged(e, id, policy),
                forall|k: EventId|
                    self.canceled@.contains(k) <==> old(self).canceled@.contains(k) || exists|j: int|
                        0 <= j < i && #[trigger] ids@[j] == k,
                forall|k: EventId|
                    self.payloads@.contains_key(k) <==> old(self).payloads@.contains_key(k) && !(
                    exists|j: int| 0 <= j < i && #[trigger] ids@[j] == k),
                forall|k: EventId|
                    self.payloads@.contains_key(k) ==> self.payloads@[k] == old(self).payloads@[k],
            decreases ids@.len() - i,
        {
            let k = ids[i];
            proof {
                assert(ids@.contains(k));
            }
            self.canceled.insert(k);
            self.payloads.remove(&k);
            i = i + 1;
        }
        proof {
            let before = old(self)@;
            let after = before.remove_handler(id, policy);
            assert forall|e: EventHeader| self@.pending.contains(e) == after.pending.contains(e) by {
                if self.events@.contains(e) {
                    if purged(e, id, policy) {
                        assert(ids@.contains(e.id));
                        let j = choose|j: int| 0 <= j < ids@.len() && ids@[j] == e.id;
                        assert(self.canceled@.contains(e.id));
                    }
                    if self.canceled@.contains(e.id) && !old(self).canceled@.contains(e.id) {
                        let j = choose|j: int| 0 <= j < i && #[trigger] ids@[j] == e.id;
                        assert(ids@.contains(e.id));
                        let x = choose|x: EventHeader|
                            #[trigger] self.events@.contains(x) && x.id == e.id && purged(
                                x,
                                id,
                                policy,
                            );
                        self.events.lemma_ids_unique(x, e);
                    }
                }
            }
            assert(self@.pending =~= after.pending);
            assert forall|k: EventId| self@.payloads.contains_key(k) == after.payloads.contains_key(
                k,
            ) by {
                if before.payloads.contains_key(k) {
                    assert(ids_of(before.pending).contains(k));
                    let e = choose|e: EventHeader| #[trigger] before.pending.contains(e) && e.id == k;
                    if exists|j: int| 0 <= j < i && #[trigger] ids@[j] == k {
                        let j = choose|j: int| 0 <= j < i && #[trigger] ids@[j] == k;
                        assert(ids@.contains(k));
                        let x = choose|x: EventHeader|
                            #[trigger] self.events@.contains(x) && x.id == k && purged(x, id, policy);
                        self.events.lemma_ids_unique(x, e);
                        if ids_of(after.pending).contains(k) {
                            let y = choose|y: EventHeader|
                                #[trigger] after.pending.contains(y) && y.id == k;
                            self.events.lemma_ids_unique(y, e);
                        }
                    } else {
                        if purged(e, id, policy) {
                            assert(ids@.contains(k));
                            let j = choose|j: int| 0 <= j < ids@.len() && ids@[j] == k;
                        }
                        assert(after.pending.contains(e) && e.id == k);
                    }
                }
            }
            assert(self@.payloads.dom() =~= after.payloads.dom());
            assert forall|k: EventId| self@.payloads.contains_key(k) implies self@.payloads[k]
                == after.payloads[k] by {
                assert(after.payloads.contains_key(k));
            }
            assert(self@.payloads =~= after.payloads);
            assert(self@ =~= after);
            self.lemma_counters();
        }
    }

    /// Whether an await on payload type `tag` with `key` may be registered.
    pub fn can_await(&self, tag: TypeTag, key: &Option<EventKey>) -> (b: bool)
        ensures
            b == self@.may_await(tag, *key),
    {
        let keyed = key.is_some();
        (!keyed || self.registry.has_key_getter(tag)) && !self.awaits.has_await_on(tag, !keyed)
    }

    /// Registers an await of `task` for the next event of payload type `tag`
    /// addressed to `dst`, from `src` only if one is given and with `key` only
    /// if one is given. Returns the ordinal of the await.
    pub fn recv_event(
        &mut self,
        task: TaskId,
        dst: Id,
        src: Option<Id>,
        tag: TypeTag,
        key: Option<EventKey>,
    ) -> (id: AwaitId)
        requires
            old(self).wf(),
            old(self)@.may_await(tag, key),
            old(self)@.await_count < u64::MAX,
        ensures
            final(self).wf(),
            id == old(self)@.await_count,
            final(self)@ == old(self)@.await_event(task, dst, src, EventKind::Message(tag), key),
    {
        proof {
            self@.lemma_await_message_wf(task, dst, src, tag, key);
        }
        let id = self.awaits.register(task, dst, src, EventKind::Message(tag), key);
        proof {
            assert(self@.pending =~= old(self)@.pending);
            assert(self@ =~= old(self)@.await_event(
                task,
                dst,
                src,
                EventKind::Message(tag),
                key,
            ));
            self.lemma_counters();
        }
        id
    }

    /// Whether await `id` is pending.
    pub fn is_awaiting(&self, id: AwaitId) -> (b: bool)
        ensures
            b == crate::awaits::position_from(self@.awaits, id, 0).is_some(),
    {
        self.awaits.is_pending(id)
    }

    /// The number of pending awaits.
    pub fn pending_awaits(&self) -> (n: usize)
        ensures
            n == self@.awaits.len(),
    {
        self.awaits.len()
    }

    /// The number of awaits registered so far: the ordinal of the next one.
    pub fn await_count(&self) -> (n: u64)
        ensures
            n == self@.await_count,
    {
        self.awaits.issued()
    }

    /// The number of timers started so far.
    pub fn timer_count(&self) -> (n: u64)
        ensures
            n == self@.timer_count,
    {
        self.timer_count
    }

    /// The number of tasks spawned so far: the id of the next one.
    pub fn task_count(&self) -> (n: u64)
        ensures
            n == self@.executor.count,
    {
        self.executor.spawned()
    }

    /// Whether some task is ready to be polled.
    pub fn has_ready_task(&self) -> (b: bool)
        ensures
            b == (self@.executor.ready.len() > 0),
    {
        self.executor.has_ready()
    }

    /// Deregisters await `id`; one that is not pending changes nothing.
    pub fn cancel_await(&mut self, id: AwaitId)
        requires
            old(self).wf(),
        ensures
            final(self).wf(),
            final(self)@ == old(self)@.cancel_await(id),
    {
        proof {
            self@.lemma_cancel_await_wf(id);
        }
        self.awaits.cancel(id);
        proof {
            assert(self@.pending =~= old(self)@.pending);
            assert(self@ =~= old(self)@.cancel_await(id));
            self.lemma_counters();
        }
    }

    /// Puts `task` of component `comp` to sleep for `delay`: arms a timer
    /// event and registers the task's await for it.
    pub fn sleep(&mut self, task: TaskId, comp: Id, delay: Time) -> (s: Sleep)
        requires
            old(self).wf(),
            old(self)@.event_count < u64::MAX,
            old(self)@.await_count < u64::MAX,
            old(self)@.timer_count < u64::MAX,
            old(self)@.clock + delay <= u64::MAX,
        ensures
            final(self).wf(),
            s.event_id == old(self)@.event_count,
            s.await_id == old(self)@.await_count,
            final(self)@ == old(self)@.sleep(task, comp, delay),
    {
        proof {
            self@.lemma_sleep_wf(task, comp, delay);
        }
        let timer = Some(self.timer_count);
        let event_id = self.enqueue(comp, comp, EventKind::Timer, timer, None, delay);
        let await_id = self.awaits.register(task, comp, Some(comp), EventKind::Timer, timer);
        self.timer_count = self.timer_count + 1;
        proof {
            let armed = old(self)@.enqueue(comp, comp, EventKind::Timer, timer, None, delay);
            assert(self@.pending =~= armed.pending);
            assert(self@ =~= old(self)@.sleep(task, comp, delay));
            self.lemma_counters();
        }
        Sleep { await_id, event_id }
    }

    /// Ends a sleep early: deregisters its await and cancels its timer event.
    pub fn cancel_sleep(&mut self, s: Sleep)
        requires
            old(self).wf(),
        ensures
            final(self).wf(),
            final(self)@ == old(self)@.cancel_await(s.await_id).cancel_event(s.event_id),
    {
        self.cancel_await(s.await_id);
        self.cancel_event(s.event_id);
    }

    /// Registers a new task, ready to be polled, and returns its id.
    pub fn spawn(&mut self) -> (task: TaskId)
        requires
            old(self).wf(),
            old(self)@.executor.count < u64::MAX,
        ensures
            final(self).wf(),
            task == old(self)@.executor.count,
            final(self)@ == old(self)@.spawn(),
    {
        proof {
            self@.lemma_spawn_wf();
        }
        let task = self.executor.spawn();
        proof {
            assert(self@.pending =~= old(self)@.pending);
            assert(self@ =~= old(self)@.spawn());
            self.lemma_counters();
        }
        task
    }

    /// Drops `task` after its completion. Returns whether the task was
    /// waiting; a task in any other state is left as it is.
    pub fn finish(&mut self, task: TaskId) -> (dropped: bool)
        requires
            old(self).wf(),
        ensures
            final(self).wf(),
            dropped == old(self)@.executor.is_waiting(task),
            final(self)@ == old(self)@.finish(task),
    {
        proof {
            self@.lemma_finish_wf(task);
        }
        let dropped = self.executor.finish(task);
        proof {
            assert(self@.pending =~= old(self)@.pending);
            assert(self@ =~= old(self)@.finish(task));
            self.lemma_counters();
        }
        dropped
    }

    /// The state of `task`, if it was ever spawned.
    pub fn task_state(&self, task: TaskId) -> (s: Option<TaskState>)
        ensures
            s == self@.executor.state(task),
    {
        self.executor.state(task)
    }
}

} // verus!
