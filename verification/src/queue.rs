//! A queue through which the tasks of a simulation hand items to each other.
//!
//! Items are delivered to consumers in the order of their `take` calls.
//! Consumers and producers are matched by tickets: a consumer that finds the
//! queue empty awaits a notification keyed by its receive ticket, and a
//! producer notifies the consumer whose ticket equals its send ticket,
//! skipping the tickets of consumers that have given up.

use crate::awaits::AwaitId;
use crate::context::SimulationContext;
use crate::event::{EventKey, EventKind, Id, TaskId, TypeTag};
use crate::registry::KeyGetter;
use crate::simulation::Simulation;
use crate::state::SimState;
use crate::ticket::{Ticket, TicketID};
use rustc_hash::FxBuildHasher;
use rustc_hash::FxHashSet;
use std::collections::VecDeque;
use vstd::prelude::*;

verus! {

/// The hasher factory of `rustc_hash`; the sets of dropped tickets are hashed with it.
#[verifier::external_type_specification]
#[verifier::external_body]
pub struct ExFxBuildHasher(FxBuildHasher);

/// `HashSet::insert` on a set hashed by `FxBuildHasher`: afterwards the set
/// holds `ticket` besides what it held, and the result says whether `ticket`
/// was new. The hasher is deterministic, so the set behaves as a set of
/// integers.
#[verifier::external_body]
fn insert_ticket(set: &mut FxHashSet<TicketID>, ticket: TicketID) -> (fresh: bool)
    ensures
        final(set)@ == old(set)@.insert(ticket),
        fresh == !old(set)@.contains(ticket),
{
    set.insert(ticket)
}

/// `HashSet::remove` on a set hashed by `FxBuildHasher`: afterwards the set
/// holds what it held but `ticket`, and the result says whether `ticket` was
/// in it.
#[verifier::external_body]
fn remove_ticket(set: &mut FxHashSet<TicketID>, ticket: TicketID) -> (found: bool)
    ensures
        final(set)@ == old(set)@.remove(ticket),
        found == old(set)@.contains(ticket),
{
    set.remove(&ticket)
}

/// Identity of the key extractor of `ConsumerNotify`, which reads `ticket_id`.
pub const TICKET_KEY_GETTER: KeyGetter = 1;

/// The notification a producer sends to the consumer whose turn it is.
#[derive(Clone, Copy, Debug)]
pub struct ConsumerNotify {
    /// The receive ticket of the consumer.
    pub ticket_id: TicketID,
}

impl ConsumerNotify {
    /// The key by which the notification finds its consumer.
    pub fn key(&self) -> (k: EventKey)
        ensures
            k == self.ticket_id,
    {
        self.ticket_id
    }
}

/// The first ticket from `t` on that is not dropped; tickets above `bound` never are.
pub open spec fn skip_dropped(dropped: Set<TicketID>, t: nat, bound: nat) -> nat
    decreases bound + 1 - t,
{
    if t <= bound && t <= u64::MAX && dropped.contains(t as TicketID) {
        skip_dropped(dropped, t + 1, bound)
    } else {
        t
    }
}

/// `skip_dropped` yields the least ticket from `t` on that is not dropped.
pub proof fn lemma_skip_dropped(dropped: Set<TicketID>, t: nat, bound: nat)
    requires
        forall|x: TicketID| #[trigger] dropped.contains(x) ==> x <= bound,
        bound < u64::MAX,
        t <= u64::MAX,
    ensures
        t <= skip_dropped(dropped, t, bound),
        skip_dropped(dropped, t, bound) <= bound + 1 || skip_dropped(dropped, t, bound) == t,
        !dropped.contains(skip_dropped(dropped, t, bound) as TicketID),
        forall|x: TicketID| t <= x < skip_dropped(dropped, t, bound) ==> dropped.contains(x),
    decreases bound + 1 - t,
{
    if t <= bound && dropped.contains(t as TicketID) {
        lemma_skip_dropped(dropped, t + 1, bound);
    }
}

/// The queue as contracts see it.
#[verifier::ext_equal]
pub struct QueueState<T> {
    /// The items put and not yet taken, oldest first.
    pub items: Seq<T>,
    /// The ticket of the last producer.
    pub send_ticket: nat,
    /// The ticket of the last consumer.
    pub receive_ticket: nat,
    /// The receive tickets of consumers that gave up, not yet skipped by a producer.
    pub dropped_tickets: Set<TicketID>,
}

impl<T> QueueState<T> {
    /// The state of a new queue.
    pub open spec fn empty() -> Self {
        QueueState {
            items: Seq::empty(),
            send_ticket: 0,
            receive_ticket: 0,
            dropped_tickets: Set::empty(),
        }
    }

    /// Only tickets that consumers have claimed are dropped.
    pub open spec fn wf(self) -> bool {
        &&& forall|t: TicketID| #[trigger]
            self.dropped_tickets.contains(t) ==> t <= self.receive_ticket
        &&& self.send_ticket <= u64::MAX
        &&& self.receive_ticket <= u64::MAX
    }

    /// The send ticket that the next producer gets: the least one above the
    /// current send ticket that no consumer has dropped.
    pub open spec fn next_send(self) -> nat {
        skip_dropped(self.dropped_tickets, self.send_ticket + 1, self.receive_ticket)
    }

    /// The ticket that the next producer notifies, if a consumer holds it.
    pub open spec fn notification(self) -> Option<TicketID> {
        if self.receive_ticket >= self.next_send() {
            Some(self.next_send() as TicketID)
        } else {
            None
        }
    }

    /// After a producer has put `item`.
    pub open spec fn put(self, item: T) -> Self {
        let next = self.next_send();
        QueueState {
            items: self.items.push(item),
            send_ticket: next,
            receive_ticket: self.receive_ticket,
            dropped_tickets: self.dropped_tickets.filter(
                |t: TicketID| !(self.send_ticket < t <= next),
            ),
        }
    }

    /// After a consumer has claimed a ticket and, where an item was there, taken it.
    pub open spec fn take(self) -> Self {
        QueueState {
            items: if self.items.len() > 0 {
                self.items.subrange(1, self.items.len() as int)
            } else {
                self.items
            },
            receive_ticket: self.receive_ticket + 1,
            ..self
        }
    }

    /// After a notified consumer has taken the head of the queue.
    pub open spec fn complete(self) -> Self {
        QueueState { items: self.items.subrange(1, self.items.len() as int), ..self }
    }

    /// After the consumer with `ticket` has given up.
    pub open spec fn abandon(self, ticket: TicketID) -> Self {
        if ticket <= self.receive_ticket {
            QueueState { dropped_tickets: self.dropped_tickets.insert(ticket), ..self }
        } else {
            self
        }
    }
}

/// A consumer that found the queue empty and waits for its notification.
pub struct ElementFutureWrapper {
    ticket_id: TicketID,
    await_id: AwaitId,
    completed: bool,
}

impl ElementFutureWrapper {
    /// The receive ticket of the consumer, as contracts see it.
    pub closed spec fn ticket_of(&self) -> TicketID {
        self.ticket_id
    }

    /// The await of the consumer, as contracts see it.
    pub closed spec fn await_of(&self) -> AwaitId {
        self.await_id
    }

    /// Whether the consumer has got its item, as contracts see it.
    pub closed spec fn is_completed(&self) -> bool {
        self.completed
    }

    /// A waiting consumer with receive ticket `ticket_id` and await `await_id`.
    pub fn from_future(ticket_id: TicketID, await_id: AwaitId) -> (w: Self)
        ensures
            w.ticket_of() == ticket_id,
            w.await_of() == await_id,
            !w.is_completed(),
    {
        ElementFutureWrapper { ticket_id, await_id, completed: false }
    }

    /// The receive ticket of the consumer.
    pub fn ticket_id(&self) -> (t: TicketID)
        ensures
            t == self.ticket_of(),
    {
        self.ticket_id
    }

    /// The await of the consumer.
    pub fn await_id(&self) -> (id: AwaitId)
        ensures
            id == self.await_of(),
    {
        self.await_id
    }

    /// Whether the consumer has got its item.
    pub fn completed(&self) -> (b: bool)
        ensures
            b == self.is_completed(),
    {
        self.completed
    }

    /// Polls the consumer. While its notification has not arrived
    /// (`notified` is false) nothing happens; once it has, the consumer takes
    /// the head of the queue and is completed.
    pub fn poll<T>(&mut self, queue: &mut UnboundedQueue<T>, notified: bool) -> (r: Option<T>)
        requires
            old(queue).wf(),
            notified ==> old(queue)@.items.len() > 0,
        ensures
            final(queue).wf(),
            final(queue).ctx_id() == old(queue).ctx_id(),
            final(queue).notify_tag() == old(queue).notify_tag(),
            final(self).ticket_of() == old(self).ticket_of(),
            final(self).await_of() == old(self).await_of(),
            notified ==> r == Some(old(queue)@.items[0]) && final(queue)@ == old(queue)@.complete()
                && final(self).is_completed(),
            !notified ==> r is None && final(queue)@ == old(queue)@ && final(self).is_completed()
                == old(self).is_completed(),
    {
        if notified {
            let item = queue.items.pop_front();
            self.completed = true;
            proof {
                assert(queue@ =~= old(queue)@.complete());
            }
            item
        } else {
            None
        }
    }

    /// Lets go of the consumer. One that has not got its item gives up: its
    /// ticket is recorded as dropped and its await is deregistered.
    pub fn release<T, P>(self, queue: &mut UnboundedQueue<T>, sim: &mut Simulation<P>)
        requires
            old(queue).wf(),
            old(sim).wf(),
        ensures
            final(queue).wf(),
            final(sim).wf(),
            final(queue).ctx_id() == old(queue).ctx_id(),
            final(queue).notify_tag() == old(queue).notify_tag(),
            self.is_completed() ==> final(queue)@ == old(queue)@ && final(sim)@ == old(sim)@,
            !self.is_completed() ==> final(queue)@ == old(queue)@.abandon(self.ticket_of())
                && final(sim)@ == old(sim)@.cancel_await(self.await_of()),
    {
        if !self.completed {
            if self.ticket_id <= queue.receive_ticket.value() {
                insert_ticket(&mut queue.dropped_tickets, self.ticket_id);
            }
            sim.cancel_await(self.await_id);
            proof {
                assert(queue@ =~= old(queue)@.abandon(self.ticket_of()));
            }
        }
    }
}

/// What a consumer gets from `take`.
pub enum Take<T> {
    /// The head of the queue.
    Ready(T),
    /// The queue was empty: the consumer waits for its notification.
    Pending(ElementFutureWrapper),
}

/// An unbounded queue with any number of producers and consumers, for items of type `T`.
///
/// Consumers get the items in the order in which they called [`take`](UnboundedQueue::take).
pub struct UnboundedQueue<T> {
    items: VecDeque<T>,
    send_ticket: Ticket,
    receive_ticket: Ticket,
    dropped_tickets: FxHashSet<TicketID>,
    ctx: SimulationContext,
    notify_tag: TypeTag,
}

impl<T> View for UnboundedQueue<T> {
    type V = QueueState<T>;

    closed spec fn view(&self) -> QueueState<T> {
        QueueState {
            items: self.items@,
            send_ticket: self.send_ticket@,
            receive_ticket: self.receive_ticket@,
            dropped_tickets: self.dropped_tickets@,
        }
    }
}

impl<T> UnboundedQueue<T> {
    /// The id of the component the queue belongs to.
    pub closed spec fn ctx_id(&self) -> Id {
        self.ctx.id_of()
    }

    /// The type tag of the notifications of this queue.
    pub closed spec fn notify_tag(&self) -> TypeTag {
        self.notify_tag
    }

    /// Well-formedness of the queue.
    pub open spec fn wf(&self) -> bool {
        self@.wf()
    }

    /// Whether `sim` knows the key extractor of this queue's notifications.
    pub open spec fn known_to<P>(&self, sim: SimState<P>) -> bool {
        sim.key_getters.contains_key(self.notify_tag())
    }

    /// A queue of component `ctx` whose notifications have type tag
    /// `notify_tag`; registers the key extractor of the notifications.
    pub fn new<P>(ctx: SimulationContext, sim: &mut Simulation<P>, notify_tag: TypeTag) -> (q: Self)
        requires
            old(sim).wf(),
            old(sim)@.may_register(notify_tag, TICKET_KEY_GETTER),
        ensures
            q.wf(),
            final(sim).wf(),
            q@ == QueueState::<T>::empty(),
            q.ctx_id() == ctx.id_of(),
            q.notify_tag() == notify_tag,
            q.known_to(final(sim)@),
            final(sim)@ == old(sim)@.register_key_getter(notify_tag, TICKET_KEY_GETTER),
    {
        ctx.register_key_getter_for(sim, notify_tag, TICKET_KEY_GETTER);
        let q = UnboundedQueue {
            items: VecDeque::new(),
            send_ticket: Ticket::new(),
            receive_ticket: Ticket::new(),
            dropped_tickets: FxHashSet::default(),
            ctx,
            notify_tag,
        };
        q
    }

    /// The id of the component the queue belongs to.
    pub fn component(&self) -> (id: Id)
        ensures
            id == self.ctx_id(),
    {
        self.ctx.id()
    }

    /// The type tag of the notifications of this queue.
    pub fn notification_tag(&self) -> (tag: TypeTag)
        ensures
            tag == self.notify_tag(),
    {
        self.notify_tag
    }

    /// The number of items in the queue.
    pub fn len(&self) -> (n: usize)
        ensures
            n == self@.items.len(),
    {
        self.items.len()
    }

    /// Whether the queue holds no item.
    pub fn is_empty(&self) -> (b: bool)
        ensures
            b == (self@.items.len() == 0),
    {
        self.items.len() == 0
    }

    /// The ticket of the last producer.
    pub fn send_ticket(&self) -> (t: TicketID)
        ensures
            t == self@.send_ticket,
    {
        self.send_ticket.value()
    }

    /// The ticket of the last consumer.
    pub fn receive_ticket(&self) -> (t: TicketID)
        ensures
            t == self@.receive_ticket,
    {
        self.receive_ticket.value()
    }

    /// Appends `item` to the queue and notifies the consumer whose turn it
    /// is, if one is waiting; a producer never waits.
    pub fn put<P>(&mut self, sim: &mut Simulation<P>, item: T) -> (notify: Option<ConsumerNotify>)
        requires
            old(self).wf(),
            old(sim).wf(),
            old(self).known_to(old(sim)@),
            old(self)@.send_ticket < u64::MAX,
            old(self)@.receive_ticket < u64::MAX,
            old(sim)@.event_count < u64::MAX,
        ensures
            final(self).wf(),
            final(sim).wf(),
            final(self).ctx_id() == old(self).ctx_id(),
            final(self).notify_tag() == old(self).notify_tag(),
            final(self)@ == old(self)@.put(item),
            match old(self)@.notification() {
                Some(ticket) => notify matches Some(n) && n.ticket_id == ticket && final(sim)@
                    == old(sim)@.signal(
                    old(self).ctx_id(),
                    old(self).ctx_id(),
                    old(self).notify_tag(),
                    Some(ticket),
                    0,
                ),
                None => notify is None && final(sim)@ == old(sim)@,
            },
    {
        let ghost before = self@;
        let ghost first = before.send_ticket + 1;
        self.send_ticket.next();
        let mut skipped = remove_ticket(&mut self.dropped_tickets, self.send_ticket.value());
        while skipped
            invariant
                self.items == old(self).items,
                self.receive_ticket == old(self).receive_ticket,
                self.ctx == old(self).ctx,
                self.notify_tag == old(self).notify_tag,
                before == old(self)@,
                before.wf(),
                before.receive_ticket < u64::MAX,
                first == before.send_ticket + 1,
                first <= self.send_ticket@ <= u64::MAX,
                skipped == before.dropped_tickets.contains(self.send_ticket@ as TicketID),
                skip_dropped(before.dropped_tickets, first, before.receive_ticket) == skip_dropped(
                    before.dropped_tickets,
                    self.send_ticket@,
                    before.receive_ticket,
                ),
                self.dropped_tickets@ == before.dropped_tickets.filter(
                    |t: TicketID| !(first <= t <= self.send_ticket@),
                ),
            decreases before.receive_ticket + 1 - self.send_ticket@,
        {
            self.send_ticket.next();
            skipped = remove_ticket(&mut self.dropped_tickets, self.send_ticket.value());
        }
        self.items.push_back(item);
        if self.receive_ticket.is_after(&self.send_ticket) {
            let ticket_id = self.send_ticket.value();
            self.ctx.signal_self_now(sim, self.notify_tag, Some(ticket_id));
            Some(ConsumerNotify { ticket_id })
        } else {
            None
        }
    }

    /// Removes the head of the queue and returns it; if the queue is empty,
    /// registers `task` as a waiting consumer instead. In both cases the
    /// consumer has claimed the next receive ticket.
    ///
    /// Consumers that wait are served in the order of their [`take`](Self::take) calls.
    pub fn take<P>(&mut self, sim: &mut Simulation<P>, task: TaskId) -> (r: Take<T>)
        requires
            old(self).wf(),
            old(sim).wf(),
            old(self)@.receive_ticket < u64::MAX,
            old(self)@.items.len() == 0 ==> old(sim)@.await_count < u64::MAX && old(sim)@.may_await(
                old(self).notify_tag(),
                Some((old(self)@.receive_ticket + 1) as TicketID),
            ),
        ensures
            final(self).wf(),
            final(sim).wf(),
            final(self).ctx_id() == old(self).ctx_id(),
            final(self).notify_tag() == old(self).notify_tag(),
            final(self)@ == old(self)@.take(),
            match r {
                Take::Ready(item) => old(self)@.items.len() > 0 && item == old(self)@.items[0]
                    && final(sim)@ == old(sim)@,
                Take::Pending(w) => old(self)@.items.len() == 0 && w.ticket_of() == old(
                    self,
                )@.receive_ticket + 1 && w.await_of() == old(sim)@.await_count && !w.is_completed()
                    && final(sim)@ == old(sim)@.await_event(
                    task,
                    old(self).ctx_id(),
                    Some(old(self).ctx_id()),
                    EventKind::Message(old(self).notify_tag()),
                    Some(w.ticket_of()),
                ),
            },
    {
        self.receive_ticket.next();
        match self.items.pop_front() {
            Some(item) => {
                proof {
                    assert(self@ =~= old(self)@.take());
                }
                Take::Ready(item)
            },
            None => {
                let ticket_id = self.receive_ticket.value();
                let await_id = self.ctx.recv_event_by_key_from_self(
                    sim,
                    task,
                    self.notify_tag,
                    ticket_id,
                );
                proof {
                    assert(self@ =~= old(self)@.take());
                }
                Take::Pending(ElementFutureWrapper::from_future(ticket_id, await_id))
            },
        }
    }
}

} // verus!
