//! The order in which the queue serves its consumers.
//!
//! A queue is followed together with its consumers: who waits, whose
//! notification is under way, what was produced and who was served. As long
//! as no consumer calls `take` or gives up while its own or another
//! consumer's notification is under way, every item goes to exactly one
//! consumer and the consumers are served in the order of their `take` calls.

use crate::queue::{lemma_skip_dropped, QueueState};
use crate::ticket::TicketID;
use vstd::prelude::*;

verus! {

/// A queue together with its consumers and its history.
#[verifier::ext_equal]
pub struct Exchange<T> {
    /// The queue itself.
    pub queue: QueueState<T>,
    /// The receive tickets of the consumers that wait for an item.
    pub waiting: Set<TicketID>,
    /// The tickets of the waiting consumers whose notification is under way,
    /// in the order in which the notifications were sent.
    pub notified: Seq<TicketID>,
    /// All items put so far, in the order of the `put` calls.
    pub produced: Seq<T>,
    /// The items handed out so far, in the order in which they were handed out.
    pub served_items: Seq<T>,
    /// For each item handed out, the receive ticket of the consumer that got it.
    pub served_tickets: Seq<TicketID>,
}

impl<T> Exchange<T> {
    /// A new queue without consumers.
    pub open spec fn empty() -> Self {
        Exchange {
            queue: QueueState::empty(),
            waiting: Set::empty(),
            notified: Seq::empty(),
            produced: Seq::empty(),
            served_items: Seq::empty(),
            served_tickets: Seq::empty(),
        }
    }

    /// After a producer has put `item`: a consumer whose turn it is has its
    /// notification under way.
    pub open spec fn put(self, item: T) -> Self {
        Exchange {
            queue: self.queue.put(item),
            notified: match self.queue.notification() {
                Some(ticket) => self.notified.push(ticket),
                None => self.notified,
            },
            produced: self.produced.push(item),
            ..self
        }
    }

    /// After a consumer has called `take`: it is served at once if an item is
    /// there, and waits otherwise.
    pub open spec fn take(self) -> Self {
        let ticket = (self.queue.receive_ticket + 1) as TicketID;
        if self.queue.items.len() > 0 {
            Exchange {
                queue: self.queue.take(),
                served_items: self.served_items.push(self.queue.items[0]),
                served_tickets: self.served_tickets.push(ticket),
                ..self
            }
        } else {
            Exchange { queue: self.queue.take(), waiting: self.waiting.insert(ticket), ..self }
        }
    }

    /// After the consumer whose notification was sent first has received it
    /// and taken the head of the queue.
    pub open spec fn complete(self) -> Self
        recommends
            self.notified.len() > 0,
    {
        Exchange {
            queue: self.queue.complete(),
            waiting: self.waiting.remove(self.notified[0]),
            notified: self.notified.subrange(1, self.notified.len() as int),
            served_items: self.served_items.push(self.queue.items[0]),
            served_tickets: self.served_tickets.push(self.notified[0]),
            ..self
        }
    }

    /// After the waiting consumer with `ticket` has given up.
    pub open spec fn abandon(self, ticket: TicketID) -> Self {
        Exchange {
            queue: self.queue.abandon(ticket),
            waiting: self.waiting.remove(ticket),
            ..self
        }
    }

    /// The number of items that no consumer has a ticket for yet.
    pub open spec fn surplus(self) -> nat {
        if self.queue.send_ticket > self.queue.receive_ticket {
            (self.queue.send_ticket - self.queue.receive_ticket) as nat
        } else {
            0
        }
    }

    /// Producers and consumers are in step.
    pub open spec fn balanced(self) -> bool {
        &&& self.queue.wf()
        &&& self.tickets_balanced()
        &&& self.history_balanced()
    }

    /// The tickets between the two counters belong to waiting consumers or
    /// are dropped, the notified consumers are the waiting ones that
    /// producers have reached, and each item in the queue is meant for a
    /// notified consumer or is surplus.
    pub open spec fn tickets_balanced(self) -> bool {
        let q = self.queue;
        &&& forall|i: int, j: int|
            0 <= i < j < self.notified.len() ==> #[trigger] self.notified[i]
                < #[trigger] self.notified[j]
        &&& forall|i: int|
            0 <= i < self.notified.len() ==> self.waiting.contains(#[trigger] self.notified[i])
                && self.notified[i] <= q.send_ticket
        &&& forall|w: TicketID| #[trigger]
            self.waiting.contains(w) ==> w <= q.receive_ticket && !q.dropped_tickets.contains(w)
        &&& forall|w: TicketID| #[trigger]
            self.waiting.contains(w) && w <= q.send_ticket ==> self.notified.contains(w)
        &&& forall|t: TicketID|
            q.send_ticket < t <= q.receive_ticket ==> #[trigger] self.waiting.contains(t)
                || q.dropped_tickets.contains(t)
        &&& forall|t: TicketID| #[trigger] q.dropped_tickets.contains(t) ==> t > q.send_ticket
        &&& q.items.len() == self.notified.len() + self.surplus()
    }

    /// Everything produced was handed out once or is still in the queue, in
    /// the order of production, and the consumers were served in the order
    /// of their tickets, each before any consumer that still waits.
    pub open spec fn history_balanced(self) -> bool {
        &&& self.produced == self.served_items + self.queue.items
        &&& self.served_tickets.len() == self.served_items.len()
        &&& forall|i: int, j: int|
            0 <= i < j < self.served_tickets.len() ==> #[trigger] self.served_tickets[i]
                < #[trigger] self.served_tickets[j]
        &&& forall|i: int|
            0 <= i < self.served_tickets.len() ==> #[trigger] self.served_tickets[i]
                <= self.queue.receive_ticket
        &&& forall|i: int, w: TicketID|
            0 <= i < self.served_tickets.len() && #[trigger] self.waiting.contains(w)
                ==> #[trigger] self.served_tickets[i] < w
    }

    /// A new queue is balanced.
    pub proof fn lemma_empty_balanced()
        ensures
            Self::empty().balanced(),
    {
    }

    /// A producer never disturbs the balance, and it notifies the waiting
    /// consumer that called `take` first, if one is waiting without a
    /// notification.
    pub proof fn lemma_put_balanced(self, item: T)
        requires
            self.balanced(),
            self.queue.send_ticket < u64::MAX,
            self.queue.receive_ticket < u64::MAX,
        ensures
            self.put(item).balanced(),
            match self.queue.notification() {
                Some(ticket) => self.waiting.contains(ticket) && !self.notified.contains(ticket)
                    && forall|w: TicketID|
                    #[trigger] self.waiting.contains(w) && !self.notified.contains(w) ==> ticket
                        <= w,
                None => forall|w: TicketID| #[trigger]
                    self.waiting.contains(w) ==> self.notified.contains(w),
            },
    {
        let q = self.queue;
        let n = self.put(item);
        let next = q.next_send();
        lemma_skip_dropped(q.dropped_tickets, q.send_ticket + 1, q.receive_ticket);
        if next <= q.receive_ticket {
            let ticket = next as TicketID;
            assert forall|w: TicketID| #[trigger]
                n.waiting.contains(w) && w <= n.queue.send_ticket implies n.notified.contains(w) by {
                if w <= q.send_ticket {
                    let k = choose|k: int| 0 <= k < self.notified.len() && self.notified[k] == w;
                    assert(n.notified[k] == w);
                } else if w >= ticket {
                    assert(n.notified[self.notified.len() as int] == w);
                }
            }
        }
    }

    /// A consumer that calls `take` while no notification is under way keeps the balance.
    pub proof fn lemma_take_balanced(self)
        requires
            self.balanced(),
            self.notified.len() == 0,
            self.queue.receive_ticket < u64::MAX,
        ensures
            self.take().balanced(),
    {
        let q = self.queue;
        let n = self.take();
        if q.items.len() > 0 {
            assert(n.produced =~= n.served_items + n.queue.items);
        }
    }

    /// While a notification is under way the queue holds an item for it,
    /// and its consumer is the one that called `take` first among those that wait.
    pub proof fn lemma_notified_consumer_is_first(self)
        requires
            self.balanced(),
            self.notified.len() > 0,
        ensures
            self.queue.items.len() > 0,
            self.waiting.contains(self.notified[0]),
            forall|w: TicketID| #[trigger] self.waiting.contains(w) ==> self.notified[0] <= w,
    {
    }

    /// A notified consumer that takes the head of the queue keeps the balance.
    pub proof fn lemma_complete_balanced(self)
        requires
            self.balanced(),
            self.notified.len() > 0,
        ensures
            self.complete().balanced(),
    {
        let n = self.complete();
        assert(n.produced =~= n.served_items + n.queue.items);
        assert forall|w: TicketID| #[trigger]
            n.waiting.contains(w) && w <= n.queue.send_ticket implies n.notified.contains(w) by {
            let k = choose|k: int| 0 <= k < self.notified.len() && self.notified[k] == w;
            assert(n.notified[k - 1] == w);
        }
    }

    /// A waiting consumer that gives up before a producer has reached it keeps the balance.
    pub proof fn lemma_abandon_balanced(self, ticket: TicketID)
        requires
            self.balanced(),
            self.waiting.contains(ticket),
            !self.notified.contains(ticket),
        ensures
            self.abandon(ticket).balanced(),
    {
    }

    /// Items are dequeued exactly once and in the order of production: what
    /// was handed out, followed by what is still in the queue, is what was produced.
    pub proof fn lemma_each_item_once(self)
        requires
            self.balanced(),
        ensures
            self.produced == self.served_items + self.queue.items,
            self.served_items.len() + self.queue.items.len() == self.produced.len(),
            forall|i: int|
                0 <= i < self.served_items.len() ==> #[trigger] self.served_items[i]
                    == self.produced[i],
    {
    }

    /// Consumers are served in the order of their `take` calls: of two
    /// served consumers, the one with the smaller receive ticket got the item
    /// produced earlier, and no consumer that still waits called `take`
    /// before one that was served.
    pub proof fn lemma_served_in_take_order(self, i: int, j: int)
        requires
            self.balanced(),
            0 <= i < self.served_tickets.len(),
            0 <= j < self.served_tickets.len(),
        ensures
            self.served_tickets[i] < self.served_tickets[j] <==> i < j,
            self.served_items[i] == self.produced[i],
            forall|w: TicketID| #[trigger] self.waiting.contains(w) ==> self.served_tickets[i] < w,
    {
    }
}

/// The counters of a queue never decrease: a producer moves the send ticket
/// forward, a consumer the receive ticket, and nothing else touches them.
pub proof fn lemma_counters_never_decrease<T>(q: QueueState<T>, item: T, ticket: TicketID)
    requires
        q.wf(),
        q.send_ticket < u64::MAX,
        q.receive_ticket < u64::MAX,
    ensures
        q.put(item).send_ticket > q.send_ticket,
        q.put(item).receive_ticket == q.receive_ticket,
        q.take().receive_ticket == q.receive_ticket + 1,
        q.take().send_ticket == q.send_ticket,
        q.complete().send_ticket == q.send_ticket,
        q.complete().receive_ticket == q.receive_ticket,
        q.abandon(ticket).send_ticket == q.send_ticket,
        q.abandon(ticket).receive_ticket == q.receive_ticket,
{
    lemma_skip_dropped(q.dropped_tickets, q.send_ticket + 1, q.receive_ticket);
}

} // verus!
