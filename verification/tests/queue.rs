use std::collections::HashMap;

use simcore::context::SimulationContext;
use simcore::event::{EventKind, TaskId, TypeTag};
use simcore::queue::{ElementFutureWrapper, Take, UnboundedQueue, TICKET_KEY_GETTER};
use simcore::simulation::{Simulation, Sleep};
use simcore::state::Action;

const NOTIFY: TypeTag = 40;

fn setup() -> (Simulation<()>, SimulationContext, UnboundedQueue<&'static str>) {
    let mut sim: Simulation<()> = Simulation::new(7);
    let ctx = sim.create_context("node");
    let id = ctx.id();
    assert!(sim.can_register_key_getter(NOTIFY, TICKET_KEY_GETTER));
    let queue = UnboundedQueue::new(SimulationContext::new(id, "node"), &mut sim, NOTIFY);
    (sim, ctx, queue)
}

fn wait(
    queue: &mut UnboundedQueue<&'static str>,
    sim: &mut Simulation<()>,
    task: TaskId,
) -> ElementFutureWrapper {
    assert!(queue.is_empty());
    assert!(sim.can_await(NOTIFY, &Some(queue.receive_ticket() + 1)));
    match queue.take(sim, task) {
        Take::Pending(w) => w,
        Take::Ready(_) => panic!("the queue was empty"),
    }
}

fn take_now(
    queue: &mut UnboundedQueue<&'static str>,
    sim: &mut Simulation<()>,
    task: TaskId,
) -> &'static str {
    assert!(!queue.is_empty());
    match queue.take(sim, task) {
        Take::Ready(item) => item,
        Take::Pending(_) => panic!("the queue held an item"),
    }
}

#[test]
fn new_queue_is_empty_and_registers_its_key_getter() {
    let (sim, _ctx, queue) = setup();
    assert_eq!(queue.len(), 0);
    assert!(queue.is_empty());
    assert_eq!(queue.send_ticket(), 0);
    assert_eq!(queue.receive_ticket(), 0);
    assert_eq!(sim.key_getter(NOTIFY), Some(TICKET_KEY_GETTER));
}

#[test]
fn two_queues_may_share_the_notification_type() {
    let (mut sim, ctx, _first) = setup();
    assert!(sim.can_register_key_getter(NOTIFY, TICKET_KEY_GETTER));
    let second: UnboundedQueue<u8> =
        UnboundedQueue::new(SimulationContext::new(ctx.id(), "node"), &mut sim, NOTIFY);
    assert!(second.is_empty());
    assert_eq!(sim.key_getter(NOTIFY), Some(TICKET_KEY_GETTER));
}

#[test]
fn put_without_consumer_stores_the_item_and_notifies_nobody() {
    let (mut sim, _ctx, mut queue) = setup();
    let notify = queue.put(&mut sim, "a");
    assert!(notify.is_none());
    assert_eq!(queue.len(), 1);
    assert_eq!(queue.send_ticket(), 1);
    assert_eq!(queue.receive_ticket(), 0);
    assert_eq!(sim.event_count(), 0);
}

#[test]
fn take_from_a_filled_queue_returns_the_head_at_once() {
    let (mut sim, ctx, mut queue) = setup();
    queue.put(&mut sim, "a");
    queue.put(&mut sim, "b");
    let task = ctx.spawn(&mut sim);
    assert_eq!(take_now(&mut queue, &mut sim, task), "a");
    assert_eq!(queue.receive_ticket(), 1);
    assert_eq!(take_now(&mut queue, &mut sim, task), "b");
    assert_eq!(queue.receive_ticket(), 2);
    assert!(queue.is_empty());
    assert_eq!(sim.pending_awaits(), 0);
    assert_eq!(sim.event_count(), 0);
}

#[test]
fn take_from_an_empty_queue_waits_for_its_ticket() {
    let (mut sim, ctx, mut queue) = setup();
    let task = ctx.spawn(&mut sim);
    let w = wait(&mut queue, &mut sim, task);
    assert_eq!(w.ticket_id(), 1);
    assert_eq!(w.await_id(), 0);
    assert!(!w.completed());
    assert_eq!(queue.receive_ticket(), 1);
    assert!(sim.is_awaiting(w.await_id()));
}

#[test]
fn put_notifies_the_waiting_consumer_by_its_ticket() {
    let (mut sim, ctx, mut queue) = setup();
    let task = ctx.spawn(&mut sim);
    assert_eq!(sim.advance_until(0).delivers_event(), false);
    let mut w = wait(&mut queue, &mut sim, task);
    let notify = queue.put(&mut sim, "a").unwrap();
    assert_eq!(notify.ticket_id, 1);
    assert_eq!(notify.key(), 1);
    assert_eq!(sim.event_count(), 1);
    // nothing happens to the consumer before its notification arrives
    assert!(w.poll(&mut queue, false).is_none());
    assert!(!w.completed());
    assert_eq!(queue.len(), 1);
    match sim.advance() {
        Action::Wake { task: woken, await_id, event } => {
            assert_eq!(woken, task);
            assert_eq!(await_id, w.await_id());
            assert_eq!(event.src, ctx.id());
            assert_eq!(event.dst, ctx.id());
            assert_eq!(event.key, Some(1));
            assert_eq!(event.time, 0);
            assert!(matches!(event.kind, EventKind::Message(NOTIFY)));
            assert!(event.data.is_none());
        }
        _ => panic!("the notification must wake the consumer"),
    }
    assert_eq!(w.poll(&mut queue, true), Some("a"));
    assert!(w.completed());
    assert!(queue.is_empty());
    // a completed consumer leaves no trace when it is let go
    w.release(&mut queue, &mut sim);
    let task2 = ctx.spawn(&mut sim);
    let w2 = wait(&mut queue, &mut sim, task2);
    assert_eq!(w2.ticket_id(), 2);
    assert_eq!(queue.put(&mut sim, "b").unwrap().ticket_id, 2);
}

#[test]
fn producer_skips_the_ticket_of_a_consumer_that_gave_up() {
    let (mut sim, ctx, mut queue) = setup();
    let first = ctx.spawn(&mut sim);
    let second = ctx.spawn(&mut sim);
    let w1 = wait(&mut queue, &mut sim, first);
    let mut w2 = wait(&mut queue, &mut sim, second);
    assert_eq!((w1.ticket_id(), w2.ticket_id()), (1, 2));
    let dropped_await = w1.await_id();
    w1.release(&mut queue, &mut sim);
    assert!(!sim.is_awaiting(dropped_await));
    assert!(sim.is_awaiting(w2.await_id()));

    let notify = queue.put(&mut sim, "x").unwrap();
    assert_eq!(notify.ticket_id, 2);
    assert_eq!(queue.send_ticket(), 2);
    while sim.has_ready_task() {
        sim.advance();
    }
    match sim.advance() {
        Action::Wake { task, await_id, .. } => {
            assert_eq!(task, second);
            assert_eq!(await_id, w2.await_id());
        }
        _ => panic!("the notification must wake the second consumer"),
    }
    assert_eq!(w2.poll(&mut queue, true), Some("x"));

    // the dropped ticket was skipped once and is forgotten
    assert!(queue.put(&mut sim, "y").is_none());
    assert_eq!(queue.send_ticket(), 3);
    assert_eq!(queue.receive_ticket(), 2);
}

#[test]
fn producer_skips_several_dropped_tickets_in_a_row() {
    let (mut sim, ctx, mut queue) = setup();
    let mut waiting = Vec::new();
    for _ in 0..5 {
        let task = ctx.spawn(&mut sim);
        waiting.push(wait(&mut queue, &mut sim, task));
    }
    let last = waiting.pop().unwrap();
    let fourth = waiting.pop().unwrap();
    for w in waiting {
        w.release(&mut queue, &mut sim);
    }
    assert_eq!(queue.put(&mut sim, "x").unwrap().ticket_id, 4);
    assert_eq!(queue.send_ticket(), 4);
    assert_eq!(queue.put(&mut sim, "y").unwrap().ticket_id, 5);
    assert_eq!(fourth.ticket_id(), 4);
    assert_eq!(last.ticket_id(), 5);
}

#[test]
fn producer_that_finds_only_dropped_tickets_notifies_nobody() {
    let (mut sim, ctx, mut queue) = setup();
    let task = ctx.spawn(&mut sim);
    let w = wait(&mut queue, &mut sim, task);
    w.release(&mut queue, &mut sim);
    assert!(queue.put(&mut sim, "x").is_none());
    assert_eq!(queue.send_ticket(), 2);
    assert_eq!(queue.receive_ticket(), 1);
    assert_eq!(take_now(&mut queue, &mut sim, task), "x");
    assert_eq!(queue.receive_ticket(), 2);
}

#[test]
fn lone_consumer_blocks_until_the_next_put() {
    // both counters are equal and nothing is in flight
    let (mut sim, ctx, mut queue) = setup();
    queue.put(&mut sim, "a");
    let task = ctx.spawn(&mut sim);
    assert_eq!(take_now(&mut queue, &mut sim, task), "a");
    assert_eq!((queue.send_ticket(), queue.receive_ticket()), (1, 1));
    let mut w = wait(&mut queue, &mut sim, task);
    assert!(w.poll(&mut queue, false).is_none());
    assert_eq!(queue.put(&mut sim, "b").unwrap().ticket_id, 2);
    assert_eq!(w.poll(&mut queue, true), Some("b"));
}

enum Role {
    Consumer { index: usize, waiting: Option<ElementFutureWrapper>, rounds: u32 },
    Producer { index: usize, puts: u32, pending: Option<Sleep> },
}

const ITEMS: [[&str; 3]; 3] =
    [["p0-0", "p0-1", "p0-2"], ["p1-0", "p1-1", "p1-2"], ["p2-0", "p2-1", "p2-2"]];

#[test]
fn mpmc_queue_serves_consumers_in_take_order() {
    let (mut sim, ctx, mut queue) = setup();
    let mut roles: HashMap<TaskId, Role> = HashMap::new();
    let mut notified: HashMap<TaskId, bool> = HashMap::new();
    for index in 0..3 {
        let task = ctx.spawn(&mut sim);
        roles.insert(task, Role::Consumer { index, waiting: None, rounds: 0 });
    }
    for index in 0..3 {
        let task = ctx.spawn(&mut sim);
        roles.insert(task, Role::Producer { index, puts: 0, pending: None });
    }
    let mut got: Vec<Vec<&str>> = vec![Vec::new(), Vec::new(), Vec::new()];
    let mut order: Vec<(usize, &str, u64)> = Vec::new();

    loop {
        match sim.advance() {
            Action::Poll { task } => match roles.get_mut(&task).unwrap() {
                Role::Consumer { index, waiting, rounds } => {
                    if let Some(mut w) = waiting.take() {
                        assert!(notified.remove(&task).unwrap_or(false));
                        assert!(!queue.is_empty());
                        let ticket = w.ticket_id();
                        let item = w.poll(&mut queue, true).unwrap();
                        got[*index].push(item);
                        order.push((*index, item, ticket));
                        *rounds += 1;
                        // rest before the next take
                        ctx.sleep(&mut sim, task, 5);
                    } else if *rounds < 3 {
                        *waiting = Some(wait(&mut queue, &mut sim, task));
                    } else {
                        assert!(sim.finish(task));
                    }
                }
                Role::Producer { index, puts, pending } => {
                    if pending.take().is_some() {
                        queue.put(&mut sim, ITEMS[*index][*puts as usize]);
                        *puts += 1;
                    }
                    if *puts < 3 {
                        *pending = Some(ctx.sleep(&mut sim, task, 10));
                    } else {
                        assert!(sim.finish(task));
                    }
                }
            },
            Action::Wake { task, event, .. } => {
                if matches!(event.kind, EventKind::Message(NOTIFY)) {
                    notified.insert(task, true);
                }
            }
            Action::Handle { .. } => panic!("no event goes to a callback here"),
            Action::Unroutable { .. } => panic!("an event without a receiver"),
            Action::Idle => break,
        }
    }

    assert_eq!(got[0], vec!["p0-0", "p0-1", "p0-2"]);
    assert_eq!(got[1], vec!["p1-0", "p1-1", "p1-2"]);
    assert_eq!(got[2], vec!["p2-0", "p2-1", "p2-2"]);
    // each item once, in the order of the take calls
    let tickets: Vec<u64> = order.iter().map(|o| o.2).collect();
    assert_eq!(tickets, vec![1, 2, 3, 4, 5, 6, 7, 8, 9]);
    let consumers: Vec<usize> = order.iter().map(|o| o.0).collect();
    assert_eq!(consumers, vec![0, 1, 2, 0, 1, 2, 0, 1, 2]);
    assert!(queue.is_empty());
    assert_eq!(queue.send_ticket(), 9);
    assert_eq!(queue.receive_ticket(), 9);
}

#[test]
fn items_put_ahead_are_taken_in_fifo_order() {
    let (mut sim, ctx, mut queue) = setup();
    for n in 0..3 {
        for p in 0..3 {
            assert!(queue.put(&mut sim, ITEMS[p][n]).is_none());
        }
    }
    assert_eq!(queue.len(), 9);
    let consumers = [ctx.spawn(&mut sim), ctx.spawn(&mut sim), ctx.spawn(&mut sim)];
    let mut got = Vec::new();
    for turn in 0..9 {
        got.push(take_now(&mut queue, &mut sim, consumers[turn % 3]));
    }
    assert_eq!(
        got,
        vec!["p0-0", "p1-0", "p2-0", "p0-1", "p1-1", "p2-1", "p0-2", "p1-2", "p2-2"]
    );
    assert_eq!(queue.receive_ticket(), 9);
    assert_eq!(sim.event_count(), 0);
}

#[test]
fn take_while_a_notification_is_under_way_gets_the_item_of_the_notified_consumer() {
    let (mut sim, ctx, mut queue) = setup();
    let first = ctx.spawn(&mut sim);
    let second = ctx.spawn(&mut sim);
    sim.advance();
    sim.advance();
    let w = wait(&mut queue, &mut sim, first);
    assert_eq!(queue.put(&mut sim, "x").unwrap().ticket_id, 1);
    // the second consumer comes before the notification is delivered
    assert_eq!(take_now(&mut queue, &mut sim, second), "x");
    assert_eq!(queue.receive_ticket(), 2);
    assert!(matches!(sim.advance(), Action::Wake { task, await_id, .. }
        if task == first && await_id == w.await_id()));
    // the first consumer is notified, but its item is gone
    assert!(queue.is_empty());
    assert!(!w.completed());
}
