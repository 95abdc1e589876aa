use simcore::awaits::{Await, AwaitRegistry};
use simcore::directory::{Directory, EventCancellationPolicy, HandlerKind};
use simcore::event::{Event, EventHeader, EventKind};
use simcore::event_queue::EventQueue;
use simcore::executor::{Executor, TaskState};
use simcore::registry::TypeRegistry;

fn header(id: u64, time: u64) -> EventHeader {
    EventHeader { id, time, src: 0, dst: 1, kind: EventKind::Message(3), key: None }
}

fn route(id: u64, src: u32, dst: u32) -> EventHeader {
    EventHeader { id, time: 0, src, dst, kind: EventKind::Message(3), key: None }
}

#[test]
fn event_header_precedes_by_time_then_id() {
    assert!(header(5, 1).precedes(&header(0, 2)));
    assert!(!header(0, 2).precedes(&header(5, 1)));
    assert!(header(1, 2).precedes(&header(2, 2)));
    assert!(!header(2, 2).precedes(&header(1, 2)));
    assert!(!header(2, 2).precedes(&header(2, 2)));
}

#[test]
fn event_kind_same_compares_variant_and_tag() {
    assert!(EventKind::Timer.same(&EventKind::Timer));
    assert!(EventKind::Message(1).same(&EventKind::Message(1)));
    assert!(!EventKind::Message(1).same(&EventKind::Message(2)));
    assert!(!EventKind::Message(1).same(&EventKind::Timer));
    assert!(!EventKind::Timer.same(&EventKind::Message(0)));
}

#[test]
fn event_assemble_joins_header_and_payload() {
    let h = EventHeader { id: 4, time: 9, src: 1, dst: 2, kind: EventKind::Timer, key: Some(6) };
    let e = Event::assemble(h, Some("x"));
    assert_eq!((e.id, e.time, e.src, e.dst, e.key, e.data), (4, 9, 1, 2, Some(6), Some("x")));
    assert!(matches!(e.kind, EventKind::Timer));
    let bare: Event<u8> = Event::assemble(h, None);
    assert!(bare.data.is_none());
}

#[test]
fn event_queue_pops_in_time_then_id_order() {
    let mut q = EventQueue::new();
    assert!(q.is_empty());
    assert!(q.peek().is_none());
    assert!(q.pop().is_none());
    let times = [7u64, 3, 9, 3, 1, 7, 7, 0, 12, 5];
    for (id, time) in times.iter().enumerate() {
        q.push(header(id as u64, *time));
    }
    assert_eq!(q.len(), 10);
    assert!(!q.is_empty());
    let first = q.peek().unwrap();
    assert_eq!((first.time, first.id), (0, 7));
    assert_eq!(q.len(), 10);
    let mut out = Vec::new();
    while let Some(e) = q.pop() {
        out.push((e.time, e.id));
    }
    assert_eq!(
        out,
        vec![(0, 7), (1, 4), (3, 1), (3, 3), (5, 9), (7, 0), (7, 5), (7, 6), (9, 2), (12, 8)]
    );
    assert!(q.is_empty());
}

#[test]
fn event_queue_keeps_order_under_interleaved_push_and_pop() {
    let mut q = EventQueue::new();
    let mut x: u64 = 99;
    let mut next_id = 0;
    let mut last = (0u64, 0u64);
    let mut popped = 0;
    for round in 0..300 {
        x = x.wrapping_mul(6364136223846793005).wrapping_add(1442695040888963407);
        // times never lie before what was popped last
        q.push(header(next_id, last.0 + (x >> 35) % 40));
        next_id += 1;
        if round % 3 == 2 {
            let e = q.pop().unwrap();
            assert!(last <= (e.time, e.id) || popped == 0);
            last = (e.time, e.id);
            popped += 1;
        }
    }
    assert_eq!(q.len(), 200);
    while let Some(e) = q.pop() {
        assert!(last < (e.time, e.id));
        last = (e.time, e.id);
        popped += 1;
    }
    assert_eq!(popped, 300);
}

#[test]
fn cancellation_policy_names_incoming_and_outgoing_events() {
    let a_to_b = route(0, 1, 2);
    let b_to_a = route(1, 2, 1);
    let a_to_a = route(2, 1, 1);
    let b_to_b = route(3, 2, 2);
    let all = [a_to_b, b_to_a, a_to_a, b_to_b];
    let hits = |p: EventCancellationPolicy| -> Vec<bool> {
        all.iter().map(|e| p.cancels(1, e)).collect()
    };
    assert_eq!(hits(EventCancellationPolicy::Nothing), vec![false, false, false, false]);
    assert_eq!(hits(EventCancellationPolicy::Incoming), vec![false, true, true, false]);
    assert_eq!(hits(EventCancellationPolicy::Outgoing), vec![true, false, true, false]);
    assert_eq!(hits(EventCancellationPolicy::Both), vec![true, true, true, false]);
}

#[test]
fn registry_keeps_one_getter_per_type() {
    let mut r = TypeRegistry::new();
    assert_eq!(r.key_getter(1), None);
    assert!(!r.has_key_getter(1));
    r.register_key_getter_for(1, 50);
    r.register_key_getter_for(2, 60);
    r.register_key_getter_for(1, 50);
    assert_eq!(r.key_getter(1), Some(50));
    assert_eq!(r.key_getter(2), Some(60));
    assert!(r.has_key_getter(2));
    assert!(!r.has_key_getter(3));
}

#[test]
fn directory_assigns_ids_in_order_of_creation() {
    let mut d = Directory::new();
    assert_eq!(d.len(), 0);
    assert_eq!(d.create("x"), 0);
    assert_eq!(d.create("y"), 1);
    assert_eq!(d.create(""), 2);
    assert_eq!(d.len(), 3);
    assert_eq!(d.lookup_id("y"), Some(1));
    assert_eq!(d.lookup_id(""), Some(2));
    assert_eq!(d.lookup_id("z"), None);
    assert_eq!(d.lookup_name(0), Some("x".to_string()));
    assert_eq!(d.lookup_name(3), None);
    assert_eq!(d.handler(1), None);
    d.set_handler(1, Some(HandlerKind::Static));
    assert_eq!(d.handler(1), Some(HandlerKind::Static));
    assert_eq!(d.handler(0), None);
    d.set_handler(1, None);
    assert_eq!(d.handler(1), None);
    d.set_handler(7, Some(HandlerKind::Callback));
    assert_eq!(d.handler(7), None);
    assert_eq!(d.len(), 3);
}

fn keyed(e: EventHeader, key: u64) -> EventHeader {
    EventHeader { key: Some(key), ..e }
}

#[test]
fn await_registry_claims_the_smallest_accepting_ordinal() {
    let mut r = AwaitRegistry::new();
    assert_eq!(r.issued(), 0);
    let kind = EventKind::Message(3);
    let a0 = r.register(10, 1, None, kind, Some(5));
    let a1 = r.register(11, 1, None, kind, Some(6));
    let a2 = r.register(12, 1, None, kind, Some(6));
    let a3 = r.register(13, 2, None, kind, Some(6));
    assert_eq!((a0, a1, a2, a3), (0, 1, 2, 3));
    assert_eq!(r.issued(), 4);
    assert_eq!(r.len(), 4);
    assert!(r.has_await_on(3, true));
    assert!(!r.has_await_on(3, false));
    assert!(!r.has_await_on(4, true));

    let e = keyed(header(0, 0), 6);
    let got = r.claim(&e).unwrap();
    assert_eq!((got.id, got.task), (1, 11));
    let got = r.claim(&e).unwrap();
    assert_eq!((got.id, got.task), (2, 12));
    assert!(r.claim(&e).is_none());
    assert!(r.claim(&keyed(header(0, 0), 7)).is_none());
    assert!(r.claim(&header(0, 0)).is_none());
    assert_eq!(r.len(), 2);
    assert!(r.is_pending(0));
    assert!(!r.is_pending(1));
    assert!(r.is_pending(3));
    // ordinals are not reused
    assert_eq!(r.register(14, 1, None, kind, Some(6)), 4);
}

#[test]
fn await_registry_cancel_removes_only_the_named_await() {
    let mut r = AwaitRegistry::new();
    let kind = EventKind::Message(3);
    r.register(10, 1, None, kind, None);
    r.register(11, 1, None, kind, None);
    r.register(12, 1, None, kind, None);
    assert!(r.cancel(1));
    assert!(!r.cancel(1));
    assert!(!r.cancel(9));
    assert_eq!(r.len(), 2);
    assert_eq!(r.claim(&header(0, 0)).unwrap().task, 10);
    assert_eq!(r.claim(&header(0, 0)).unwrap().task, 12);
}

#[test]
fn await_admits_checks_every_restriction() {
    let a = Await { id: 0, task: 0, dst: 1, src: Some(0), kind: EventKind::Message(3), key: Some(8) };
    let e = keyed(header(0, 0), 8);
    assert!(AwaitRegistry::admits(&a, &e));
    assert!(!AwaitRegistry::admits(&a, &keyed(header(0, 0), 9)));
    assert!(!AwaitRegistry::admits(&a, &header(0, 0)));
    assert!(!AwaitRegistry::admits(&a, &EventHeader { dst: 2, ..e }));
    assert!(!AwaitRegistry::admits(&a, &EventHeader { src: 1, ..e }));
    assert!(!AwaitRegistry::admits(&a, &EventHeader { kind: EventKind::Message(4), ..e }));
    assert!(!AwaitRegistry::admits(&a, &EventHeader { kind: EventKind::Timer, ..e }));
    let open = Await { src: None, key: None, ..a };
    assert!(AwaitRegistry::admits(&open, &EventHeader { src: 1, ..e }));
    assert!(AwaitRegistry::admits(&open, &header(0, 0)));
}

#[test]
fn executor_polls_in_fifo_order_and_wakes_only_waiting_tasks() {
    let mut ex = Executor::new();
    assert!(!ex.has_ready());
    assert!(ex.next_ready().is_none());
    assert_eq!(ex.spawn(), 0);
    assert_eq!(ex.spawn(), 1);
    assert_eq!(ex.spawned(), 2);
    assert!(ex.has_ready());
    // a ready task is not woken again
    assert!(!ex.wake(0));
    assert_eq!(ex.next_ready(), Some(0));
    assert_eq!(ex.state(0), Some(TaskState::Waiting));
    assert_eq!(ex.state(1), Some(TaskState::Ready));
    assert!(ex.wake(0));
    assert!(!ex.wake(0));
    assert_eq!(ex.next_ready(), Some(1));
    assert_eq!(ex.next_ready(), Some(0));
    assert_eq!(ex.next_ready(), None);
    assert!(ex.finish(1));
    assert!(!ex.wake(1));
    assert_eq!(ex.state(1), Some(TaskState::Done));
    assert_eq!(ex.state(2), None);
    assert!(!ex.wake(5));
    assert!(!ex.has_ready());
}
