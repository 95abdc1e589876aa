use simcore::directory::{EventCancellationPolicy, HandlerKind};
use simcore::event::{EventKind, Time, TypeTag};
use simcore::executor::TaskState;
use simcore::simulation::Simulation;
use simcore::state::Action;

const NOTE: TypeTag = 1;
const KEYED: TypeTag = 2;

fn delivered(action: Action<u32>) -> (u64, Time, u32) {
    match action {
        Action::Handle { event, .. } => (event.id, event.time, event.data.unwrap()),
        Action::Wake { event, .. } => (event.id, event.time, event.data.unwrap()),
        Action::Unroutable { event } => (event.id, event.time, event.data.unwrap()),
        _ => panic!("an event is due"),
    }
}

fn one_component() -> Simulation<u32> {
    let mut sim = Simulation::new(0);
    sim.create_context("a");
    sim.add_handler("a");
    sim
}

#[test]
fn new_simulation_starts_at_time_zero_without_events() {
    let mut sim: Simulation<u32> = Simulation::new(123);
    assert_eq!(sim.seed(), 123);
    assert_eq!(sim.time(), 0);
    assert_eq!(sim.event_count(), 0);
    assert_eq!(sim.component_count(), 0);
    assert!(!sim.has_ready_task());
    assert!(matches!(sim.advance(), Action::Idle));
    assert_eq!(sim.time(), 0);
}

#[test]
fn emit_assigns_consecutive_ids() {
    let mut sim = one_component();
    assert_eq!(sim.emit(0, 0, NOTE, None, 10, 5), 0);
    assert_eq!(sim.emit(0, 0, NOTE, None, 11, 1), 1);
    assert_eq!(sim.emit_signal(0, 0, NOTE, None, 0), 2);
    assert_eq!(sim.event_count(), 3);
    sim.advance();
    assert_eq!(sim.emit(0, 0, NOTE, None, 12, 0), 3);
    assert_eq!(sim.event_count(), 4);
}

#[test]
fn events_are_delivered_in_time_order_with_ids_breaking_ties() {
    let mut sim = one_component();
    sim.emit(0, 0, NOTE, None, 100, 30);
    sim.emit(0, 0, NOTE, None, 101, 10);
    sim.emit(0, 0, NOTE, None, 102, 20);
    sim.emit(0, 0, NOTE, None, 103, 10);
    sim.emit(0, 0, NOTE, None, 104, 0);
    sim.emit(0, 0, NOTE, None, 105, 20);
    let mut seen = Vec::new();
    loop {
        let action = sim.advance();
        if !action.delivers_event() {
            break;
        }
        seen.push(delivered(action));
    }
    assert_eq!(
        seen,
        vec![(4, 0, 104), (1, 10, 101), (3, 10, 103), (2, 20, 102), (5, 20, 105), (0, 30, 100)]
    );
    for pair in seen.windows(2) {
        assert!((pair[0].1, pair[0].0) < (pair[1].1, pair[1].0));
    }
    assert_eq!(sim.time(), 30);
}

#[test]
fn many_events_come_out_sorted() {
    let mut sim = one_component();
    let mut x: u64 = 12345;
    for i in 0..500u32 {
        x = x.wrapping_mul(6364136223846793005).wrapping_add(1442695040888963407);
        sim.emit(0, 0, NOTE, None, i, (x >> 33) % 50);
    }
    let mut last: Option<(Time, u64)> = None;
    let mut count = 0;
    loop {
        let action = sim.advance();
        if !action.delivers_event() {
            break;
        }
        let (id, time, data) = delivered(action);
        assert_eq!(id, data as u64);
        assert_eq!(sim.time(), time);
        if let Some(previous) = last {
            assert!(previous < (time, id));
        }
        last = Some((time, id));
        count += 1;
    }
    assert_eq!(count, 500);
}

#[test]
fn delivery_time_is_emission_time_plus_delay() {
    let mut sim = one_component();
    sim.emit(0, 0, NOTE, None, 1, 7);
    assert_eq!(delivered(sim.advance()), (0, 7, 1));
    assert_eq!(sim.time(), 7);
    // emitted at clock 7 with delay 5
    sim.emit(0, 0, NOTE, None, 2, 5);
    assert_eq!(delivered(sim.advance()), (1, 12, 2));
    assert_eq!(sim.time(), 12);
    // a delay of zero delivers at the current time
    sim.emit(0, 0, NOTE, None, 3, 0);
    assert_eq!(delivered(sim.advance()), (2, 12, 3));
    assert_eq!(sim.time(), 12);
}

#[test]
fn emit_now_comes_after_pending_events_of_the_same_time() {
    let mut sim: Simulation<u32> = Simulation::new(0);
    let a = sim.create_context("a");
    let b = sim.create_context("b");
    sim.add_handler("b");
    a.emit(&mut sim, NOTE, None, 1, b.id(), 0);
    a.emit_now(&mut sim, NOTE, None, 2, b.id());
    match sim.advance() {
        Action::Handle { event, .. } => {
            assert_eq!((event.src, event.dst, event.data), (a.id(), b.id(), Some(1)));
        }
        _ => panic!("the first event is due"),
    }
    assert_eq!(delivered(sim.advance()), (1, 0, 2));
}

#[test]
fn emit_self_now_addresses_the_caller() {
    let mut sim: Simulation<u32> = Simulation::new(0);
    sim.create_context("a");
    let b = sim.create_context("b");
    sim.add_handler("b");
    b.emit_self_now(&mut sim, NOTE, None, 5);
    b.emit_self(&mut sim, NOTE, None, 6, 3);
    match sim.advance() {
        Action::Handle { event, .. } => {
            assert_eq!((event.src, event.dst, event.time), (1, 1, 0));
        }
        _ => panic!("the event is due"),
    }
    match sim.advance() {
        Action::Handle { event, .. } => {
            assert_eq!((event.src, event.dst, event.time), (1, 1, 3));
        }
        _ => panic!("the event is due"),
    }
}

#[test]
fn canceled_event_is_not_delivered() {
    let mut sim = one_component();
    let first = sim.emit(0, 0, NOTE, None, 1, 5);
    sim.emit(0, 0, NOTE, None, 2, 9);
    sim.cancel_event(first);
    assert_eq!(delivered(sim.advance()), (1, 9, 2));
    assert!(matches!(sim.advance(), Action::Idle));
    assert_eq!(sim.time(), 9);
    assert_eq!(sim.event_count(), 2);
}

#[test]
fn cancel_event_twice_equals_once() {
    let mut once = one_component();
    let mut twice = one_component();
    for sim in [&mut once, &mut twice] {
        sim.emit(0, 0, NOTE, None, 1, 5);
        sim.emit(0, 0, NOTE, None, 2, 6);
        sim.emit(0, 0, NOTE, None, 3, 7);
    }
    once.cancel_event(1);
    twice.cancel_event(1);
    twice.cancel_event(1);
    for sim in [&mut once, &mut twice] {
        assert_eq!(delivered(sim.advance()), (0, 5, 1));
        assert_eq!(delivered(sim.advance()), (2, 7, 3));
        assert!(matches!(sim.advance(), Action::Idle));
    }
}

#[test]
fn cancel_of_delivered_or_unknown_event_changes_nothing() {
    let mut sim = one_component();
    let id = sim.emit(0, 0, NOTE, None, 1, 5);
    assert_eq!(delivered(sim.advance()), (0, 5, 1));
    sim.cancel_event(id);
    // an id that was never issued
    sim.cancel_event(1);
    assert_eq!(sim.emit(0, 0, NOTE, None, 2, 1), 1);
    assert_eq!(delivered(sim.advance()), (1, 6, 2));
}

#[test]
fn canceled_event_does_not_advance_the_clock() {
    let mut sim = one_component();
    let id = sim.emit(0, 0, NOTE, None, 1, 50);
    sim.cancel_event(id);
    assert!(matches!(sim.advance(), Action::Idle));
    assert_eq!(sim.time(), 0);
}

#[test]
fn advance_until_leaves_later_events_alone() {
    let mut sim = one_component();
    sim.emit(0, 0, NOTE, None, 1, 5);
    sim.emit(0, 0, NOTE, None, 2, 15);
    assert!(matches!(sim.advance_until(4), Action::Idle));
    assert_eq!(sim.time(), 0);
    assert_eq!(delivered(sim.advance_until(5)), (0, 5, 1));
    assert!(matches!(sim.advance_until(14), Action::Idle));
    assert_eq!(sim.time(), 5);
    assert_eq!(delivered(sim.advance_until(15)), (1, 15, 2));
    assert!(matches!(sim.advance_until(u64::MAX), Action::Idle));
}

#[test]
fn time_after_adds_and_saturates() {
    let mut sim = one_component();
    assert_eq!(sim.time_after(10), 10);
    sim.emit(0, 0, NOTE, None, 1, 100);
    sim.advance();
    assert_eq!(sim.time_after(10), 110);
    assert_eq!(sim.time_after(u64::MAX), u64::MAX);
    assert_eq!(sim.time_after(u64::MAX - 100), u64::MAX);
    assert_eq!(sim.time_after(u64::MAX - 101), u64::MAX - 1);
}

#[test]
fn event_without_handler_or_awaiter_is_unroutable() {
    let mut sim: Simulation<u32> = Simulation::new(0);
    let a = sim.create_context("a");
    a.emit_self_now(&mut sim, NOTE, None, 1);
    // a destination that does not exist
    a.emit_now(&mut sim, NOTE, None, 2, 17);
    assert!(matches!(sim.advance(), Action::Unroutable { event } if event.data == Some(1)));
    assert!(matches!(sim.advance(), Action::Unroutable { event } if event.dst == 17));
}

#[test]
fn awaiter_takes_precedence_over_the_handler() {
    let mut sim = one_component();
    let task = sim.spawn();
    sim.advance();
    let id = sim.recv_event(task, 0, None, NOTE, None);
    sim.emit(0, 0, NOTE, None, 1, 1);
    sim.emit(0, 0, NOTE, None, 2, 2);
    match sim.advance() {
        Action::Wake { task: woken, await_id, event } => {
            assert_eq!((woken, await_id, event.data), (task, id, Some(1)));
        }
        _ => panic!("the await takes the event"),
    }
    assert!(matches!(sim.advance(), Action::Poll { task: t } if t == task));
    // the await is used up: the next event goes to the handler
    assert!(matches!(sim.advance(), Action::Handle { handler: HandlerKind::Callback, .. }));
}

#[test]
fn await_filters_by_source_type_destination_and_key() {
    let mut sim: Simulation<u32> = Simulation::new(0);
    let a = sim.create_context("a");
    let b = sim.create_context("b");
    sim.add_handler("a");
    sim.add_handler("b");
    sim.register_key_getter_for(KEYED, 1);
    let task = sim.spawn();
    sim.advance();
    let from_self = a.recv_event_from_self(&mut sim, task, NOTE);
    b.emit(&mut sim, NOTE, None, 1, a.id(), 1);
    a.emit(&mut sim, NOTE, None, 2, b.id(), 2);
    a.emit_self(&mut sim, KEYED, Some(4), 3, 3);
    a.emit_self(&mut sim, NOTE, None, 4, 4);
    // wrong source, wrong destination, wrong type
    for _ in 0..3 {
        assert!(matches!(sim.advance(), Action::Handle { .. }));
    }
    assert!(matches!(sim.advance(), Action::Wake { await_id, .. } if await_id == from_self));
    sim.advance();

    let by_key = a.recv_event_by_key_from(&mut sim, task, b.id(), KEYED, 7);
    b.emit(&mut sim, KEYED, Some(8), 5, a.id(), 1);
    a.emit_self(&mut sim, KEYED, Some(7), 6, 2);
    b.emit(&mut sim, KEYED, Some(7), 7, a.id(), 3);
    assert!(matches!(sim.advance(), Action::Handle { .. }));
    assert!(matches!(sim.advance(), Action::Handle { .. }));
    match sim.advance() {
        Action::Wake { await_id, event, .. } => {
            assert_eq!((await_id, event.data, event.key), (by_key, Some(7), Some(7)));
        }
        _ => panic!("the keyed await takes the event"),
    }
}

#[test]
fn unkeyed_await_matches_any_key() {
    let mut sim = one_component();
    sim.register_key_getter_for(KEYED, 1);
    let task = sim.spawn();
    sim.advance();
    assert!(sim.can_await(KEYED, &None));
    let id = sim.recv_event(task, 0, None, KEYED, None);
    sim.emit(0, 0, KEYED, Some(31), 1, 0);
    assert!(matches!(sim.advance(), Action::Wake { await_id, .. } if await_id == id));
}

#[test]
fn keyed_and_unkeyed_awaits_do_not_mix() {
    let mut sim = one_component();
    let task = sim.spawn();
    // no key getter yet: only unkeyed awaits
    assert!(sim.can_await(KEYED, &None));
    assert!(!sim.can_await(KEYED, &Some(1)));
    assert!(sim.can_emit(KEYED, &None));
    assert!(!sim.can_emit(KEYED, &Some(1)));
    sim.register_key_getter_for(KEYED, 1);
    assert!(sim.can_emit(KEYED, &Some(1)));
    assert!(!sim.can_emit(KEYED, &None));
    assert!(sim.can_await(KEYED, &Some(1)));
    let keyed = sim.recv_event(task, 0, None, KEYED, Some(1));
    assert!(!sim.can_await(KEYED, &None));
    assert!(sim.can_await(KEYED, &Some(2)));
    assert!(sim.can_await(NOTE, &None));
    sim.cancel_await(keyed);
    assert!(sim.can_await(KEYED, &None));
    sim.recv_event(task, 0, None, KEYED, None);
    assert!(!sim.can_await(KEYED, &Some(1)));
}

#[test]
fn key_getter_registration_is_idempotent() {
    let mut once: Simulation<u32> = Simulation::new(0);
    let mut twice: Simulation<u32> = Simulation::new(0);
    assert_eq!(once.key_getter(KEYED), None);
    once.register_key_getter_for(KEYED, 9);
    twice.register_key_getter_for(KEYED, 9);
    assert!(twice.can_register_key_getter(KEYED, 9));
    twice.register_key_getter_for(KEYED, 9);
    assert_eq!(once.key_getter(KEYED), Some(9));
    assert_eq!(twice.key_getter(KEYED), Some(9));
    assert_eq!(twice.key_getter(NOTE), None);
    // another extractor for the same type conflicts
    assert!(!twice.can_register_key_getter(KEYED, 10));
    assert!(twice.can_register_key_getter(NOTE, 10));
}

#[test]
fn key_getter_cannot_follow_an_unkeyed_await() {
    let mut sim = one_component();
    let task = sim.spawn();
    let id = sim.recv_event(task, 0, None, KEYED, None);
    assert!(!sim.can_register_key_getter(KEYED, 1));
    assert!(sim.can_register_key_getter(NOTE, 1));
    sim.cancel_await(id);
    assert!(sim.can_register_key_getter(KEYED, 1));
}

#[test]
fn sleep_resumes_exactly_after_the_delay() {
    let mut sim = one_component();
    sim.emit(0, 0, NOTE, None, 1, 40);
    sim.advance();
    assert_eq!(sim.time(), 40);
    let task = sim.spawn();
    assert!(matches!(sim.advance(), Action::Poll { .. }));
    let sleep = sim.sleep(task, 0, 25);
    assert_eq!(sim.task_state(task), Some(TaskState::Waiting));
    match sim.advance() {
        Action::Wake { task: woken, await_id, event } => {
            assert_eq!(woken, task);
            assert_eq!(await_id, sleep.await_id);
            assert_eq!(event.id, sleep.event_id);
            assert_eq!(event.time, 65);
            assert_eq!((event.src, event.dst), (0, 0));
            assert!(matches!(event.kind, EventKind::Timer));
            assert!(event.data.is_none());
        }
        _ => panic!("the timer wakes the task"),
    }
    assert_eq!(sim.time(), 65);
    assert_eq!(sim.task_state(task), Some(TaskState::Ready));
    assert!(matches!(sim.advance(), Action::Poll { task: t } if t == task));
}

#[test]
fn sleeps_of_zero_wake_in_the_order_they_began() {
    let mut sim = one_component();
    let t1 = sim.spawn();
    let t2 = sim.spawn();
    sim.advance();
    sim.advance();
    let s2 = sim.sleep(t2, 0, 0);
    let s1 = sim.sleep(t1, 0, 0);
    assert!(matches!(sim.advance(), Action::Wake { task, await_id, .. } if task == t2 && await_id == s2.await_id));
    assert!(matches!(sim.advance(), Action::Poll { task } if task == t2));
    assert!(matches!(sim.advance(), Action::Wake { task, await_id, .. } if task == t1 && await_id == s1.await_id));
    assert_eq!(sim.time(), 0);
}

#[test]
fn timer_without_awaiter_is_not_given_to_the_handler() {
    let mut sim = one_component();
    let task = sim.spawn();
    sim.advance();
    let sleep = sim.sleep(task, 0, 3);
    sim.cancel_await(sleep.await_id);
    assert!(matches!(sim.advance(), Action::Unroutable { event } if event.id == sleep.event_id));
}

#[test]
fn ready_tasks_are_polled_in_the_order_they_became_ready() {
    let mut sim = one_component();
    let t0 = sim.spawn();
    let t1 = sim.spawn();
    let t2 = sim.spawn();
    assert_eq!((t0, t1, t2), (0, 1, 2));
    assert!(sim.has_ready_task());
    sim.emit(0, 0, NOTE, None, 1, 0);
    // tasks are drained before the next event is popped
    assert!(matches!(sim.advance(), Action::Poll { task: 0 }));
    let t3 = sim.spawn();
    assert!(matches!(sim.advance(), Action::Poll { task: 1 }));
    assert!(matches!(sim.advance(), Action::Poll { task: 2 }));
    assert!(matches!(sim.advance(), Action::Poll { task } if task == t3));
    assert!(!sim.has_ready_task());
    assert!(matches!(sim.advance(), Action::Handle { .. }));
}

#[test]
fn task_states_follow_spawn_poll_wake_and_finish() {
    let mut sim = one_component();
    assert_eq!(sim.task_state(0), None);
    let task = sim.spawn();
    assert_eq!(sim.task_state(task), Some(TaskState::Ready));
    // a ready task is not dropped
    assert!(!sim.finish(task));
    assert_eq!(sim.task_state(task), Some(TaskState::Ready));
    sim.advance();
    assert_eq!(sim.task_state(task), Some(TaskState::Waiting));
    assert!(sim.finish(task));
    assert_eq!(sim.task_state(task), Some(TaskState::Done));
    assert!(!sim.finish(task));
    assert_eq!(sim.task_state(1), None);
    assert!(!sim.finish(1));
}

#[test]
fn directory_maps_names_and_ids() {
    let mut sim: Simulation<u32> = Simulation::new(0);
    assert_eq!(sim.lookup_id("a"), None);
    let a = sim.create_context("a");
    let b = sim.create_context("b");
    assert_eq!((a.id(), a.name()), (0, "a"));
    assert_eq!((b.id(), b.name()), (1, "b"));
    assert_eq!(sim.component_count(), 2);
    assert_eq!(sim.lookup_id("a"), Some(0));
    assert_eq!(sim.lookup_id("b"), Some(1));
    assert_eq!(sim.lookup_id("c"), None);
    assert_eq!(sim.lookup_name(1), Some("b".to_string()));
    assert_eq!(sim.lookup_name(2), None);
    assert_eq!(sim.handler(0), None);
    assert_eq!(sim.add_static_handler("b"), 1);
    assert_eq!(sim.add_handler("a"), 0);
    assert_eq!(sim.handler(0), Some(HandlerKind::Callback));
    assert_eq!(sim.handler(1), Some(HandlerKind::Static));
    assert_eq!(sim.handler(2), None);
}

fn pending_for_policy(policy: EventCancellationPolicy) -> Vec<u32> {
    let mut sim: Simulation<u32> = Simulation::new(0);
    let a = sim.create_context("a");
    let b = sim.create_context("b");
    sim.add_handler("a");
    sim.add_handler("b");
    a.emit(&mut sim, NOTE, None, 0, b.id(), 1); // a -> b
    b.emit(&mut sim, NOTE, None, 1, a.id(), 2); // b -> a
    a.emit_self(&mut sim, NOTE, None, 2, 3); // a -> a
    b.emit_self(&mut sim, NOTE, None, 3, 4); // b -> b
    sim.remove_handler(a.id(), policy);
    assert_eq!(sim.handler(a.id()), None);
    assert_eq!(sim.handler(b.id()), Some(HandlerKind::Callback));
    let mut seen = Vec::new();
    loop {
        match sim.advance() {
            Action::Handle { event, .. } => seen.push(event.data.unwrap()),
            Action::Unroutable { event } => seen.push(event.data.unwrap()),
            Action::Idle => break,
            _ => panic!("no task takes part"),
        }
    }
    seen
}

#[test]
fn remove_handler_applies_the_cancellation_policy() {
    assert_eq!(pending_for_policy(EventCancellationPolicy::Nothing), vec![0, 1, 2, 3]);
    assert_eq!(pending_for_policy(EventCancellationPolicy::Incoming), vec![0, 3]);
    assert_eq!(pending_for_policy(EventCancellationPolicy::Outgoing), vec![1, 3]);
    assert_eq!(pending_for_policy(EventCancellationPolicy::Both), vec![3]);
}

#[test]
fn handler_can_be_bound_again_after_removal() {
    let mut sim = one_component();
    sim.remove_handler(0, EventCancellationPolicy::Nothing);
    assert_eq!(sim.handler(0), None);
    // an unknown id changes nothing
    sim.remove_handler(9, EventCancellationPolicy::Both);
    assert_eq!(sim.add_static_handler("a"), 0);
    assert_eq!(sim.handler(0), Some(HandlerKind::Static));
}

fn replay(seed: u64) -> Vec<(Time, u64, u32, Option<u64>)> {
    let mut sim: Simulation<u32> = Simulation::new(seed);
    sim.register_key_getter_for(KEYED, 1);
    let a = sim.create_context("a");
    let b = sim.create_context("b");
    sim.add_handler("a");
    sim.add_handler("b");
    let mut x = sim.seed();
    let mut trace = Vec::new();
    for round in 0..50u32 {
        x = x.wrapping_mul(6364136223846793005).wrapping_add(1442695040888963407);
        let delay = (x >> 40) % 20;
        if round % 3 == 0 {
            a.emit(&mut sim, KEYED, Some(x % 5), round, b.id(), delay);
        } else {
            b.emit(&mut sim, NOTE, None, round, a.id(), delay);
        }
        if round % 7 == 0 {
            sim.cancel_event((x >> 20) % (round as u64 + 1));
        }
        if round % 2 == 0 {
            match sim.advance() {
                Action::Handle { event, .. } => {
                    trace.push((event.time, event.id, event.dst, event.key))
                }
                Action::Idle => {}
                _ => panic!("only callbacks take part"),
            }
        }
    }
    loop {
        match sim.advance() {
            Action::Handle { event, .. } => trace.push((event.time, event.id, event.dst, event.key)),
            Action::Idle => break,
            _ => panic!("only callbacks take part"),
        }
    }
    trace
}

#[test]
fn same_configuration_yields_the_same_trace() {
    let first = replay(123);
    let second = replay(123);
    assert!(first.len() > 30);
    assert_eq!(first, second);
    for pair in first.windows(2) {
        assert!((pair[0].0, pair[0].1) < (pair[1].0, pair[1].1));
    }
}
