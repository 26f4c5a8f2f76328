use async_winit::handler::Delivery;
use async_winit::reactor::{ExitState, Reactor, ReactorEvent, LOOP_QUEUE_CAPACITY, TIMER_QUEUE_CAPACITY};
use async_winit::registration::WindowEventKind;

fn reactor() -> Reactor<u32> {
    Reactor::new()
}

#[test]
fn exit_code_is_last_writer_wins() {
    let mut r = reactor();
    assert_eq!(r.exit_requested(), None);
    r.request_exit(42);
    assert_eq!(r.exit_requested(), Some(42));
    r.request_exit(-3);
    assert_eq!(r.exit_requested(), Some(-3));
    let _ = ExitState::Running;
}

#[test]
fn notify_wakes_only_once_a_proxy_is_set() {
    let mut r = reactor();
    r.request_exit(1);
    assert!(!r.take_wake());
    r.set_proxy();
    r.notify();
    assert!(r.take_wake());
    assert!(!r.take_wake());
    r.insert_timer(10, 1);
    assert!(r.take_wake());
    r.remove_timer(10, 1);
    assert!(!r.take_wake());
}

#[test]
fn timers_fire_in_deadline_then_insertion_order() {
    let mut r = reactor();
    let a = r.insert_timer(30, 100);
    let b = r.insert_timer(10, 101);
    let c = r.insert_timer(30, 102);
    let d = r.insert_timer(10, 103);
    assert_eq!((a, b, c, d), (1, 2, 3, 4));
    let mut wakers = vec![7];
    assert_eq!(r.process_timers(30, &mut wakers), Some(30));
    assert_eq!(wakers, vec![7, 101, 103, 100, 102]);
}

#[test]
fn process_timers_reports_next_deadline() {
    let mut r = reactor();
    let mut wakers = Vec::new();
    assert_eq!(r.process_timers(5, &mut wakers), None);
    r.insert_timer(50, 1);
    r.insert_timer(20, 2);
    assert_eq!(r.process_timers(5, &mut wakers), Some(20));
    assert!(wakers.is_empty());
    assert_eq!(r.process_timers(20, &mut wakers), Some(20));
    assert_eq!(wakers, vec![2]);
    assert_eq!(r.process_timers(21, &mut wakers), Some(50));
    assert_eq!(r.process_timers(60, &mut wakers), Some(60));
    assert_eq!(wakers, vec![2, 1]);
    assert_eq!(r.process_timers(70, &mut wakers), None);
}

#[test]
fn removed_timer_never_fires() {
    let mut r = reactor();
    let id = r.insert_timer(10, 5);
    let other = r.insert_timer(10, 6);
    r.remove_timer(10, id);
    let mut wakers = Vec::new();
    r.process_timers(100, &mut wakers);
    assert_eq!(wakers, vec![6]);
    r.insert_timer(200, 7);
    r.process_timers(300, &mut wakers);
    assert_eq!(wakers, vec![6, 7]);
    assert!(other > id);
}

#[test]
fn bursts_beyond_staging_capacity_lose_nothing() {
    let mut r = reactor();
    let n = TIMER_QUEUE_CAPACITY as u64 * 2 + 5;
    let mut first_id = 0;
    for i in 0..n {
        let id = r.insert_timer(1000 - (i % 7), i);
        if i == 0 {
            first_id = id;
        }
    }
    let first = r.insert_timer(1, 9000);
    let second = r.insert_timer(2, 9001);
    r.remove_timer(1000, first_id);
    let mut wakers = Vec::new();
    r.process_timers(1000, &mut wakers);
    assert_eq!(wakers.len() as u64, n + 2 - 1);
    assert_eq!(&wakers[..2], &[9000, 9001]);
    assert!(!wakers.contains(&0));
    assert_eq!(second, first + 1);
}

#[test]
fn events_for_removed_window_are_dropped() {
    let mut r = reactor();
    r.insert_window(7);
    let l = r.subscribe_window(7, WindowEventKind::Focused, true).unwrap();
    let ev = ReactorEvent::Window { window_id: 7, kind: WindowEventKind::Focused };
    assert_eq!(r.post_event(ev), vec![Delivery { listener: l, unique: true }]);
    r.remove_window(7);
    assert_eq!(r.post_event(ev), vec![]);
    assert_eq!(r.subscribe_window(7, WindowEventKind::Focused, true), None);
}

#[test]
fn reinserted_window_starts_without_listeners() {
    let mut r = reactor();
    r.insert_window(3);
    r.subscribe_window(3, WindowEventKind::Moved, true);
    r.insert_window(3);
    let ev = ReactorEvent::Window { window_id: 3, kind: WindowEventKind::Moved };
    assert_eq!(r.post_event(ev), vec![]);
}

#[test]
fn lifecycle_events_use_the_loop_wide_broadcasters() {
    let mut r = reactor();
    let res = r.subscribe_lifecycle(false, false).unwrap();
    let sus = r.subscribe_lifecycle(true, true).unwrap();
    assert_eq!(r.post_event(ReactorEvent::Other), vec![]);
    assert_eq!(r.post_event(ReactorEvent::Resumed), vec![Delivery { listener: res, unique: true }]);
    assert_eq!(r.post_event(ReactorEvent::Resumed), vec![]);
    assert_eq!(r.post_event(ReactorEvent::Suspended), vec![Delivery { listener: sus, unique: true }]);
    assert_eq!(r.post_event(ReactorEvent::Suspended), vec![Delivery { listener: sus, unique: true }]);
}

#[test]
fn loop_queue_applies_backpressure_and_drains_in_order() {
    let mut r = reactor();
    r.set_proxy();
    for i in 0..LOOP_QUEUE_CAPACITY as u32 {
        assert_eq!(r.push_event_loop_op(i), Ok(()));
    }
    assert!(r.take_wake());
    assert_eq!(r.push_event_loop_op(5000), Err(5000));
    assert!(!r.take_wake());
    assert_eq!(r.evl_ops_len(), LOOP_QUEUE_CAPACITY);
    let ops = r.drain_loop_queue();
    assert_eq!(ops.len(), LOOP_QUEUE_CAPACITY);
    assert_eq!(ops[0], 0);
    assert_eq!(ops[LOOP_QUEUE_CAPACITY - 1], LOOP_QUEUE_CAPACITY as u32 - 1);
    assert_eq!(r.evl_ops_len(), 0);
    assert_eq!(r.push_event_loop_op(5000), Ok(()));
    assert_eq!(r.drain_loop_queue(), vec![5000]);
}

#[test]
fn unsubscribed_window_listener_gets_nothing() {
    let mut r = reactor();
    r.insert_window(9);
    let a = r.subscribe_window(9, WindowEventKind::Touch, true).unwrap();
    let b = r.subscribe_window(9, WindowEventKind::Touch, true).unwrap();
    r.unsubscribe_window(9, WindowEventKind::Touch, a);
    r.unsubscribe_window(4, WindowEventKind::Touch, a);
    let ev = ReactorEvent::Window { window_id: 9, kind: WindowEventKind::Touch };
    assert_eq!(r.post_event(ev), vec![Delivery { listener: b, unique: true }]);
}

#[test]
fn unsubscribed_lifecycle_listener_gets_nothing() {
    let mut r = reactor();
    let a = r.subscribe_lifecycle(true, true).unwrap();
    let b = r.subscribe_lifecycle(true, true).unwrap();
    r.unsubscribe_lifecycle(true, a);
    assert_eq!(r.post_event(ReactorEvent::Suspended), vec![Delivery { listener: b, unique: true }]);
    assert_eq!(r.post_event(ReactorEvent::Resumed), vec![]);
}

#[test]
fn fresh_reactor_can_take_timers() {
    let mut r = reactor();
    assert!(r.can_insert_timer());
    assert_eq!(r.insert_timer(5, 5), 1);
    assert!(r.can_insert_timer());
}
