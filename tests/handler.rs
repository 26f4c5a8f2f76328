use async_winit::handler::{Delivery, Handler};
use async_winit::oneoff::Complete;
use async_winit::registration::{Registration, WindowEventKind};

#[test]
fn broadcast_with_no_listeners_delivers_nothing() {
    let mut h = Handler::new();
    let r = h.run_with();
    assert!(r.is_empty());
    assert_eq!(h.len(), 0);
}

#[test]
fn broadcast_reaches_both_listeners_once_and_not_a_late_one() {
    let mut h = Handler::new();
    let a = h.subscribe(true);
    let b = h.subscribe(true);
    let r = h.run_with();
    assert_eq!(
        r,
        vec![
            Delivery { listener: a, unique: true },
            Delivery { listener: b, unique: false },
        ]
    );
    let late = h.subscribe(true);
    assert!(r.iter().all(|d| d.listener != late));
    let r2 = h.run_with();
    assert_eq!(r2.len(), 3);
    assert_eq!(r2[2], Delivery { listener: late, unique: false });
}

#[test]
fn wait_once_listener_is_removed_after_one_broadcast() {
    let mut h = Handler::new();
    let once = h.subscribe(false);
    let rep = h.subscribe(true);
    assert_eq!(h.run_with().len(), 2);
    assert_eq!(h.len(), 1);
    let r = h.run_with();
    assert_eq!(r, vec![Delivery { listener: rep, unique: true }]);
    assert!(r.iter().all(|d| d.listener != once));
}

#[test]
fn unsubscribed_listener_gets_nothing() {
    let mut h = Handler::new();
    let a = h.subscribe(true);
    let b = h.subscribe(true);
    h.unsubscribe(a);
    assert_eq!(h.run_with(), vec![Delivery { listener: b, unique: true }]);
    h.unsubscribe(99);
    assert_eq!(h.len(), 1);
}

#[test]
fn registration_routes_only_to_its_kind() {
    let mut reg = Registration::new();
    let r = reg.subscribe(WindowEventKind::Resized, true);
    let c = reg.subscribe(WindowEventKind::CloseRequested, false);
    assert_eq!(reg.signal(WindowEventKind::Moved), vec![]);
    assert_eq!(
        reg.signal(WindowEventKind::Resized),
        vec![Delivery { listener: r, unique: true }]
    );
    assert_eq!(
        reg.signal(WindowEventKind::CloseRequested),
        vec![Delivery { listener: c, unique: true }]
    );
    assert_eq!(reg.signal(WindowEventKind::CloseRequested), vec![]);
    reg.unsubscribe(WindowEventKind::Resized, r);
    assert_eq!(reg.signal(WindowEventKind::Resized), vec![]);
}

#[test]
fn kind_indices_are_distinct() {
    let kinds = [
        WindowEventKind::RedrawRequested,
        WindowEventKind::Occluded,
        WindowEventKind::ScaleFactorChanged,
        WindowEventKind::Touch,
    ];
    let idx: Vec<usize> = kinds.iter().map(|k| k.index()).collect();
    assert_eq!(idx, vec![0, 23, 21, 20]);
}

#[test]
fn completion_delivers_exactly_once() {
    let mut c: Complete<u8> = Complete::new();
    assert!(!c.is_sent());
    assert_eq!(c.take(), None);
    assert_eq!(c.send(4), Ok(()));
    assert_eq!(c.send(5), Err(5));
    assert!(c.is_sent());
    assert_eq!(c.take(), Some(4));
    assert_eq!(c.take(), None);
}

#[test]
fn fresh_broadcasters_can_take_listeners() {
    let h = Handler::new();
    assert!(h.can_subscribe());
    let reg = Registration::new();
    assert!(reg.can_subscribe(WindowEventKind::Ime));
}
