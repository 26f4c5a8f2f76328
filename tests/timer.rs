use async_winit::reactor::Reactor;
use async_winit::timer::{Timer, TimerPoll};

#[test]
fn interval_fires_at_each_period() {
    let mut r: Reactor<()> = Reactor::new();
    let mut t = Timer::interval_at(100, 10);
    assert_eq!(t.poll_next(&mut r, 50, 1), TimerPoll::Pending);
    assert_eq!(t.poll_next(&mut r, 101, 1), TimerPoll::Ready(100));
    assert_eq!(t.poll_next(&mut r, 111, 1), TimerPoll::Ready(110));
    assert_eq!(t.poll_next(&mut r, 200, 1), TimerPoll::Ready(120));
    assert_eq!(t.poll_next(&mut r, 200, 1), TimerPoll::Ready(130));
}

#[test]
fn interval_stops_when_the_next_instant_overflows() {
    let mut r: Reactor<()> = Reactor::new();
    let start = u64::MAX - 15;
    let mut t = Timer::interval_at(start, 10);
    assert_eq!(t.poll_next(&mut r, u64::MAX, 1), TimerPoll::Ready(start));
    assert_eq!(t.poll_next(&mut r, u64::MAX, 1), TimerPoll::Ready(start + 10));
    assert_eq!(t.poll_next(&mut r, u64::MAX, 1), TimerPoll::Pending);
    let mut wakers = Vec::new();
    assert_eq!(r.process_timers(u64::MAX, &mut wakers), None);
    assert!(wakers.is_empty());
}

#[test]
fn repoll_with_new_waker_keeps_one_entry() {
    let mut r: Reactor<()> = Reactor::new();
    let mut t = Timer::at(100);
    assert_eq!(t.poll_next(&mut r, 10, 1), TimerPoll::Pending);
    assert_eq!(t.poll_next(&mut r, 20, 2), TimerPoll::Pending);
    assert_eq!(t.poll_next(&mut r, 30, 2), TimerPoll::Pending);
    let mut wakers = Vec::new();
    assert_eq!(r.process_timers(100, &mut wakers), Some(100));
    assert_eq!(wakers, vec![2]);
}

#[test]
fn one_shot_fires_once_then_stays_pending() {
    let mut r: Reactor<()> = Reactor::new();
    let mut t = Timer::after(5, 10);
    assert_eq!(t.poll_next(&mut r, 10, 4), TimerPoll::Pending);
    assert_eq!(t.poll_next(&mut r, 16, 4), TimerPoll::Ready(15));
    assert_eq!(t.poll_next(&mut r, 100, 4), TimerPoll::Pending);
    let mut wakers = Vec::new();
    assert_eq!(r.process_timers(100, &mut wakers), None);
}

#[test]
fn never_and_overflowing_timers_touch_nothing() {
    let mut r: Reactor<()> = Reactor::new();
    let mut n = Timer::never();
    let mut a = Timer::after(u64::MAX, 1);
    let mut i = Timer::interval(u64::MAX - 1, 2);
    assert_eq!(n.poll_next(&mut r, 0, 1), TimerPoll::Pending);
    assert_eq!(a.poll_next(&mut r, u64::MAX, 1), TimerPoll::Pending);
    assert_eq!(i.poll_next(&mut r, u64::MAX, 1), TimerPoll::Pending);
    let mut wakers = Vec::new();
    assert_eq!(r.process_timers(u64::MAX, &mut wakers), None);
}

#[test]
fn interval_starts_one_period_after_now() {
    let mut r: Reactor<()> = Reactor::new();
    let mut t = Timer::interval(1000, 250);
    assert_eq!(t.poll_next(&mut r, 1100, 3), TimerPoll::Pending);
    let mut wakers = Vec::new();
    assert_eq!(r.process_timers(1100, &mut wakers), Some(1250));
    assert_eq!(t.poll_next(&mut r, 1251, 3), TimerPoll::Ready(1250));
}

#[test]
fn cleared_timer_never_fires() {
    let mut r: Reactor<()> = Reactor::new();
    let mut t = Timer::at(50);
    let mut u = Timer::at(50);
    assert_eq!(t.poll_next(&mut r, 0, 1), TimerPoll::Pending);
    assert_eq!(u.poll_next(&mut r, 0, 2), TimerPoll::Pending);
    t.clear(&mut r);
    let mut wakers = Vec::new();
    r.process_timers(60, &mut wakers);
    assert_eq!(wakers, vec![2]);
    assert_eq!(t.poll_next(&mut r, 70, 1), TimerPoll::Pending);
}
