//! Timers: a future and a lazy sequence of firing instants over the
//! reactor's timer wheel. Instants and periods are in nanoseconds on the
//! driving loop's monotonic clock; a waker is named by a token.
use vstd::prelude::*;
use crate::reactor::Reactor;

verus! {

/// The deadline after `deadline` for a timer with `period` (`None` for a
/// one-shot timer): none if the timer is one-shot or the addition overflows.
pub open spec fn next_deadline(deadline: u64, period: Option<u64>) -> Option<u64> {
    match period {
        Some(p) => if deadline + p <= u64::MAX {
            Some((deadline + p) as u64)
        } else {
            None
        },
        None => None,
    }
}

/// The `k`-th deadline of a timer started at `start` with period `period`:
/// each firing moves it on by one period, and it stays none once none.
pub open spec fn nth_deadline(start: u64, period: u64, k: nat) -> Option<u64>
    decreases k,
{
    if k == 0 {
        Some(start)
    } else {
        match nth_deadline(start, period, (k - 1) as nat) {
            Some(d) => next_deadline(d, Some(period)),
            None => None,
        }
    }
}

/// A periodic timer fires at `start`, `start + period`,
/// `start + 2 * period`, ... for as long as the instant is in range, and
/// then has no deadline: it stops without failing.
pub proof fn lemma_interval_instants(start: u64, period: u64, k: nat)
    ensures
        nth_deadline(start, period, k) == (if start + k * period <= u64::MAX {
            Some((start + k * period) as u64)
        } else {
            None::<u64>
        }),
    decreases k,
{
    if k == 0 {
        assert(k * period == 0) by (nonlinear_arith)
            requires
                k == 0,
        ;
    } else {
        let j = (k - 1) as nat;
        lemma_interval_instants(start, period, j);
        assert(j * period + period == k * period) by (nonlinear_arith)
            requires
                j + 1 == k,
        ;
        assert(j * period >= 0) by (nonlinear_arith);
    }
}

/// Re-registering a pending timer under a new waker replaces its entry:
/// its earlier id is below the fresh one, and the wheel then holds the new entry and not the old one,
/// one entry for the timer at its deadline, never two.
pub proof fn lemma_reregistration_single_entry(
    m: Map<(u64, u64), u64>,
    deadline: u64,
    old_id: u64,
    new_id: u64,
    waker: u64,
)
    requires
        crate::reactor::ids_below(m, new_id),
        old_id < new_id,
    ensures
        ({
            let m2 = m.remove((deadline, old_id)).insert((deadline, new_id), waker);
            &&& !m.contains_key((deadline, new_id))
            &&& m2.contains_key((deadline, new_id)) && m2[(deadline, new_id)] == waker
            &&& !m2.contains_key((deadline, old_id))
            &&& m2.dom() == m.dom().remove((deadline, old_id)).insert((deadline, new_id))
        }),
{
    let m2 = m.remove((deadline, old_id)).insert((deadline, new_id), waker);
    assert(m2.dom() =~= m.dom().remove((deadline, old_id)).insert((deadline, new_id)));
}

/// The outcome of polling a timer.
#[derive(PartialEq, Eq, Structural, Debug, Clone, Copy)]
pub enum TimerPoll {
    /// The timer fired at this instant.
    Ready(u64),
    /// Not yet; the current waker is registered to be woken.
    Pending,
}

/// A timer that fires once, periodically, or never.
pub struct Timer {
    id_and_waker: Option<(u64, u64)>,
    deadline: Option<u64>,
    period: Option<u64>,
}

impl Timer {
    /// When the timer fires next; `None` once it never will.
    pub closed spec fn deadline(&self) -> Option<u64> {
        self.deadline
    }

    /// The period of a periodic timer; `None` for a one-shot timer.
    pub closed spec fn period(&self) -> Option<u64> {
        self.period
    }

    /// The wheel id and waker it was last registered under, if any.
    pub closed spec fn registration(&self) -> Option<(u64, u64)> {
        self.id_and_waker
    }

    /// A timer that never fires and never touches the wheel.
    pub fn never() -> (t: Timer)
        ensures
            t.deadline() is None,
            t.period() is None,
            t.registration() is None,
    {
        Timer { id_and_waker: None, deadline: None, period: None }
    }

    /// A timer that fires once, `duration` after `now`; one that never
    /// fires if that instant is out of range.
    pub fn after(now: u64, duration: u64) -> (t: Timer)
        ensures
            t.deadline() == (if now + duration <= u64::MAX {
                Some((now + duration) as u64)
            } else {
                None::<u64>
            }),
            t.period() is None,
            t.registration() is None,
    {
        match now.checked_add(duration) {
            Some(deadline) => Timer::at(deadline),
            None => Timer::never(),
        }
    }

    /// A timer that fires once, at `deadline`.
    pub fn at(deadline: u64) -> (t: Timer)
        ensures
            t.deadline() == Some(deadline),
            t.period() is None,
            t.registration() is None,
    {
        Timer { id_and_waker: None, deadline: Some(deadline), period: None }
    }

    /// A timer that fires every `period`, first one `period` after `now`;
    /// one that never fires if that instant is out of range.
    pub fn interval(now: u64, period: u64) -> (t: Timer)
        ensures
            now + period <= u64::MAX ==> t.deadline() == Some((now + period) as u64) && t.period()
                == Some(period),
            now + period > u64::MAX ==> t.deadline() is None && t.period() is None,
            t.registration() is None,
    {
        match now.checked_add(period) {
            Some(deadline) => Timer::interval_at(deadline, period),
            None => Timer::never(),
        }
    }

    /// A timer that fires at `start` and then every `period`.
    pub fn interval_at(start: u64, period: u64) -> (t: Timer)
        ensures
            t.deadline() == Some(start),
            t.period() == Some(period),
            t.registration() is None,
    {
        Timer { id_and_waker: None, deadline: Some(start), period: Some(period) }
    }

    /// Makes the timer inert and unschedules its pending wake-up, so the
    /// wheel holds no waker for a timer that will not be polled again. This
    /// is what dropping a timer does.
    pub fn clear<Op>(&mut self, reactor: &mut Reactor<Op>)
        requires
            old(reactor).wf(),
        ensures
            final(reactor).wf(),
            final(self).deadline() is None,
            final(self).registration() is None,
            final(self).period() == old(self).period(),
            final(reactor).timers() == match (old(self).deadline(), old(self).registration()) {
                (Some(d), Some((id, _))) => old(reactor).timers().remove((d, id)),
                _ => old(reactor).timers(),
            },
            final(reactor).next_timer_id() == old(reactor).next_timer_id(),
            final(reactor).wake_pending() == old(reactor).wake_pending(),
            final(reactor).same_loop_state(old(reactor)),
            final(reactor).windows() == old(reactor).windows(),
            final(reactor).globals() == old(reactor).globals(),
    {
        let deadline = self.deadline.take();
        let registration = self.id_and_waker.take();
        if let (Some(deadline), Some((id, _))) = (deadline, registration) {
            reactor.remove_timer(deadline, id);
        }
    }

    /// Polls the timer at instant `now` on behalf of `waker`.
    ///
    /// Past its deadline it fires: the stale wheel entry is removed, the
    /// deadline is returned, and a periodic timer moves on by one period and
    /// registers `waker` for the new deadline (a one-shot timer, or one whose
    /// next deadline overflows, becomes inert). Before its deadline it makes
    /// sure exactly one wheel entry, for `waker`, stands for it.
    pub fn poll_next<Op>(&mut self, reactor: &mut Reactor<Op>, now: u64, waker: u64) -> (r: TimerPoll)
        requires
            old(reactor).wf(),
            old(reactor).next_timer_id() < u64::MAX,
        ensures
            final(reactor).wf(),
            final(self).period() == old(self).period(),
            final(reactor).same_loop_state(old(reactor)),
            final(reactor).windows() == old(reactor).windows(),
            final(reactor).globals() == old(reactor).globals(),
            ({
                let (t0, t1) = (old(reactor).timers(), final(reactor).timers());
                let nid = old(reactor).next_timer_id();
                match old(self).deadline() {
                    None => {
                        &&& r == TimerPoll::Pending
                        &&& final(self).deadline() == old(self).deadline()
                        &&& final(self).registration() == old(self).registration()
                        &&& final(reactor).same_timers(old(reactor))
                    },
                    Some(d) => if d < now {
                        let t2 = match old(self).registration() {
                            Some((id, _)) => t0.remove((d, id)),
                            None => t0,
                        };
                        &&& r == TimerPoll::Ready(d)
                        &&& final(self).deadline() == next_deadline(d, old(self).period())
                        &&& match next_deadline(d, old(self).period()) {
                            Some(n) => {
                                &&& final(self).registration() == Some((nid, waker))
                                &&& t1 == t2.insert((n, nid), waker)
                                &&& final(reactor).next_timer_id() == nid + 1
                            },
                            None => {
                                &&& final(self).registration() is None
                                &&& t1 == t2
                                &&& final(reactor).next_timer_id() == nid
                            },
                        }
                    } else {
                        &&& r == TimerPoll::Pending
                        &&& final(self).deadline() == old(self).deadline()
                        &&& match old(self).registration() {
                            Some((id, w)) => if w == waker {
                                &&& final(self).registration() == old(self).registration()
                                &&& final(reactor).same_timers(old(reactor))
                            } else {
                                &&& final(self).registration() == Some((nid, waker))
                                &&& t1 == t0.remove((d, id)).insert((d, nid), waker)
                                &&& final(reactor).next_timer_id() == nid + 1
                            },
                            None => {
                                &&& final(self).registration() == Some((nid, waker))
                                &&& t1 == t0.insert((d, nid), waker)
                                &&& final(reactor).next_timer_id() == nid + 1
                            },
                        }
                    },
                }
            }),
    {
        match self.deadline {
            None => TimerPoll::Pending,
            Some(deadline) => {
                if deadline < now {
                    if let Some((id, _)) = self.id_and_waker.take() {
                        reactor.remove_timer(deadline, id);
                    }
                    let next = match self.period {
                        Some(period) => deadline.checked_add(period),
                        None => None,
                    };
                    match next {
                        Some(next) => {
                            self.deadline = Some(next);
                            let id = reactor.insert_timer(next, waker);
                            self.id_and_waker = Some((id, waker));
                        },
                        None => {
                            self.deadline = None;
                        },
                    }
                    TimerPoll::Ready(deadline)
                } else {
                    match self.id_and_waker {
                        None => {
                            let id = reactor.insert_timer(deadline, waker);
                            self.id_and_waker = Some((id, waker));
                        },
                        Some((id, w)) => {
                            if w != waker {
                                reactor.remove_timer(deadline, id);
                                let id = reactor.insert_timer(deadline, waker);
                                self.id_and_waker = Some((id, waker));
                            }
                        },
                    }
                    TimerPoll::Pending
                }
            },
        }
    }
}

} // verus!
