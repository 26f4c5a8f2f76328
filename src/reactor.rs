//! The reactor: the coordination point between tasks and the driving loop.
//! It owns the timer wheel and its staging queue, the window registry, the
//! broadcasters of loop-wide events, the queue of operations for the
//! driving loop, and the exit state.
use vstd::prelude::*;
use std::collections::HashMap;
use crate::handler::{deliveries, is_not, is_repeating, Delivery, Handler, Listener};
use crate::registration::{after_signal, Registration, WindowEventKind};
use crate::wheel::{due_listing, next_wake, not_due, wakers_of, TimerKey, Wheel};

verus! {

broadcast use vstd::std_specs::hash::group_hash_axioms;

/// How many timer operations can be staged before they must be applied.
pub const TIMER_QUEUE_CAPACITY: usize = 1024;

/// How many operations can wait for the driving loop.
pub const LOOP_QUEUE_CAPACITY: usize = 1024;

/// A staged change to the timer wheel.
#[derive(PartialEq, Eq, Structural, Debug, Clone, Copy)]
pub enum TimerOp {
    /// Schedule a waker under (deadline, id).
    InsertTimer(u64, u64, u64),
    /// Unschedule (deadline, id).
    RemoveTimer(u64, u64),
}

/// The timers `m` once `op` is applied.
pub open spec fn apply_op(m: Map<TimerKey, u64>, op: TimerOp) -> Map<TimerKey, u64> {
    match op {
        TimerOp::InsertTimer(deadline, id, waker) => m.insert((deadline, id), waker),
        TimerOp::RemoveTimer(deadline, id) => m.remove((deadline, id)),
    }
}

/// The timers `m` once `ops` are applied, first to last.
pub open spec fn apply_ops(m: Map<TimerKey, u64>, ops: Seq<TimerOp>) -> Map<TimerKey, u64>
    decreases ops.len(),
{
    if ops.len() == 0 {
        m
    } else {
        apply_op(apply_ops(m, ops.drop_last()), ops.last())
    }
}

/// Applying staged operations in two batches gives what applying them all
/// at once gives: draining a full staging queue part-way and staging the
/// rest afterwards loses no operation and reorders none.
pub proof fn lemma_staged_batches(m: Map<TimerKey, u64>, first: Seq<TimerOp>, rest: Seq<TimerOp>)
    ensures
        apply_ops(m, first + rest) == apply_ops(apply_ops(m, first), rest),
    decreases rest.len(),
{
    if rest.len() == 0 {
        assert(first + rest =~= first);
    } else {
        lemma_staged_batches(m, first, rest.drop_last());
        assert((first + rest).drop_last() =~= first + rest.drop_last());
    }
}

/// A timer that is not scheduled stays unscheduled through staged
/// operations that never insert its id, so no later firing lists it: a
/// timer removed before it fired never fires.
pub proof fn lemma_unscheduled_timer_never_fires(
    m: Map<TimerKey, u64>,
    ops: Seq<TimerOp>,
    k: TimerKey,
    now: u64,
    keys: Seq<TimerKey>,
)
    requires
        !m.contains_key(k),
        forall|i: int|
            0 <= i < ops.len() ==> match #[trigger] ops[i] {
                TimerOp::InsertTimer(_, id, _) => id != k.1,
                TimerOp::RemoveTimer(_, _) => true,
            },
        due_listing(apply_ops(m, ops), now, keys),
    ensures
        !apply_ops(m, ops).contains_key(k),
        !keys.contains(k),
{
    lemma_unscheduled_stays(m, ops, k);
}

proof fn lemma_unscheduled_stays(m: Map<TimerKey, u64>, ops: Seq<TimerOp>, k: TimerKey)
    requires
        !m.contains_key(k),
        forall|i: int|
            0 <= i < ops.len() ==> match #[trigger] ops[i] {
                TimerOp::InsertTimer(_, id, _) => id != k.1,
                TimerOp::RemoveTimer(_, _) => true,
            },
    ensures
        !apply_ops(m, ops).contains_key(k),
    decreases ops.len(),
{
    if ops.len() > 0 {
        let prefix = ops.drop_last();
        assert forall|i: int| 0 <= i < prefix.len() implies match #[trigger] prefix[i] {
            TimerOp::InsertTimer(_, id, _) => id != k.1,
            TimerOp::RemoveTimer(_, _) => true,
        } by {
            assert(prefix[i] == ops[i]);
        }
        lemma_unscheduled_stays(m, prefix, k);
        assert(ops[ops.len() - 1] == ops.last());
    }
}

/// Once window `id` is removed it is not registered, so an event for it is
/// dropped: `post_event` then delivers nothing and changes no registration.
pub proof fn lemma_removed_window_unregistered(windows: Map<u64, Registration>, id: u64)
    ensures
        !windows.remove(id).contains_key(id),
{
}

/// Every timer of `m` has an id below `bound`.
pub open spec fn ids_below(m: Map<TimerKey, u64>, bound: u64) -> bool {
    forall|k: TimerKey| #[trigger] m.contains_key(k) ==> k.1 < bound
}

/// Applies the staged operations `ops` to `wheel`, oldest first.
fn apply_staged(wheel: &mut Wheel, ops: &Vec<TimerOp>)
    requires
        old(wheel).wf(),
    ensures
        final(wheel).wf(),
        final(wheel)@ == apply_ops(old(wheel)@, ops@),
{
    let ghost w0 = wheel@;
    let n = ops.len();
    let mut i: usize = 0;
    while i < n
        invariant
            wheel.wf(),
            n == ops@.len(),
            i <= n,
            wheel@ == apply_ops(w0, ops@.take(i as int)),
        decreases n - i,
    {
        match ops[i] {
            TimerOp::InsertTimer(deadline, id, waker) => wheel.insert(deadline, id, waker),
            TimerOp::RemoveTimer(deadline, id) => wheel.remove(deadline, id),
        }
        proof {
            assert(ops@.take(i + 1).drop_last() =~= ops@.take(i as int));
        }
        i = i + 1;
    }
    assert(ops@.take(n as int) =~= ops@);
}

/// Whether the driving loop has been asked to exit, and with which code.
#[derive(PartialEq, Eq, Structural, Debug, Clone, Copy)]
pub enum ExitState {
    Running,
    ExitRequested(i32),
}

/// An event handed to the reactor by the driving loop.
#[derive(PartialEq, Eq, Structural, Debug, Clone, Copy)]
pub enum ReactorEvent {
    /// An event of one of the awaitable kinds, for one window.
    Window { window_id: u64, kind: WindowEventKind },
    /// The application was resumed.
    Resumed,
    /// The application was suspended.
    Suspended,
    /// Any other event; it is ignored.
    Other,
}

/// The broadcasters of the loop-wide lifecycle events.
pub struct GlobalRegistration {
    pub resumed: Handler,
    pub suspended: Handler,
}

impl GlobalRegistration {
    pub open spec fn wf(&self) -> bool {
        self.resumed.wf() && self.suspended.wf()
    }

    pub fn new() -> (g: GlobalRegistration)
        ensures
            g.wf(),
            g.resumed@ == Seq::<Listener>::empty(),
            g.suspended@ == Seq::<Listener>::empty(),
    {
        GlobalRegistration { resumed: Handler::new(), suspended: Handler::new() }
    }
}

/// The reactor. `Op` is the type of the operations queued for the driving
/// loop; each carries what it needs to answer its requester.
pub struct Reactor<Op> {
    exit_code: ExitState,
    evl_ops: Vec<Op>,
    windows: HashMap<u64, Registration>,
    proxy: bool,
    wake_pending: bool,
    timers: Wheel,
    timer_op_queue: Vec<TimerOp>,
    timer_id: u64,
    evl_registration: GlobalRegistration,
}

impl<Op> Reactor<Op> {
    /// The scheduled timers, staged operations included.
    pub closed spec fn timers(&self) -> Map<TimerKey, u64> {
        apply_ops(self.timers@, self.timer_op_queue@)
    }

    /// The timers already in the wheel, without the staged operations.
    pub closed spec fn wheel(&self) -> Map<TimerKey, u64> {
        self.timers@
    }

    /// The staged timer operations, oldest first.
    pub closed spec fn staged(&self) -> Seq<TimerOp> {
        self.timer_op_queue@
    }

    /// The id the next timer will get.
    pub closed spec fn next_timer_id(&self) -> u64 {
        self.timer_id
    }

    pub closed spec fn exit_state(&self) -> ExitState {
        self.exit_code
    }

    /// The live windows and their registrations.
    pub closed spec fn windows(&self) -> Map<u64, Registration> {
        self.windows@
    }

    /// The operations waiting for the driving loop, oldest first.
    pub closed spec fn loop_ops(&self) -> Seq<Op> {
        self.evl_ops@
    }

    /// Whether the driving loop's wake-up handle has been set.
    pub closed spec fn has_proxy(&self) -> bool {
        self.proxy
    }

    /// The broadcasters of the loop-wide events.
    pub closed spec fn globals(&self) -> GlobalRegistration {
        self.evl_registration
    }

    /// Whether the driving loop is to be woken.
    pub closed spec fn wake_pending(&self) -> bool {
        self.wake_pending
    }

    pub closed spec fn wf(&self) -> bool {
        &&& self.timers.wf()
        &&& self.timer_op_queue@.len() <= TIMER_QUEUE_CAPACITY
        &&& self.evl_ops@.len() <= LOOP_QUEUE_CAPACITY
        &&& ids_below(self.timers(), self.timer_id)
        &&& forall|w: u64| #[trigger] self.windows@.contains_key(w) ==> self.windows@[w].wf()
        &&& self.evl_registration.wf()
    }

    pub open spec fn same_timers(&self, o: &Self) -> bool {
        self.timers() == o.timers() && self.next_timer_id() == o.next_timer_id()
    }

    pub open spec fn same_loop_state(&self, o: &Self) -> bool {
        &&& self.exit_state() == o.exit_state()
        &&& self.loop_ops() == o.loop_ops()
        &&& self.has_proxy() == o.has_proxy()
    }

    /// Creates an empty reactor: no timers, windows or operations, not exiting.
    pub fn new() -> (r: Self)
        ensures
            r.wf(),
            r.timers() == Map::<TimerKey, u64>::empty(),
            r.next_timer_id() == 1,
            r.exit_state() == ExitState::Running,
            r.windows() == Map::<u64, Registration>::empty(),
            r.loop_ops() == Seq::<Op>::empty(),
            !r.has_proxy(),
            !r.wake_pending(),
            r.globals().resumed@ == Seq::<Listener>::empty(),
            r.globals().suspended@ == Seq::<Listener>::empty(),
    {
        Reactor {
            exit_code: ExitState::Running,
            evl_ops: Vec::new(),
            windows: HashMap::new(),
            proxy: false,
            wake_pending: false,
            timers: Wheel::new(),
            timer_op_queue: Vec::new(),
            timer_id: 1,
            evl_registration: GlobalRegistration::new(),
        }
    }

    /// Records that the driving loop's wake-up handle is set.
    pub fn set_proxy(&mut self)
        requires
            old(self).wf(),
        ensures
            final(self).wf(),
            final(self).has_proxy(),
            final(self).wake_pending() == old(self).wake_pending(),
            final(self).same_timers(old(self)),
            final(self).exit_state() == old(self).exit_state(),
            final(self).loop_ops() == old(self).loop_ops(),
            final(self).windows() == old(self).windows(),
            final(self).globals() == old(self).globals(),
    {
        self.proxy = true;
    }

    /// Asks for the driving loop to be woken, once its handle is set.
    pub fn notify(&mut self)
        requires
            old(self).wf(),
        ensures
            final(self).wf(),
            final(self).wake_pending() == (old(self).wake_pending() || old(self).has_proxy()),
            final(self).same_timers(old(self)),
            final(self).same_loop_state(old(self)),
            final(self).windows() == old(self).windows(),
            final(self).globals() == old(self).globals(),
    {
        if self.proxy {
            self.wake_pending = true;
        }
    }

    /// Whether the driving loop is to be woken; clears the request.
    pub fn take_wake(&mut self) -> (w: bool)
        requires
            old(self).wf(),
        ensures
            final(self).wf(),
            w == old(self).wake_pending(),
            !final(self).wake_pending(),
            final(self).same_timers(old(self)),
            final(self).same_loop_state(old(self)),
            final(self).windows() == old(self).windows(),
            final(self).globals() == old(self).globals(),
    {
        let w = self.wake_pending;
        self.wake_pending = false;
        w
    }

    /// The exit code, if exit has been requested.
    pub fn exit_requested(&self) -> (r: Option<i32>)
        ensures
            r == match self.exit_state() {
                ExitState::Running => None,
                ExitState::ExitRequested(code) => Some(code),
            },
    {
        match self.exit_code {
            ExitState::Running => None,
            ExitState::ExitRequested(code) => Some(code),
        }
    }

    /// Requests that the driving loop exit with `code`, replacing any earlier
    /// request, and wakes it.
    pub fn request_exit(&mut self, code: i32)
        requires
            old(self).wf(),
        ensures
            final(self).wf(),
            final(self).exit_state() == ExitState::ExitRequested(code),
            final(self).wake_pending() == (old(self).wake_pending() || old(self).has_proxy()),
            final(self).same_timers(old(self)),
            final(self).loop_ops() == old(self).loop_ops(),
            final(self).has_proxy() == old(self).has_proxy(),
            final(self).windows() == old(self).windows(),
            final(self).globals() == old(self).globals(),
    {
        self.exit_code = ExitState::ExitRequested(code);
        self.notify();
    }

    /// Applies every staged timer operation to the wheel, oldest first.
    fn process_timer_ops(&mut self)
        requires
            old(self).wf(),
        ensures
            final(self).wf(),
            final(self).wheel() == apply_ops(old(self).wheel(), old(self).staged()),
            final(self).staged() == Seq::<TimerOp>::empty(),
            final(self).same_timers(old(self)),
            final(self).same_loop_state(old(self)),
            final(self).wake_pending() == old(self).wake_pending(),
            final(self).windows() == old(self).windows(),
            final(self).globals() == old(self).globals(),
    {
        apply_staged(&mut self.timers, &self.timer_op_queue);
        self.timer_op_queue = Vec::new();
        assert(apply_ops(self.timers@, self.timer_op_queue@) == self.timers@);
    }

    /// Stages `op`, first applying the staged operations if the staging
    /// queue is full, so that no operation is ever dropped.
    fn stage(&mut self, op: TimerOp)
        requires
            old(self).wf(),
            ids_below(apply_op(old(self).timers(), op), old(self).next_timer_id()),
        ensures
            final(self).wf(),
            final(self).timers() == apply_op(old(self).timers(), op),
            final(self).next_timer_id() == old(self).next_timer_id(),
            final(self).same_loop_state(old(self)),
            final(self).wake_pending() == old(self).wake_pending(),
            final(self).windows() == old(self).windows(),
            final(self).globals() == old(self).globals(),
    {
        if self.timer_op_queue.len() >= TIMER_QUEUE_CAPACITY {
            self.process_timer_ops();
        }
        let ghost pre = self.timer_op_queue@;
        self.timer_op_queue.push(op);
        assert(self.timer_op_queue@.drop_last() =~= pre);
    }

    /// Whether another timer can be scheduled (timer ids remain).
    pub fn can_insert_timer(&self) -> (b: bool)
        ensures
            b == (self.next_timer_id() < u64::MAX),
    {
        self.timer_id < u64::MAX
    }

    /// Schedules `waker` to be woken at `deadline` under a fresh id, which
    /// it returns, and wakes the driving loop so the new deadline counts.
    pub fn insert_timer(&mut self, deadline: u64, waker: u64) -> (id: u64)
        requires
            old(self).wf(),
            old(self).next_timer_id() < u64::MAX,
        ensures
            final(self).wf(),
            id == old(self).next_timer_id(),
            final(self).next_timer_id() == id + 1,
            !old(self).timers().contains_key((deadline, id)),
            final(self).timers() == old(self).timers().insert((deadline, id), waker),
            final(self).wake_pending() == (old(self).wake_pending() || old(self).has_proxy()),
            final(self).same_loop_state(old(self)),
            final(self).windows() == old(self).windows(),
            final(self).globals() == old(self).globals(),
    {
        let id = self.timer_id;
        self.timer_id = id + 1;
        self.stage(TimerOp::InsertTimer(deadline, id, waker));
        self.notify();
        id
    }

    /// Unschedules the timer `(deadline, id)`, if scheduled.
    pub fn remove_timer(&mut self, deadline: u64, id: u64)
        requires
            old(self).wf(),
        ensures
            final(self).wf(),
            final(self).timers() == old(self).timers().remove((deadline, id)),
            final(self).next_timer_id() == old(self).next_timer_id(),
            final(self).wake_pending() == old(self).wake_pending(),
            final(self).same_loop_state(old(self)),
            final(self).windows() == old(self).windows(),
            final(self).globals() == old(self).globals(),
    {
        self.stage(TimerOp::RemoveTimer(deadline, id));
    }

    /// Fires the timers due at `now`: their wakers are appended to `wakers`
    /// in (deadline, id) order and they leave the schedule. Returns `now` if
    /// any fired, else the nearest deadline, else nothing.
    pub fn process_timers(&mut self, now: u64, wakers: &mut Vec<u64>) -> (r: Option<u64>)
        requires
            old(self).wf(),
        ensures
            final(self).wf(),
            exists|keys: Seq<TimerKey>|
                due_listing(old(self).timers(), now, keys) && final(wakers)@ == old(wakers)@
                    + wakers_of(old(self).timers(), keys),
            next_wake(old(self).timers(), now, r),
            final(self).timers() == not_due(old(self).timers(), now),
            final(self).next_timer_id() == old(self).next_timer_id(),
            final(self).wake_pending() == old(self).wake_pending(),
            final(self).same_loop_state(old(self)),
            final(self).windows() == old(self).windows(),
            final(self).globals() == old(self).globals(),
    {
        self.process_timer_ops();
        let r = self.timers.take_due(now, wakers);
        assert(apply_ops(self.timers@, self.timer_op_queue@) == self.timers@);
        r
    }

    /// Registers window `id` with a fresh registration, replacing any earlier one.
    pub fn insert_window(&mut self, id: u64)
        requires
            old(self).wf(),
        ensures
            final(self).wf(),
            final(self).windows().dom() == old(self).windows().dom().insert(id),
            forall|k: WindowEventKind|
                #[trigger] final(self).windows()[id].listeners(k) == Seq::<Listener>::empty()
                    && final(self).windows()[id].next_listener(k) == 0,
            forall|w: u64| w != id ==> #[trigger] final(self).windows()[w] == old(self).windows()[w],
            final(self).same_timers(old(self)),
            final(self).same_loop_state(old(self)),
            final(self).wake_pending() == old(self).wake_pending(),
            final(self).globals() == old(self).globals(),
    {
        let registration = Registration::new();
        self.windows.insert(id, registration);
    }

    /// Forgets window `id`; later events for it are dropped.
    pub fn remove_window(&mut self, id: u64)
        requires
            old(self).wf(),
        ensures
            final(self).wf(),
            final(self).windows() == old(self).windows().remove(id),
            final(self).same_timers(old(self)),
            final(self).same_loop_state(old(self)),
            final(self).wake_pending() == old(self).wake_pending(),
            final(self).globals() == old(self).globals(),
    {
        self.windows.remove(&id);
    }

    /// Registers a listener for events of `kind` on window `id`; `None` if
    /// no such window is registered or its listener ids for `kind` are used up.
    pub fn subscribe_window(&mut self, id: u64, kind: WindowEventKind, repeat: bool) -> (r: Option<u64>)
        requires
            old(self).wf(),
        ensures
            final(self).wf(),
            final(self).windows().dom() == old(self).windows().dom(),
            forall|w: u64| w != id ==> #[trigger] final(self).windows()[w] == old(self).windows()[w],
            !(old(self).windows().contains_key(id) && old(self).windows()[id].next_listener(kind)
                < u64::MAX) ==> r is None && final(self).windows() == old(self).windows(),
            old(self).windows().contains_key(id) && old(self).windows()[id].next_listener(kind)
                < u64::MAX ==> {
                let (before, after) = (old(self).windows()[id], final(self).windows()[id]);
                &&& r == Some(before.next_listener(kind))
                &&& after.listeners(kind) == before.listeners(kind).push(
                    Listener { id: before.next_listener(kind), repeat },
                )
                &&& after.next_listener(kind) == before.next_listener(kind) + 1
                &&& forall|k: WindowEventKind|
                    k != kind ==> #[trigger] after.listeners(k) == before.listeners(k)
                        && after.next_listener(k) == before.next_listener(k)
            },
            final(self).same_timers(old(self)),
            final(self).same_loop_state(old(self)),
            final(self).wake_pending() == old(self).wake_pending(),
            final(self).globals() == old(self).globals(),
    {
        match self.windows.get(&id) {
            Some(registration) => {
                if !registration.can_subscribe(kind) {
                    return None;
                }
            },
            None => {
                return None;
            },
        }
        match self.windows.remove(&id) {
            Some(mut registration) => {
                let lid = registration.subscribe(kind, repeat);
                self.windows.insert(id, registration);
                proof {
                    assert(self.windows@.dom() =~= old(self).windows@.dom());
                }
                Some(lid)
            },
            None => None,
        }
    }

    /// Removes listener `listener` of `kind` on window `id`, if registered.
    pub fn unsubscribe_window(&mut self, id: u64, kind: WindowEventKind, listener: u64)
        requires
            old(self).wf(),
        ensures
            final(self).wf(),
            final(self).windows().dom() == old(self).windows().dom(),
            forall|w: u64| w != id ==> #[trigger] final(self).windows()[w] == old(self).windows()[w],
            old(self).windows().contains_key(id) ==> {
                let (before, after) = (old(self).windows()[id], final(self).windows()[id]);
                &&& after.listeners(kind) == before.listeners(kind).filter(is_not(listener))
                &&& forall|k: WindowEventKind| #[trigger] after.next_listener(k) == before.next_listener(k)
                &&& forall|k: WindowEventKind| k != kind ==> #[trigger] after.listeners(k) == before.listeners(k)
            },
            !old(self).windows().contains_key(id) ==> final(self).windows() == old(self).windows(),
            final(self).same_timers(old(self)),
            final(self).same_loop_state(old(self)),
            final(self).wake_pending() == old(self).wake_pending(),
            final(self).globals() == old(self).globals(),
    {
        match self.windows.remove(&id) {
            Some(mut registration) => {
                registration.unsubscribe(kind, listener);
                self.windows.insert(id, registration);
                proof {
                    assert(self.windows@.dom() =~= old(self).windows@.dom());
                }
            },
            None => {
                proof {
                    assert(self.windows@ =~= old(self).windows@);
                }
            },
        }
    }

    /// Registers a listener for the loop-wide `resumed` (`suspended` when
    /// `on_suspend`) event; `None` if that broadcaster's ids are used up.
    pub fn subscribe_lifecycle(&mut self, on_suspend: bool, repeat: bool) -> (r: Option<u64>)
        requires
            old(self).wf(),
        ensures
            final(self).wf(),
            ({
                let (h0, h1) = if on_suspend {
                    (old(self).globals().suspended, final(self).globals().suspended)
                } else {
                    (old(self).globals().resumed, final(self).globals().resumed)
                };
                let (o0, o1) = if on_suspend {
                    (old(self).globals().resumed, final(self).globals().resumed)
                } else {
                    (old(self).globals().suspended, final(self).globals().suspended)
                };
                &&& o1 == o0
                &&& h0.next_listener() < u64::MAX ==> {
                    &&& r == Some(h0.next_listener())
                    &&& h1@ == h0@.push(Listener { id: h0.next_listener(), repeat })
                    &&& h1.next_listener() == h0.next_listener() + 1
                }
                &&& h0.next_listener() == u64::MAX ==> r is None && h1 == h0
            }),
            final(self).same_timers(old(self)),
            final(self).same_loop_state(old(self)),
            final(self).wake_pending() == old(self).wake_pending(),
            final(self).windows() == old(self).windows(),
    {
        if on_suspend {
            if !self.evl_registration.suspended.can_subscribe() {
                return None;
            }
            Some(self.evl_registration.suspended.subscribe(repeat))
        } else {
            if !self.evl_registration.resumed.can_subscribe() {
                return None;
            }
            Some(self.evl_registration.resumed.subscribe(repeat))
        }
    }

    /// Removes listener `listener` of the loop-wide `resumed` (`suspended`
    /// when `on_suspend`) event, if registered.
    pub fn unsubscribe_lifecycle(&mut self, on_suspend: bool, listener: u64)
        requires
            old(self).wf(),
        ensures
            final(self).wf(),
            on_suspend ==> {
                &&& final(self).globals().suspended@ == old(self).globals().suspended@.filter(is_not(listener))
                &&& final(self).globals().suspended.next_listener() == old(self).globals().suspended.next_listener()
                &&& final(self).globals().resumed == old(self).globals().resumed
            },
            !on_suspend ==> {
                &&& final(self).globals().resumed@ == old(self).globals().resumed@.filter(is_not(listener))
                &&& final(self).globals().resumed.next_listener() == old(self).globals().resumed.next_listener()
                &&& final(self).globals().suspended == old(self).globals().suspended
            },
            final(self).same_timers(old(self)),
            final(self).same_loop_state(old(self)),
            final(self).wake_pending() == old(self).wake_pending(),
            final(self).windows() == old(self).windows(),
    {
        if on_suspend {
            self.evl_registration.suspended.unsubscribe(listener);
        } else {
            self.evl_registration.resumed.unsubscribe(listener);
        }
    }

    /// Hands one event of the driving loop to its listeners. A window event
    /// goes to that window's broadcaster of its kind, and is dropped if the
    /// window is not registered; resumed and suspended go to the loop-wide
    /// broadcasters; anything else is ignored. Returns the deliveries made.
    pub fn post_event(&mut self, event: ReactorEvent) -> (r: Vec<Delivery>)
        requires
            old(self).wf(),
        ensures
            final(self).wf(),
            final(self).same_timers(old(self)),
            final(self).same_loop_state(old(self)),
            final(self).wake_pending() == old(self).wake_pending(),
            final(self).windows().dom() == old(self).windows().dom(),
            match event {
                ReactorEvent::Window { window_id, kind } => {
                    &&& forall|w: u64|
                        w != window_id ==> #[trigger] final(self).windows()[w] == old(self).windows()[w]
                    &&& final(self).globals() == old(self).globals()
                    &&& if old(self).windows().contains_key(window_id) {
                        &&& r@ == deliveries(old(self).windows()[window_id].listeners(kind))
                        &&& after_signal(
                            old(self).windows()[window_id],
                            final(self).windows()[window_id],
                            kind,
                        )
                    } else {
                        &&& r@ == Seq::<Delivery>::empty()
                        &&& final(self).windows() == old(self).windows()
                    }
                },
                ReactorEvent::Resumed => {
                    &&& r@ == deliveries(old(self).globals().resumed@)
                    &&& final(self).globals().resumed@ == old(self).globals().resumed@.filter(is_repeating())
                    &&& final(self).globals().resumed.next_listener() == old(self).globals().resumed.next_listener()
                    &&& final(self).globals().suspended == old(self).globals().suspended
                    &&& final(self).windows() == old(self).windows()
                },
                ReactorEvent::Suspended => {
                    &&& r@ == deliveries(old(self).globals().suspended@)
                    &&& final(self).globals().suspended@ == old(self).globals().suspended@.filter(is_repeating())
                    &&& final(self).globals().suspended.next_listener() == old(self).globals().suspended.next_listener()
                    &&& final(self).globals().resumed == old(self).globals().resumed
                    &&& final(self).windows() == old(self).windows()
                },
                ReactorEvent::Other => {
                    &&& r@ == Seq::<Delivery>::empty()
                    &&& final(self).windows() == old(self).windows()
                    &&& final(self).globals() == old(self).globals()
                },
            },
    {
        match event {
            ReactorEvent::Window { window_id, kind } => {
                match self.windows.remove(&window_id) {
                    Some(mut registration) => {
                        let r = registration.signal(kind);
                        self.windows.insert(window_id, registration);
                        proof {
                            assert(self.windows@.dom() =~= old(self).windows@.dom());
                        }
                        r
                    },
                    None => {
                        proof {
                            assert(self.windows@ =~= old(self).windows@);
                        }
                        Vec::new()
                    },
                }
            },
            ReactorEvent::Resumed => self.evl_registration.resumed.run_with(),
            ReactorEvent::Suspended => self.evl_registration.suspended.run_with(),
            ReactorEvent::Other => Vec::new(),
        }
    }

    /// Queues `op` for the driving loop and wakes it. A full queue means the
    /// loop is behind: `op` is handed back, nothing changes, and the caller
    /// waits for a drain before offering it again.
    pub fn push_event_loop_op(&mut self, op: Op) -> (r: Result<(), Op>)
        requires
            old(self).wf(),
        ensures
            final(self).wf(),
            old(self).loop_ops().len() < LOOP_QUEUE_CAPACITY ==> {
                &&& r is Ok
                &&& final(self).loop_ops() == old(self).loop_ops().push(op)
                &&& final(self).wake_pending() == (old(self).wake_pending() || old(self).has_proxy())
            },
            old(self).loop_ops().len() >= LOOP_QUEUE_CAPACITY ==> {
                &&& r == Err::<(), Op>(op)
                &&& final(self).loop_ops() == old(self).loop_ops()
                &&& final(self).wake_pending() == old(self).wake_pending()
            },
            final(self).exit_state() == old(self).exit_state(),
            final(self).has_proxy() == old(self).has_proxy(),
            final(self).same_timers(old(self)),
            final(self).windows() == old(self).windows(),
            final(self).globals() == old(self).globals(),
    {
        if self.evl_ops.len() >= LOOP_QUEUE_CAPACITY {
            return Err(op);
        }
        self.evl_ops.push(op);
        self.notify();
        Ok(())
    }

    /// Takes the queued operations, oldest first, for the driving loop to
    /// run; at most the queue's capacity are taken at once.
    pub fn drain_loop_queue(&mut self) -> (ops: Vec<Op>)
        requires
            old(self).wf(),
        ensures
            final(self).wf(),
            ops@ == old(self).loop_ops(),
            ops@.len() <= LOOP_QUEUE_CAPACITY,
            final(self).loop_ops() == Seq::<Op>::empty(),
            final(self).exit_state() == old(self).exit_state(),
            final(self).has_proxy() == old(self).has_proxy(),
            final(self).wake_pending() == old(self).wake_pending(),
            final(self).same_timers(old(self)),
            final(self).windows() == old(self).windows(),
            final(self).globals() == old(self).globals(),
    {
        self.evl_ops.split_off(0)
    }

    /// The number of operations waiting for the driving loop.
    pub fn evl_ops_len(&self) -> (n: usize)
        ensures
            n == self.loop_ops().len(),
    {
        self.evl_ops.len()
    }
}

} // verus!
