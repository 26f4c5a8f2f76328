//! The timer wheel: pending wake-ups ordered by (deadline, id), and the
//! staged operations that are applied to it in batches.
use vstd::prelude::*;

verus! {

/// A timer's key: its deadline and its sequence id.
pub type TimerKey = (u64, u64);

/// The lexicographic order of timer keys.
pub open spec fn key_lt(a: TimerKey, b: TimerKey) -> bool {
    a.0 < b.0 || (a.0 == b.0 && a.1 < b.1)
}

/// Keys listed in strictly increasing order.
pub open spec fn strictly_ascending(keys: Seq<TimerKey>) -> bool {
    forall|i: int, j: int| 0 <= i < j < keys.len() ==> key_lt(keys[i], keys[j])
}

/// `keys` lists, in firing order, exactly the timers of `m` due at `now`.
pub open spec fn due_listing(m: Map<TimerKey, u64>, now: u64, keys: Seq<TimerKey>) -> bool {
    &&& strictly_ascending(keys)
    &&& forall|q: TimerKey| #[trigger] keys.contains(q) <==> (m.contains_key(q) && q.0 <= now)
}

/// Two strictly ascending listings of the same keys are the same listing.
proof fn lemma_ascending_unique(a: Seq<TimerKey>, b: Seq<TimerKey>)
    requires
        strictly_ascending(a),
        strictly_ascending(b),
        forall|x: TimerKey| a.contains(x) <==> b.contains(x),
    ensures
        a == b,
    decreases a.len(),
{
    if a.len() == 0 {
        if b.len() > 0 {
            assert(b.contains(b[0]));
        }
        assert(a =~= b);
    } else {
        assert(a.contains(a[0]));
        let j = choose|j: int| 0 <= j < b.len() && b[j] == a[0];
        assert(b.contains(b[0]));
        let k = choose|k: int| 0 <= k < a.len() && a[k] == b[0];
        if j > 0 {
            assert(key_lt(b[0], b[j]));
            if k > 0 {
                assert(key_lt(a[0], a[k]));
            }
        }
        assert(a[0] == b[0]);
        let (a1, b1) = (a.drop_first(), b.drop_first());
        assert forall|x: TimerKey| a1.contains(x) <==> b1.contains(x) by {
            if a1.contains(x) {
                let i = choose|i: int| 0 <= i < a1.len() && a1[i] == x;
                assert(key_lt(a[0], a[i + 1]));
                assert(a.contains(a[i + 1]));
                let jj = choose|jj: int| 0 <= jj < b.len() && b[jj] == x;
                assert(b1[jj - 1] == x);
            }
            if b1.contains(x) {
                let i = choose|i: int| 0 <= i < b1.len() && b1[i] == x;
                assert(key_lt(b[0], b[i + 1]));
                assert(b.contains(b[i + 1]));
                let kk = choose|kk: int| 0 <= kk < a.len() && a[kk] == x;
                assert(a1[kk - 1] == x);
            }
        }
        lemma_ascending_unique(a1, b1);
        assert(a =~= b) by {
            assert forall|i: int| 0 <= i < a.len() implies a[i] == b[i] by {
                if i > 0 {
                    assert(a[i] == a1[i - 1]);
                    assert(b[i] == b1[i - 1]);
                }
            }
        }
    }
}

/// The timers due at a given instant have one firing order only: a
/// listing of them is unique, so the wakers a firing hands out are fixed.
pub proof fn lemma_due_listing_unique(
    m: Map<TimerKey, u64>,
    now: u64,
    a: Seq<TimerKey>,
    b: Seq<TimerKey>,
)
    requires
        due_listing(m, now, a),
        due_listing(m, now, b),
    ensures
        a == b,
{
    lemma_ascending_unique(a, b);
}

/// The wakers of the timers `keys` of `m`, in that order.
pub open spec fn wakers_of(m: Map<TimerKey, u64>, keys: Seq<TimerKey>) -> Seq<u64> {
    keys.map_values(|q: TimerKey| m[q])
}

/// The timers of `m` that are not due at `now`.
pub open spec fn not_due(m: Map<TimerKey, u64>, now: u64) -> Map<TimerKey, u64> {
    Map::new(|q: TimerKey| m.contains_key(q) && q.0 > now, |q: TimerKey| m[q])
}

/// `r` is the instant the driving loop should wake at, given the timers `m`
/// before firing: `now` if any fired, else the nearest deadline, else none.
pub open spec fn next_wake(m: Map<TimerKey, u64>, now: u64, r: Option<u64>) -> bool {
    if exists|q: TimerKey| m.contains_key(q) && q.0 <= now {
        r == Some(now)
    } else if exists|q: TimerKey| m.contains_key(q) {
        &&& r is Some
        &&& exists|q: TimerKey| m.contains_key(q) && q.0 == r->0
        &&& forall|q: TimerKey| m.contains_key(q) ==> r->0 <= q.0
    } else {
        r is None
    }
}

/// A scheduled wake-up.
#[derive(PartialEq, Eq, Structural, Debug, Clone, Copy)]
pub struct TimerEntry {
    pub deadline: u64,
    pub id: u64,
    pub waker: u64,
}

pub open spec fn key_of(e: TimerEntry) -> TimerKey {
    (e.deadline, e.id)
}

/// The map from key to waker that the entries `s` hold.
pub open spec fn entries_map(s: Seq<TimerEntry>) -> Map<TimerKey, u64> {
    Map::new(
        |q: TimerKey| exists|i: int| 0 <= i < s.len() && key_of(s[i]) == q,
        |q: TimerKey| s[choose|i: int| 0 <= i < s.len() && key_of(s[i]) == q].waker,
    )
}

pub open spec fn entries_sorted(s: Seq<TimerEntry>) -> bool {
    forall|i: int, j: int| 0 <= i < j < s.len() ==> key_lt(key_of(s[i]), key_of(s[j]))
}

/// `m` is the map held by `s` when every entry of `s` is in `m` and every key
/// of `m` is that of an entry.
proof fn lemma_entries_map(s: Seq<TimerEntry>, m: Map<TimerKey, u64>)
    requires
        forall|i: int| 0 <= i < s.len() ==> #[trigger] m.contains_key(key_of(s[i])) && m[key_of(s[i])] == s[i].waker,
        forall|q: TimerKey| m.contains_key(q) ==> exists|i: int| 0 <= i < s.len() && key_of(s[i]) == q,
    ensures
        entries_map(s) == m,
{
    assert(entries_map(s) =~= m);
}

/// The entry at `i` of a sorted listing is what the map holds for its key.
proof fn lemma_entry_in_map(s: Seq<TimerEntry>, i: int)
    requires
        entries_sorted(s),
        0 <= i < s.len(),
    ensures
        entries_map(s).contains_key(key_of(s[i])),
        entries_map(s)[key_of(s[i])] == s[i].waker,
{
    let q = key_of(s[i]);
    assert(exists|j: int| 0 <= j < s.len() && key_of(s[j]) == q);
    let j = choose|j: int| 0 <= j < s.len() && key_of(s[j]) == q;
    if j < i {
        assert(key_lt(key_of(s[j]), key_of(s[i])));
    } else if j > i {
        assert(key_lt(key_of(s[i]), key_of(s[j])));
    }
}

/// Whether `e` comes before the key `(deadline, id)`.
fn entry_before(e: &TimerEntry, deadline: u64, id: u64) -> (b: bool)
    ensures
        b == key_lt(key_of(*e), (deadline, id)),
{
    e.deadline < deadline || (e.deadline == deadline && e.id < id)
}

/// The ordered schedule of wake-ups.
pub struct Wheel {
    entries: Vec<TimerEntry>,
}

impl Wheel {
    /// The scheduled timers, as a map from key to waker.
    pub closed spec fn view(&self) -> Map<TimerKey, u64> {
        entries_map(self.entries@)
    }

    pub closed spec fn wf(&self) -> bool {
        entries_sorted(self.entries@)
    }

    pub fn new() -> (w: Wheel)
        ensures
            w.wf(),
            w@ == Map::<TimerKey, u64>::empty(),
    {
        let w = Wheel { entries: Vec::new() };
        assert(entries_map(w.entries@) =~= Map::<TimerKey, u64>::empty());
        w
    }

    /// The number of entries before the first one not below `(deadline, id)`.
    fn position(&self, deadline: u64, id: u64) -> (p: usize)
        requires
            self.wf(),
        ensures
            p <= self.entries@.len(),
            forall|j: int| 0 <= j < p ==> key_lt(key_of(self.entries@[j]), (deadline, id)),
            forall|j: int|
                p <= j < self.entries@.len() ==> !key_lt(key_of(self.entries@[j]), (deadline, id)),
    {
        let n = self.entries.len();
        let mut p: usize = 0;
        while p < n && entry_before(&self.entries[p], deadline, id)
            invariant
                self.wf(),
                n == self.entries@.len(),
                p <= n,
                forall|j: int| 0 <= j < p ==> key_lt(key_of(self.entries@[j]), (deadline, id)),
            decreases n - p,
        {
            p = p + 1;
        }
        proof {
            let s = self.entries@;
            assert forall|j: int| p <= j < s.len() implies !key_lt(key_of(s[j]), (deadline, id)) by {
                if j > p {
                    assert(key_lt(key_of(s[p as int]), key_of(s[j])));
                }
            }
        }
        p
    }

    /// Schedules `waker` under `(deadline, id)`, replacing what was there.
    pub fn insert(&mut self, deadline: u64, id: u64, waker: u64)
        requires
            old(self).wf(),
        ensures
            final(self).wf(),
            final(self)@ == old(self)@.insert((deadline, id), waker),
    {
        let ghost s = self.entries@;
        let ghost m = self@;
        let k: TimerKey = (deadline, id);
        let e = TimerEntry { deadline, id, waker };
        let p = self.position(deadline, id);
        proof {
            assert forall|i: int| 0 <= i < s.len() implies #[trigger] m.contains_key(key_of(s[i]))
                && m[key_of(s[i])] == s[i].waker by {
                lemma_entry_in_map(s, i);
            }
        }
        if p < self.entries.len() && self.entries[p].deadline == deadline && self.entries[p].id == id {
            self.entries[p] = e;
            proof {
                let t = self.entries@;
                let m2 = m.insert(k, waker);
                assert forall|q: TimerKey| m2.contains_key(q) implies exists|i: int|
                    0 <= i < t.len() && key_of(t[i]) == q by {
                    if q != k {
                        let j = choose|j: int| 0 <= j < s.len() && key_of(s[j]) == q;
                        assert(key_of(t[j]) == q);
                    } else {
                        assert(key_of(t[p as int]) == q);
                    }
                }
                lemma_entries_map(t, m2);
            }
        } else {
            self.entries.insert(p, e);
            proof {
                let t = self.entries@;
                let m2 = m.insert(k, waker);
                assert forall|i: int, j: int| 0 <= i < j < t.len() implies key_lt(
                    key_of(t[i]),
                    key_of(t[j]),
                ) by {
                    if j < p {
                    } else if j == p {
                    } else if i < p {
                    } else if i == p {
                        assert(!key_lt(key_of(s[j - 1]), k));
                    } else {
                    }
                }
                assert forall|i: int| 0 <= i < t.len() implies #[trigger] m2.contains_key(
                    key_of(t[i]),
                ) && m2[key_of(t[i])] == t[i].waker by {
                    if i < p {
                        assert(t[i] == s[i]);
                    } else if i > p {
                        assert(t[i] == s[i - 1]);
                        if i - 1 > p {
                            assert(key_lt(key_of(s[p as int]), key_of(s[i - 1])));
                        }
                        assert(key_of(s[i - 1]) != k);
                    }
                }
                assert forall|q: TimerKey| m2.contains_key(q) implies exists|i: int|
                    0 <= i < t.len() && key_of(t[i]) == q by {
                    if q != k {
                        let j = choose|j: int| 0 <= j < s.len() && key_of(s[j]) == q;
                        if j < p {
                            assert(key_of(t[j]) == q);
                        } else {
                            assert(key_of(t[j + 1]) == q);
                        }
                    } else {
                        assert(key_of(t[p as int]) == q);
                    }
                }
                lemma_entries_map(t, m2);
            }
        }
    }

    /// Unschedules the timer `(deadline, id)`, if scheduled.
    pub fn remove(&mut self, deadline: u64, id: u64)
        requires
            old(self).wf(),
        ensures
            final(self).wf(),
            final(self)@ == old(self)@.remove((deadline, id)),
    {
        let ghost s = self.entries@;
        let ghost m = self@;
        let ghost k: TimerKey = (deadline, id);
        let p = self.position(deadline, id);
        proof {
            assert forall|i: int| 0 <= i < s.len() implies #[trigger] m.contains_key(key_of(s[i]))
                && m[key_of(s[i])] == s[i].waker by {
                lemma_entry_in_map(s, i);
            }
        }
        if p < self.entries.len() && self.entries[p].deadline == deadline && self.entries[p].id == id {
            self.entries.remove(p);
            proof {
                let t = self.entries@;
                let m2 = m.remove(k);
                assert forall|i: int| 0 <= i < t.len() implies #[trigger] m2.contains_key(
                    key_of(t[i]),
                ) && m2[key_of(t[i])] == t[i].waker by {
                    if i < p {
                        assert(t[i] == s[i]);
                    } else {
                        assert(t[i] == s[i + 1]);
                    }
                }
                assert forall|q: TimerKey| m2.contains_key(q) implies exists|i: int|
                    0 <= i < t.len() && key_of(t[i]) == q by {
                    let j = choose|j: int| 0 <= j < s.len() && key_of(s[j]) == q;
                    if j < p {
                        assert(key_of(t[j]) == q);
                    } else {
                        assert(key_of(t[j - 1]) == q);
                    }
                }
                lemma_entries_map(s.remove(p as int), m2);
            }
        } else {
            proof {
                assert(!m.contains_key(k)) by {
                    if m.contains_key(k) {
                        let j = choose|j: int| 0 <= j < s.len() && key_of(s[j]) == k;
                        if j >= p {
                            assert(key_lt(key_of(s[p as int]), key_of(s[j])) || j == p);
                        }
                    }
                }
                assert(m.remove(k) =~= m);
            }
        }
    }

    /// Moves the wakers of the timers due at `now` into `wakers`, in firing
    /// order, keeps the others, and says when the driving loop should wake.
    pub fn take_due(&mut self, now: u64, wakers: &mut Vec<u64>) -> (r: Option<u64>)
        requires
            old(self).wf(),
        ensures
            final(self).wf(),
            final(self)@ == not_due(old(self)@, now),
            exists|keys: Seq<TimerKey>|
                due_listing(old(self)@, now, keys) && final(wakers)@ == old(wakers)@ + wakers_of(
                    old(self)@,
                    keys,
                ),
            next_wake(old(self)@, now, r),
    {
        let ghost s = self.entries@;
        let ghost m = self@;
        let ghost w0 = wakers@;
        let n = self.entries.len();
        let mut p: usize = 0;
        while p < n && self.entries[p].deadline <= now
            invariant
                self.wf(),
                self.entries@ == s,
                n == s.len(),
                p <= n,
                forall|j: int| 0 <= j < p ==> s[j].deadline <= now,
                wakers@ == w0 + s.take(p as int).map_values(|e: TimerEntry| e.waker),
            decreases n - p,
        {
            wakers.push(self.entries[p].waker);
            p = p + 1;
            proof {
                assert(s.take(p as int).map_values(|e: TimerEntry| e.waker) =~= s.take(
                    p - 1,
                ).map_values(|e: TimerEntry| e.waker).push(s[p - 1].waker));
            }
        }
        proof {
            assert forall|j: int| p <= j < n implies s[j].deadline > now by {
                if j > p {
                    assert(key_lt(key_of(s[p as int]), key_of(s[j])));
                }
            }
            assert forall|i: int| 0 <= i < s.len() implies #[trigger] m.contains_key(key_of(s[i]))
                && m[key_of(s[i])] == s[i].waker by {
                lemma_entry_in_map(s, i);
            }
            let keys = s.take(p as int).map_values(|e: TimerEntry| key_of(e));
            assert forall|q: TimerKey| #[trigger] keys.contains(q) <==> (m.contains_key(q) && q.0
                <= now) by {
                if m.contains_key(q) && q.0 <= now {
                    let j = choose|j: int| 0 <= j < s.len() && key_of(s[j]) == q;
                    assert(keys[j] == q);
                }
                if keys.contains(q) {
                    let j = choose|j: int| 0 <= j < keys.len() && keys[j] == q;
                    assert(key_of(s[j]) == q);
                }
            }
            assert forall|j: int| 0 <= j < p implies #[trigger] wakers_of(m, keys)[j] == s[j].waker by {
                assert(keys[j] == key_of(s[j]));
                lemma_entry_in_map(s, j);
                assert(wakers_of(m, keys)[j] == m[keys[j]]);
            }
            assert(wakers@ =~= w0 + wakers_of(m, keys));
            assert(due_listing(m, now, keys));
        }
        let rest = self.entries.split_off(p);
        self.entries = rest;
        proof {
            let t = self.entries@;
            let m2 = not_due(m, now);
            assert forall|i: int| 0 <= i < t.len() implies #[trigger] m2.contains_key(key_of(t[i]))
                && m2[key_of(t[i])] == t[i].waker by {
                assert(t[i] == s[i + p]);
            }
            assert forall|q: TimerKey| m2.contains_key(q) implies exists|i: int|
                0 <= i < t.len() && key_of(t[i]) == q by {
                let j = choose|j: int| 0 <= j < s.len() && key_of(s[j]) == q;
                assert(key_of(t[j - p]) == q);
            }
            lemma_entries_map(t, m2);
            if n > 0 {
                assert(m.contains_key(key_of(s[0])));
            }
            if p == 0 {
                assert forall|q: TimerKey| m.contains_key(q) implies q.0 > now && s[0].deadline
                    <= q.0 by {
                    let j = choose|j: int| 0 <= j < s.len() && key_of(s[j]) == q;
                    if j > 0 {
                        assert(key_lt(key_of(s[0]), key_of(s[j])));
                    }
                }
            }
        }
        if p > 0 {
            Some(now)
        } else if self.entries.len() > 0 {
            Some(self.entries[0].deadline)
        } else {
            None
        }
    }
}

} // verus!
