//! The event broadcaster: one per event kind, delivering each occurrence to
//! every listener registered when the broadcast begins, exactly once each.
use vstd::prelude::*;

verus! {

/// A listener registered with a [`Handler`].
#[derive(PartialEq, Eq, Structural, Debug, Clone, Copy)]
pub struct Listener {
    /// Identifier, unique within its handler and increasing with registration.
    pub id: u64,
    /// `true` for a "wait repeatedly" subscription, `false` for "wait once".
    pub repeat: bool,
}

/// One delivery of an occurrence to a listener.
///
/// The first registered listener receives the unique (non-duplicable) view
/// of the payload; every later one receives a downgraded, clonable copy.
#[derive(PartialEq, Eq, Structural, Debug, Clone, Copy)]
pub struct Delivery {
    pub listener: u64,
    pub unique: bool,
}

/// Listeners kept after a broadcast: the repeating ones.
pub open spec fn is_repeating() -> spec_fn(Listener) -> bool {
    |l: Listener| l.repeat
}

/// Listeners kept after removing the one with identifier `id`.
pub open spec fn is_not(id: u64) -> spec_fn(Listener) -> bool {
    |l: Listener| l.id != id
}

/// Identifiers strictly increase along the sequence (registration order).
pub open spec fn ids_increasing(s: Seq<Listener>) -> bool {
    forall|i: int, j: int| 0 <= i < j < s.len() ==> s[i].id < s[j].id
}

/// The deliveries made to the listeners `s`, in registration order.
pub open spec fn deliveries(s: Seq<Listener>) -> Seq<Delivery> {
    Seq::new(s.len(), |i: int| Delivery { listener: s[i].id, unique: i == 0 })
}

/// A broadcast reaches each listener registered before it exactly once, and
/// none registered after it (those get larger identifiers).
pub proof fn lemma_broadcast_each_once(ls: Seq<Listener>, late: u64)
    requires
        ids_increasing(ls),
        forall|i: int| 0 <= i < ls.len() ==> ls[i].id < late,
    ensures
        deliveries(ls).len() == ls.len(),
        forall|i: int, j: int|
            0 <= i < ls.len() && 0 <= j < ls.len() ==> (deliveries(ls)[j].listener == ls[i].id
                <==> i == j),
        forall|j: int| 0 <= j < ls.len() ==> deliveries(ls)[j].listener != late,
{
    assert forall|i: int, j: int|
        0 <= i < ls.len() && 0 <= j < ls.len() implies (deliveries(ls)[j].listener == ls[i].id
        <==> i == j) by {
        if i < j {
            assert(ls[i].id < ls[j].id);
        } else if j < i {
            assert(ls[j].id < ls[i].id);
        }
    }
}

/// A broadcaster for one event kind.
pub struct Handler {
    listeners: Vec<Listener>,
    next_id: u64,
}

impl Handler {
    /// The registered listeners, in registration order.
    pub closed spec fn view(&self) -> Seq<Listener> {
        self.listeners@
    }

    /// The identifier the next registration will get.
    pub closed spec fn next_listener(&self) -> u64 {
        self.next_id
    }

    pub closed spec fn wf(&self) -> bool {
        &&& ids_increasing(self.listeners@)
        &&& forall|i: int| 0 <= i < self.listeners@.len() ==> self.listeners@[i].id < self.next_id
    }

    /// Creates a broadcaster with no listeners.
    pub fn new() -> (h: Handler)
        ensures
            h.wf(),
            h@ == Seq::<Listener>::empty(),
            h.next_listener() == 0,
    {
        Handler { listeners: Vec::new(), next_id: 0 }
    }

    /// Registers a listener; `repeat` selects "wait repeatedly" over "wait once".
    pub fn subscribe(&mut self, repeat: bool) -> (id: u64)
        requires
            old(self).wf(),
            old(self).next_listener() < u64::MAX,
        ensures
            final(self).wf(),
            id == old(self).next_listener(),
            final(self).next_listener() == id + 1,
            final(self)@ == old(self)@.push(Listener { id, repeat }),
    {
        let id = self.next_id;
        self.listeners.push(Listener { id, repeat });
        self.next_id = id + 1;
        id
    }

    /// Whether another listener can be registered (identifiers remain).
    pub fn can_subscribe(&self) -> (b: bool)
        ensures
            b == (self.next_listener() < u64::MAX),
    {
        self.next_id < u64::MAX
    }

    /// The number of registered listeners.
    pub fn len(&self) -> (n: usize)
        ensures
            n == self@.len(),
    {
        self.listeners.len()
    }

    /// Keeps listeners in order: with `Some(id)` all but listener `id`, with
    /// `None` the repeating ones.
    fn retain(&mut self, drop_id: Option<u64>)
        requires
            old(self).wf(),
        ensures
            final(self).wf(),
            final(self).next_listener() == old(self).next_listener(),
            final(self)@ == match drop_id {
                Some(id) => old(self)@.filter(is_not(id)),
                None => old(self)@.filter(is_repeating()),
            },
    {
        let ghost s = self.listeners@;
        let ghost pred = match drop_id {
            Some(id) => is_not(id),
            None => is_repeating(),
        };
        let mut kept: Vec<Listener> = Vec::new();
        let n = self.listeners.len();
        let mut i: usize = 0;
        while i < n
            invariant
                self.wf(),
                self.listeners@ == s,
                n == s.len(),
                i <= n,
                pred == (match drop_id {
                    Some(id) => is_not(id),
                    None => is_repeating(),
                }),
                kept@ == s.take(i as int).filter(pred),
                ids_increasing(kept@),
                forall|k: int| 0 <= k < kept@.len() ==> kept@[k].id < self.next_id,
                forall|k: int, j: int|
                    0 <= k < kept@.len() && i <= j < n ==> kept@[k].id < s[j].id,
            decreases n - i,
        {
            let l = self.listeners[i];
            let keep = match drop_id {
                Some(id) => l.id != id,
                None => l.repeat,
            };
            proof {
                assert(s.take(i + 1) =~= s.take(i as int).push(l));
                s.take(i as int).lemma_filter_push(l, pred);
            }
            if keep {
                kept.push(l);
            }
            i = i + 1;
        }
        proof {
            assert(s.take(n as int) =~= s);
        }
        self.listeners = kept;
    }

    /// Removes listener `id`, if registered; the others keep their order.
    pub fn unsubscribe(&mut self, id: u64)
        requires
            old(self).wf(),
        ensures
            final(self).wf(),
            final(self).next_listener() == old(self).next_listener(),
            final(self)@ == old(self)@.filter(is_not(id)),
    {
        self.retain(Some(id));
    }

    /// Broadcasts one occurrence: every listener registered now receives it
    /// once, in registration order, the first one with the unique view. The
    /// "wait once" listeners are then removed; one registered afterwards
    /// gets a new identifier and never sees this occurrence.
    pub fn run_with(&mut self) -> (r: Vec<Delivery>)
        requires
            old(self).wf(),
        ensures
            final(self).wf(),
            r@ == deliveries(old(self)@),
            final(self)@ == old(self)@.filter(is_repeating()),
            final(self).next_listener() == old(self).next_listener(),
    {
        let mut out: Vec<Delivery> = Vec::new();
        let n = self.listeners.len();
        let mut i: usize = 0;
        while i < n
            invariant
                n == self.listeners@.len(),
                i <= n,
                out@.len() == i,
                forall|k: int|
                    0 <= k < i ==> out@[k] == (Delivery {
                        listener: self.listeners@[k].id,
                        unique: k == 0,
                    }),
            decreases n - i,
        {
            out.push(Delivery { listener: self.listeners[i].id, unique: i == 0 });
            i = i + 1;
        }
        assert(out@ =~= deliveries(self.listeners@));
        self.retain(None);
        out
    }
}

} // verus!
