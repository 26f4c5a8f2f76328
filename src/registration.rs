//! Per-window registration: one broadcaster per native window event kind,
//! and the demultiplexing of a window's events onto them.
use vstd::prelude::*;
use crate::handler::{deliveries, is_not, is_repeating, Delivery, Handler, Listener};

verus! {

/// The number of window event kinds that have a broadcaster.
pub const KIND_COUNT: usize = 24;

/// The kinds of native window events that listeners can await.
#[derive(PartialEq, Eq, Structural, Debug, Clone, Copy)]
pub enum WindowEventKind {
    RedrawRequested,
    CloseRequested,
    Resized,
    Moved,
    Destroyed,
    Focused,
    ReceivedCharacter,
    KeyboardInput,
    ModifiersChanged,
    Ime,
    CursorMoved,
    CursorEntered,
    CursorLeft,
    MouseWheel,
    MouseInput,
    TouchpadMagnify,
    SmartMagnify,
    TouchpadRotate,
    TouchpadPressure,
    AxisMotion,
    Touch,
    ScaleFactorChanged,
    ThemeChanged,
    Occluded,
}

impl WindowEventKind {
    /// The position of this kind's broadcaster in a registration.
    pub open spec fn slot(self) -> int {
        match self {
            WindowEventKind::RedrawRequested => 0,
            WindowEventKind::CloseRequested => 1,
            WindowEventKind::Resized => 2,
            WindowEventKind::Moved => 3,
            WindowEventKind::Destroyed => 4,
            WindowEventKind::Focused => 5,
            WindowEventKind::ReceivedCharacter => 6,
            WindowEventKind::KeyboardInput => 7,
            WindowEventKind::ModifiersChanged => 8,
            WindowEventKind::Ime => 9,
            WindowEventKind::CursorMoved => 10,
            WindowEventKind::CursorEntered => 11,
            WindowEventKind::CursorLeft => 12,
            WindowEventKind::MouseWheel => 13,
            WindowEventKind::MouseInput => 14,
            WindowEventKind::TouchpadMagnify => 15,
            WindowEventKind::SmartMagnify => 16,
            WindowEventKind::TouchpadRotate => 17,
            WindowEventKind::TouchpadPressure => 18,
            WindowEventKind::AxisMotion => 19,
            WindowEventKind::Touch => 20,
            WindowEventKind::ScaleFactorChanged => 21,
            WindowEventKind::ThemeChanged => 22,
            WindowEventKind::Occluded => 23,
        }
    }

    /// The position of this kind's broadcaster in a registration.
    pub fn index(&self) -> (i: usize)
        ensures
            i == self.slot(),
            i < KIND_COUNT,
    {
        match self {
            WindowEventKind::RedrawRequested => 0,
            WindowEventKind::CloseRequested => 1,
            WindowEventKind::Resized => 2,
            WindowEventKind::Moved => 3,
            WindowEventKind::Destroyed => 4,
            WindowEventKind::Focused => 5,
            WindowEventKind::ReceivedCharacter => 6,
            WindowEventKind::KeyboardInput => 7,
            WindowEventKind::ModifiersChanged => 8,
            WindowEventKind::Ime => 9,
            WindowEventKind::CursorMoved => 10,
            WindowEventKind::CursorEntered => 11,
            WindowEventKind::CursorLeft => 12,
            WindowEventKind::MouseWheel => 13,
            WindowEventKind::MouseInput => 14,
            WindowEventKind::TouchpadMagnify => 15,
            WindowEventKind::SmartMagnify => 16,
            WindowEventKind::TouchpadRotate => 17,
            WindowEventKind::TouchpadPressure => 18,
            WindowEventKind::AxisMotion => 19,
            WindowEventKind::Touch => 20,
            WindowEventKind::ScaleFactorChanged => 21,
            WindowEventKind::ThemeChanged => 22,
            WindowEventKind::Occluded => 23,
        }
    }
}

/// `after` is `before` once an occurrence of `kind` has been broadcast:
/// the "wait once" listeners of `kind` are gone, all else is as it was.
pub open spec fn after_signal(before: Registration, after: Registration, kind: WindowEventKind) -> bool {
    &&& after.wf()
    &&& after.listeners(kind) == before.listeners(kind).filter(is_repeating())
    &&& forall|k: WindowEventKind| #[trigger] after.next_listener(k) == before.next_listener(k)
    &&& forall|k: WindowEventKind| k != kind ==> #[trigger] after.listeners(k) == before.listeners(k)
}

/// The scale-factor event kind: listeners after the first receive a
/// downgraded copy of the payload instead of the exclusive size writer.
pub struct ScaleFactor;

/// The broadcasters of one live window, one per event kind.
pub struct Registration {
    handlers: Vec<Handler>,
}

impl Registration {
    pub closed spec fn wf(&self) -> bool {
        &&& self.handlers@.len() == KIND_COUNT
        &&& forall|i: int| 0 <= i < KIND_COUNT ==> #[trigger] self.handlers@[i].wf()
    }

    /// The listeners awaiting events of `kind`, in registration order.
    pub closed spec fn listeners(&self, kind: WindowEventKind) -> Seq<Listener> {
        self.handlers@[kind.slot()]@
    }

    /// The identifier the next listener for `kind` will get.
    pub closed spec fn next_listener(&self, kind: WindowEventKind) -> u64 {
        self.handlers@[kind.slot()].next_listener()
    }

    /// A registration with no listeners.
    pub fn new() -> (r: Registration)
        ensures
            r.wf(),
            forall|k: WindowEventKind|
                #[trigger] r.listeners(k) == Seq::<Listener>::empty() && r.next_listener(k) == 0,
    {
        let mut handlers: Vec<Handler> = Vec::new();
        let mut i: usize = 0;
        while i < KIND_COUNT
            invariant
                i <= KIND_COUNT,
                handlers@.len() == i,
                forall|j: int|
                    0 <= j < i ==> #[trigger] handlers@[j].wf() && handlers@[j]@ == Seq::<
                        Listener,
                    >::empty() && handlers@[j].next_listener() == 0,
            decreases KIND_COUNT - i,
        {
            handlers.push(Handler::new());
            i = i + 1;
        }
        let r = Registration { handlers };
        assert forall|k: WindowEventKind|
            #[trigger] r.listeners(k) == Seq::<Listener>::empty() && r.next_listener(k) == 0 by {
            assert(0 <= k.slot() < KIND_COUNT);
            assert(r.handlers@[k.slot()].wf());
        }
        r
    }

    /// Whether another listener for `kind` can be registered.
    pub fn can_subscribe(&self, kind: WindowEventKind) -> (b: bool)
        requires
            self.wf(),
        ensures
            b == (self.next_listener(kind) < u64::MAX),
    {
        self.handlers[kind.index()].can_subscribe()
    }

    /// Registers a listener for events of `kind`.
    pub fn subscribe(&mut self, kind: WindowEventKind, repeat: bool) -> (id: u64)
        requires
            old(self).wf(),
            old(self).next_listener(kind) < u64::MAX,
        ensures
            final(self).wf(),
            id == old(self).next_listener(kind),
            final(self).listeners(kind) == old(self).listeners(kind).push(Listener { id, repeat }),
            final(self).next_listener(kind) == id + 1,
            forall|k: WindowEventKind|
                k != kind ==> #[trigger] final(self).listeners(k) == old(self).listeners(k)
                    && final(self).next_listener(k) == old(self).next_listener(k),
    {
        let i = kind.index();
        let id = self.handlers[i].subscribe(repeat);
        id
    }

    /// Removes listener `id` of `kind`, if registered.
    pub fn unsubscribe(&mut self, kind: WindowEventKind, id: u64)
        requires
            old(self).wf(),
        ensures
            final(self).wf(),
            final(self).listeners(kind) == old(self).listeners(kind).filter(is_not(id)),
            forall|k: WindowEventKind|
                #[trigger] final(self).next_listener(k) == old(self).next_listener(k),
            forall|k: WindowEventKind|
                k != kind ==> #[trigger] final(self).listeners(k) == old(self).listeners(k),
    {
        let i = kind.index();
        self.handlers[i].unsubscribe(id);
    }

    /// Routes one occurrence of `kind` to its broadcaster, which delivers it
    /// to each of its listeners; the other broadcasters are untouched.
    pub fn signal(&mut self, kind: WindowEventKind) -> (r: Vec<Delivery>)
        requires
            old(self).wf(),
        ensures
            r@ == deliveries(old(self).listeners(kind)),
            after_signal(*old(self), *final(self), kind),
    {
        let i = kind.index();
        self.handlers[i].run_with()
    }
}

} // verus!
