//! The completion channel: answers one cross-thread request exactly once.
//! The sending side fills it at most once; the waiting side takes the value
//! at most once.
use vstd::prelude::*;

verus! {

/// A one-shot result slot.
pub struct Complete<T> {
    value: Option<T>,
    sent: bool,
}

impl<T> Complete<T> {
    /// Whether a value has ever been sent.
    pub closed spec fn sent(&self) -> bool {
        self.sent
    }

    /// The value sent and not yet taken.
    pub closed spec fn value(&self) -> Option<T> {
        self.value
    }

    pub closed spec fn wf(&self) -> bool {
        self.value is Some ==> self.sent
    }

    /// An empty slot.
    pub fn new() -> (c: Complete<T>)
        ensures
            c.wf(),
            !c.sent(),
            c.value() is None,
    {
        Complete { value: None, sent: false }
    }

    /// Delivers `v`. A slot delivers once: a second value is handed back.
    pub fn send(&mut self, v: T) -> (r: Result<(), T>)
        requires
            old(self).wf(),
        ensures
            final(self).wf(),
            final(self).sent(),
            !old(self).sent() ==> r is Ok && final(self).value() == Some(v),
            old(self).sent() ==> r == Err::<(), T>(v) && final(self).value() == old(self).value(),
    {
        if self.sent {
            return Err(v);
        }
        self.value = Some(v);
        self.sent = true;
        Ok(())
    }

    /// Takes the delivered value, if it has come and was not taken before.
    pub fn take(&mut self) -> (r: Option<T>)
        requires
            old(self).wf(),
        ensures
            final(self).wf(),
            r == old(self).value(),
            final(self).value() is None,
            final(self).sent() == old(self).sent(),
    {
        self.value.take()
    }

    /// Whether a value has been sent (and possibly taken already).
    pub fn is_sent(&self) -> (b: bool)
        ensures
            b == self.sent(),
    {
        self.sent
    }
}

} // verus!
