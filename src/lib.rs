//! An awaitable bridge between a callback-driven native event loop and
//! cooperative tasks: the reactor, its timer wheel, the per-event broadcasters
//! and the per-window registrations, each with the decisions proved.
use vstd::prelude::*;

pub mod handler;
pub mod oneoff;
pub mod reactor;
pub mod timer;
pub mod registration;
pub mod wheel;

verus! {

/// A token that only this crate can build: a trait method that takes one
/// cannot be implemented outside the crate.
pub struct Internal {
    sealed: (),
}

} // verus!
