//! The waker: the capability a task uses to request another sweep.

use crate::signal::SignalLatch;
use vstd::prelude::*;

verus! {

/// A stateless, cloneable handle that raises the event signal.
///
/// Wake is a global broadcast: any task's wake request causes the next sweep
/// to repoll every live task, not just the requester. Because of that, one
/// waker suffices for an entire executor run, and cloning costs nothing —
/// there is no payload to copy.
#[derive(Debug, Clone, Copy)]
pub struct Waker {}

impl Waker {
    /// Wakes, consuming the handle: raises the event signal
    pub fn wake(self, latch: &mut SignalLatch)
        ensures
            final(latch).is_raised(),
    {
        latch.raise();
    }

    /// Wakes without consuming the handle: raises the event signal
    pub fn wake_by_ref(&self, latch: &mut SignalLatch)
        ensures
            final(latch).is_raised(),
    {
        latch.raise();
    }

    /// Releases the handle without waking: a no-op, since the handle holds
    /// no resources
    pub fn release(self) {
    }
}

/// Creates a new waker
pub fn new() -> (waker: Waker) {
    Waker {}
}

} // verus!
