//! The event signal: a latch that remembers an unconsumed raise across time.
//!
//! This is the host-side model of the platform event primitive: raising the
//! signal records that an event occurred, and waiting consumes it. A raised
//! signal is retained until the next wait, so a wake request can never be
//! lost between sweeps. Hardware backends (a low-power-wait/event-latch
//! instruction pair) realise the same contract outside this crate.

use vstd::prelude::*;

verus! {

/// A latch that remembers an unconsumed raise-signal event.
///
/// The latch is the single piece of shared state of the whole runtime: the
/// waker raises it, and the executor consumes it between sweeps.
pub struct SignalLatch {
    /// Whether an unconsumed raise has occurred
    raised: bool,
}

impl SignalLatch {
    /// Whether an unconsumed raise has occurred
    pub closed spec fn is_raised(&self) -> bool {
        self.raised
    }

    /// Creates a latch with no pending signal
    pub fn new() -> (latch: SignalLatch)
        ensures
            !latch.is_raised(),
    {
        SignalLatch { raised: false }
    }

    /// Records that a signal occurred. The signal remains visible to the
    /// next wait, however many raises are coalesced into it.
    pub fn raise(&mut self)
        ensures
            final(self).is_raised(),
    {
        self.raised = true;
    }

    /// Whether an unconsumed raise has occurred, as an executable probe of
    /// the latch state
    pub fn is_set(&self) -> (set: bool)
        ensures
            set == self.is_raised(),
    {
        self.raised
    }

    /// One wait on the latch: consumes a pending signal and reports whether
    /// one was pending. A pending signal makes the wait return immediately;
    /// without one the caller may treat the return as a spurious wakeup,
    /// which the platform contract permits.
    pub fn wait(&mut self) -> (had_signal: bool)
        ensures
            had_signal == old(self).is_raised(),
            !final(self).is_raised(),
    {
        let had_signal = self.raised;
        self.raised = false;
        had_signal
    }
}

/// One operation of an interleaving of raise and wait calls on a latch
pub enum LatchOp {
    /// A raise-signal call
    Raise,
    /// A wait call, which consumes any pending signal when it returns
    Wait,
}

/// The latch state after an interleaving `ops` has run on a latch that
/// started in state `init`
pub open spec fn latch_after(init: bool, ops: Seq<LatchOp>) -> bool
    decreases ops.len(),
{
    if ops.len() == 0 {
        init
    } else {
        match ops.last() {
            LatchOp::Raise => true,
            LatchOp::Wait => false,
        }
    }
}

/// What the wait at position `i` of the interleaving observes: `true` means
/// a signal was pending, so the wait consumes it and returns immediately
/// instead of blocking.
pub open spec fn wait_observes(init: bool, ops: Seq<LatchOp>, i: int) -> bool
    recommends
        0 <= i < ops.len(),
        ops[i] is Wait,
{
    latch_after(init, ops.take(i))
}

/// No lost wakeups: in any interleaving of raise and wait calls, a wait
/// observes a signal — and so returns immediately without blocking —
/// whenever some raise occurred since the previous wait returned.
pub proof fn lemma_no_lost_wakeup(init: bool, ops: Seq<LatchOp>, i: int, j: int)
    requires
        0 <= j < i < ops.len(),
        ops[i] is Wait,
        ops[j] is Raise,
        forall|k: int| j < k < i ==> !(ops[k] is Wait),
    ensures
        wait_observes(init, ops, i),
{
    let prefix = ops.take(i);
    assert(prefix.last() == ops[i - 1]);
    if j < i - 1 {
        assert(!(ops[i - 1] is Wait));
    }
}

} // verus!
