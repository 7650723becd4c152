//! Tasks and the poll context they are advanced with.

use crate::signal::SignalLatch;
use crate::waker;
use crate::waker::Waker;
use vstd::prelude::*;

verus! {

/// What a single advance of a task reports
#[derive(Debug, Clone, Copy, PartialEq, Eq, Structural)]
pub enum Progress {
    /// The task has more work to do and implicitly asks to be polled again
    /// on a future sweep
    Incomplete,
    /// The task is done; its slot can be freed
    Complete,
}

/// An ephemeral value passed into each advance call.
///
/// It carries the current waker together with the event signal that the
/// waker raises, and it keeps a ghost count of how often a wake was
/// requested through it.
pub struct PollContext {
    /// The current waker, shared by all tasks of the run
    waker: Waker,
    /// The signal the waker raises and the executor consumes between sweeps
    latch: SignalLatch,
    /// How many wake requests went through this context
    wakes: Ghost<nat>,
}

impl PollContext {
    /// Whether an unconsumed wake signal is pending
    pub closed spec fn signaled(&self) -> bool {
        self.latch.is_raised()
    }

    /// How many wake requests went through this context
    pub closed spec fn wake_count(&self) -> nat {
        self.wakes@
    }

    /// Creates a fresh context with its own waker and a clear signal
    pub fn new() -> (ctx: PollContext)
        ensures
            !ctx.signaled(),
            ctx.wake_count() == 0,
    {
        PollContext { waker: waker::new(), latch: SignalLatch::new(), wakes: Ghost(0) }
    }

    /// A reference to the current waker
    pub fn waker(&self) -> (w: &Waker) {
        &self.waker
    }

    /// Requests another sweep: wakes through the current waker without
    /// consuming it, which raises the event signal
    pub fn wake(&mut self)
        ensures
            final(self).signaled(),
            final(self).wake_count() == old(self).wake_count() + 1,
    {
        self.waker.wake_by_ref(&mut self.latch);
        self.wakes = Ghost(self.wakes@ + 1);
    }

    /// Whether an unconsumed wake signal is pending, as an executable
    /// probe of the signal state
    pub fn signal_pending(&self) -> (pending: bool)
        ensures
            pending == self.signaled(),
    {
        self.latch.is_set()
    }

    /// One wait on the event signal, issued by the executor between sweeps:
    /// consumes a pending signal and reports whether one was pending. With a
    /// signal pending the wait returns immediately; without one, a hardware
    /// backend would block here until the next raise.
    pub fn wait_for_event(&mut self) -> (had_signal: bool)
        ensures
            had_signal == old(self).signaled(),
            !final(self).signaled(),
            final(self).wake_count() == old(self).wake_count(),
    {
        self.latch.wait()
    }
}

/// A unit of work the executor can schedule.
///
/// A task exposes a single operation, advance, which reports either
/// incomplete — with an implicit request to be polled again on a future
/// sweep — or complete. The specification models a task by two values: its
/// fuel, the exact number of incomplete advances it will report before
/// completing, and whether those incomplete advances request a wake.
pub trait Task: Sized {
    /// How many incomplete advances the task will report before it reports
    /// complete. A task type that does not say otherwise is modelled as
    /// completing on its first advance.
    open spec fn fuel(&self) -> nat {
        0
    }

    /// Whether each incomplete advance of the task requests a wake; a task
    /// that does not must rely on some other task or interrupt to raise the
    /// signal, or the scheduler may block indefinitely at its next wait. A
    /// task type that does not say otherwise is modelled as not waking.
    open spec fn wakes(&self) -> bool {
        false
    }

    /// Advances the task once. While fuel remains, the task reports
    /// incomplete and burns one unit; once the fuel is gone it reports
    /// complete. A wake-requesting task raises the signal on exactly its
    /// incomplete advances; no task ever consumes a pending signal.
    fn advance(&mut self, ctx: &mut PollContext) -> (r: Progress)
        ensures
            final(self).wakes() == old(self).wakes(),
            old(self).fuel() > 0 ==> (r is Incomplete) && final(self).fuel() + 1 == old(self).fuel(),
            old(self).fuel() == 0 ==> (r is Complete) && final(self).fuel() == 0,
            (old(self).fuel() > 0 && old(self).wakes()) ==> final(ctx).signaled()
                && final(ctx).wake_count() == old(ctx).wake_count() + 1,
            (old(self).fuel() > 0 && !old(self).wakes()) ==> final(ctx).signaled() == old(ctx).signaled()
                && final(ctx).wake_count() == old(ctx).wake_count(),
            old(self).fuel() == 0 ==> final(ctx).signaled() == old(ctx).signaled()
                && final(ctx).wake_count() == old(ctx).wake_count(),
    ;
}

} // verus!
