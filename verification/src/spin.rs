//! A future to spin once to give up a timeslice.

use crate::task::PollContext;
use crate::task::Progress;
use crate::task::Task;
use vstd::prelude::*;

verus! {

/// A future that can be advanced once before it becomes ready; useful to
/// cooperatively give up a timeslice to the runtime/other pending tasks.
///
/// # Behaviour
/// Advancing this future immediately wakes the waker again and yields,
/// making room for other tasks to execute. This is useful for e.g. running
/// intensive loops or similar inside a task.
#[derive(Debug)]
pub struct SpinFuture {
    /// Whether the future has been advanced already or not
    polled: bool,
}

impl SpinFuture {
    /// Creates a new spin future
    ///
    /// # Note
    /// This future should usually not be constructed directly, use
    /// [`spin_once`] instead.
    pub fn new() -> (f: SpinFuture)
        ensures
            f.fuel() == 1,
            f.wakes(),
    {
        SpinFuture { polled: false }
    }
}

impl Default for SpinFuture {
    /// Equivalent to [`SpinFuture::new`]
    fn default() -> (f: SpinFuture)
        ensures
            f.fuel() == 1,
            f.wakes(),
    {
        SpinFuture::new()
    }
}

impl Task for SpinFuture {
    closed spec fn fuel(&self) -> nat {
        if self.polled {
            0
        } else {
            1
        }
    }

    closed spec fn wakes(&self) -> bool {
        true
    }

    fn advance(&mut self, ctx: &mut PollContext) -> (r: Progress) {
        if !self.polled {
            // Mark the future as advanced so that it reports complete the
            // next time
            self.polled = true;
            ctx.wake();
            Progress::Incomplete
        } else {
            // The future has been advanced, so it's complete now
            Progress::Complete
        }
    }
}

/// A function whose result can be advanced once before it becomes ready;
/// useful to cooperatively give up a timeslice to the runtime/other pending
/// tasks.
///
/// # Behaviour
/// Advancing the result immediately wakes the waker again and yields, making
/// room for other tasks to execute.
pub fn spin_once() -> (f: SpinFuture)
    ensures
        f.fuel() == 1,
        f.wakes(),
{
    SpinFuture::new()
}

/// One-shot law: a spin future is never more than one incomplete advance
/// away from completion, and it always requests a wake.
pub proof fn lemma_spin_one_shot(f: SpinFuture)
    ensures
        f.fuel() <= 1,
        f.wakes(),
{
}

} // verus!
