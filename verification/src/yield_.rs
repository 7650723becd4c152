//! A future to yield once to give up a timeslice.

use crate::task::PollContext;
use crate::task::Progress;
use crate::task::Task;
use vstd::prelude::*;

verus! {

/// A future that must be advanced once before it becomes ready; useful to
/// cooperatively give up a timeslice to the runtime/other pending tasks.
///
/// Advancing this future moves the currently executing task to the back of
/// the execution queue, making room for other tasks to execute. This is
/// especially useful after running CPU-intensive operations inside a task.
#[derive(Debug)]
pub struct YieldFuture {
    /// Whether the future has been advanced already or not
    polled: bool,
}

impl YieldFuture {
    /// Creates a new yielding future
    ///
    /// # Note
    /// This future should usually not be constructed directly, use
    /// [`yield_now`] instead.
    pub fn new() -> (f: YieldFuture)
        ensures
            f.fuel() == 1,
            f.wakes(),
    {
        YieldFuture { polled: false }
    }
}

impl Task for YieldFuture {
    closed spec fn fuel(&self) -> nat {
        if self.polled {
            0
        } else {
            1
        }
    }

    closed spec fn wakes(&self) -> bool {
        true
    }

    fn advance(&mut self, ctx: &mut PollContext) -> (r: Progress) {
        if !self.polled {
            // Mark the future as advanced so that it reports complete the
            // next time
            self.polled = true;
            ctx.wake();
            Progress::Incomplete
        } else {
            // The future has been advanced, so it's complete now
            Progress::Complete
        }
    }
}

/// Cooperatively gives up a timeslice to the runtime/other pending tasks.
///
/// Advancing the result moves the currently executing task to the back of
/// the execution queue, making room for other tasks to execute. This is
/// especially useful after running CPU-intensive operations inside a task.
pub fn yield_now() -> (f: YieldFuture)
    ensures
        f.fuel() == 1,
        f.wakes(),
{
    YieldFuture::new()
}

/// One-shot law: a yield future is never more than one incomplete advance
/// away from completion, and it always requests a wake.
pub proof fn lemma_yield_one_shot(f: YieldFuture)
    ensures
        f.fuel() <= 1,
        f.wakes(),
{
}

} // verus!
