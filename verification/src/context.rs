//! Futures to interrupt the current task to give timeslices to other
//! pending tasks.

use crate::task::PollContext;
use crate::task::Progress;
use crate::task::Task;
use vstd::prelude::*;

verus! {

/// A future that can be advanced once before it becomes ready; useful to
/// cooperatively give up a timeslice to the runtime/other pending tasks.
///
/// # Behaviour
/// Advancing this future immediately wakes the waker again and yields,
/// making room for other tasks to execute. This is useful for e.g. running
/// intensive loops or similar inside a task.
#[derive(Debug)]
pub struct SpinFuture {
    /// Whether the future has been advanced already or not
    polled: bool,
}

impl SpinFuture {
    /// Creates a new spin future
    ///
    /// # Note
    /// This future should usually not be constructed directly, use
    /// [`spin_once`] instead.
    pub fn new() -> (f: SpinFuture)
        ensures
            f.fuel() == 1,
            f.wakes(),
    {
        SpinFuture { polled: false }
    }
}

impl Default for SpinFuture {
    /// Equivalent to [`SpinFuture::new`]
    fn default() -> (f: SpinFuture)
        ensures
            f.fuel() == 1,
            f.wakes(),
    {
        SpinFuture::new()
    }
}

impl Task for SpinFuture {
    closed spec fn fuel(&self) -> nat {
        if self.polled {
            0
        } else {
            1
        }
    }

    closed spec fn wakes(&self) -> bool {
        true
    }

    fn advance(&mut self, ctx: &mut PollContext) -> (r: Progress) {
        if !self.polled {
            // Mark the future as advanced so that it reports complete the
            // next time
            self.polled = true;
            ctx.wake();
            Progress::Incomplete
        } else {
            // The future has been advanced, so it's complete now
            Progress::Complete
        }
    }
}

/// A function whose result can be advanced once before it becomes ready;
/// useful to cooperatively give up a timeslice to the runtime/other pending
/// tasks.
///
/// # Behaviour
/// Advancing the result immediately wakes the waker again and yields, making
/// room for other tasks to execute.
pub fn spin_once() -> (f: SpinFuture)
    ensures
        f.fuel() == 1,
        f.wakes(),
{
    SpinFuture::new()
}

/// A passive future that can be advanced once before it becomes ready;
/// useful to suspend the current task and give up a timeslice to the
/// runtime/other pending tasks.
///
/// # Behaviour
/// Advancing this future yields immediately WITHOUT waking the waker again,
/// making room for other tasks to execute. This is useful to e.g. suspend
/// the execution of the current routine if it cannot make any progress and
/// has no associated event sources.
///
/// # Important
/// Unlike [`SpinFuture`], this future DOES NOT wake the waker again. If the
/// runtime enters deep-sleep, you MUST ensure there are other pending tasks
/// or event sources to wake it up again.
#[derive(Debug)]
pub struct SleepFuture {
    /// Whether the future has been advanced already or not
    polled: bool,
}

impl SleepFuture {
    /// Creates a new sleep future
    ///
    /// # Note
    /// This future should usually not be constructed directly, use
    /// [`sleep_once`] instead.
    pub fn new() -> (f: SleepFuture)
        ensures
            f.fuel() == 1,
            !f.wakes(),
    {
        SleepFuture { polled: false }
    }
}

impl Default for SleepFuture {
    /// Equivalent to [`SleepFuture::new`]
    fn default() -> (f: SleepFuture)
        ensures
            f.fuel() == 1,
            !f.wakes(),
    {
        SleepFuture::new()
    }
}

impl Task for SleepFuture {
    closed spec fn fuel(&self) -> nat {
        if self.polled {
            0
        } else {
            1
        }
    }

    closed spec fn wakes(&self) -> bool {
        false
    }

    fn advance(&mut self, _ctx: &mut PollContext) -> (r: Progress) {
        if !self.polled {
            // Mark the future as advanced so that it reports complete the
            // next time
            self.polled = true;
            Progress::Incomplete
        } else {
            // The future has been advanced, so it's complete now
            Progress::Complete
        }
    }
}

/// A function whose result can be advanced once before it becomes ready;
/// useful to suspend the current task and give up a timeslice to the
/// runtime/other pending tasks.
///
/// # Important
/// Unlike [`spin_once`], the result DOES NOT wake the waker again. If the
/// runtime enters deep-sleep, you MUST ensure there are other pending tasks
/// or event sources to wake it up again.
pub fn sleep_once() -> (f: SleepFuture)
    ensures
        f.fuel() == 1,
        !f.wakes(),
{
    SleepFuture::new()
}

/// One-shot law: a spin future is never more than one incomplete advance
/// away from completion, and it always requests a wake.
pub proof fn lemma_spin_one_shot(f: SpinFuture)
    ensures
        f.fuel() <= 1,
        f.wakes(),
{
}

/// One-shot law: a sleep future is never more than one incomplete advance
/// away from completion, and it never requests a wake.
pub proof fn lemma_sleep_one_shot(f: SleepFuture)
    ensures
        f.fuel() <= 1,
        !f.wakes(),
{
}

} // verus!
