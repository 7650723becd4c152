//! A stack-allocated container for tasks.

use crate::error::Error;
use crate::task::PollContext;
use crate::task::Progress;
use crate::task::Task;
use vstd::prelude::*;

verus! {

/// The alignment guarantee of the task storage: a task whose concrete type
/// needs a stricter alignment cannot be boxed
pub const STORAGE_ALIGN: usize = 64;

/// A fixed-size container for one task, chosen at construction and then
/// interacted with only through the uniform advance interface.
///
/// Construction validates that the concrete task type fits the fixed
/// storage budget: its size must be at most `SIZE` bytes and its alignment
/// at most [`STORAGE_ALIGN`]. On success the container takes ownership of
/// the task, and the task is destroyed exactly once, together with the
/// container. On failure the task is handed back to the caller untouched.
pub struct FutureBox<T, const SIZE: usize> {
    /// The task the container owns
    task: T,
}

impl<T: Task, const SIZE: usize> FutureBox<T, SIZE> {
    /// The task held by the container
    pub closed spec fn inner(&self) -> T {
        self.task
    }

    /// Whether a value of the task's concrete type fits the fixed storage:
    /// its size is at most `SIZE` and its alignment at most
    /// [`STORAGE_ALIGN`]
    pub open spec fn fits() -> bool {
        vstd::layout::size_of::<T>() <= SIZE as nat && vstd::layout::align_of::<T>()
            <= STORAGE_ALIGN as nat
    }

    /// Boxes the given task.
    ///
    /// Succeeds exactly when the task's concrete type fits the storage
    /// budget; the container then owns the given task. Otherwise the task
    /// is returned to the caller untouched, beside a sizing error.
    pub fn new(task: T) -> (r: Result<Self, (T, Error)>)
        ensures
            Self::fits() ==> (r matches Ok(b) && b.inner() == task),
            !Self::fits() ==> (r matches Err(p) && p.0 == task),
            vstd::layout::size_of::<T>() > SIZE as nat ==> (r matches Err(p) && p.1.message@
                == "Future is too large"@),
            (vstd::layout::size_of::<T>() <= SIZE as nat && vstd::layout::align_of::<T>()
                > STORAGE_ALIGN as nat) ==> (r matches Err(p) && p.1.message@
                == "Future has an unsupported alignment"@),
    {
        // Validate type size and alignment
        if core::mem::size_of::<T>() > SIZE {
            return Err((task, Error::new("Future is too large", "boxes.rs", 59)));
        }
        if core::mem::align_of::<T>() > STORAGE_ALIGN {
            return Err((task, Error::new("Future has an unsupported alignment", "boxes.rs", 62)));
        }
        Ok(FutureBox { task })
    }
}

impl<T: Task, const SIZE: usize> Task for FutureBox<T, SIZE> {
    closed spec fn fuel(&self) -> nat {
        self.task.fuel()
    }

    closed spec fn wakes(&self) -> bool {
        self.task.wakes()
    }

    fn advance(&mut self, ctx: &mut PollContext) -> (r: Progress) {
        // All interaction with the boxed task goes through its own advance
        self.task.advance(ctx)
    }
}

/// Container round-trip law: a boxed task keeps exactly the fuel and wake
/// behaviour of the task it holds, so advancing it through the container
/// yields the identical sequence and count of incomplete/complete reports
/// as advancing the task directly.
pub proof fn lemma_box_transparent<T: Task, const SIZE: usize>(b: FutureBox<T, SIZE>)
    ensures
        b.fuel() == b.inner().fuel(),
        b.wakes() == b.inner().wakes(),
{
}

} // verus!
