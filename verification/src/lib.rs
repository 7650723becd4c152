//! A minimal cooperative task scheduler for bare-metal, single-core targets.
//!
//! Independently written tasks interleave on one thread of control. An
//! [`executor::Executor`] sweeps all live tasks in registration order,
//! polling each one exactly once per sweep, and consumes a retained event
//! signal between sweeps; a hardware embedding drives the single-sweep
//! entry point [`Executor::sweep`] and interleaves the platform's own
//! blocking wait. Tasks request another sweep through a shared, stateless
//! waker; the cooperative primitives ([`spin::SpinFuture`],
//! [`context::SleepFuture`], [`yield_::YieldFuture`]) let a task voluntarily
//! give up its turn.

pub mod boxes;
pub mod context;
pub mod error;
pub mod executor;
pub mod signal;
pub mod spin;
pub mod task;
pub mod waker;
pub mod yield_;

pub use crate::executor::Executor;
pub use crate::spin::spin_once;
