use embedded_runtime::boxes::FutureBox;
use embedded_runtime::context::sleep_once;
use embedded_runtime::context::SleepFuture;
use embedded_runtime::error::Error;
use embedded_runtime::executor::run_to_completion;
use embedded_runtime::executor::Executor;
use embedded_runtime::signal::SignalLatch;
use embedded_runtime::spin::spin_once;
use embedded_runtime::task::PollContext;
use embedded_runtime::task::Progress;
use embedded_runtime::task::Task;
use embedded_runtime::yield_::yield_now;
use embedded_runtime::yield_::YieldFuture;
use std::cell::RefCell;
use std::sync::atomic::AtomicUsize;
use std::sync::atomic::Ordering::SeqCst;

/// A task that logs every advance under its id and completes after a fixed
/// number of wake-requesting incomplete advances
struct RecordingTask<'a> {
    /// The id the task logs its advances under
    id: usize,
    /// How many incomplete advances are left before completion
    fuel: usize,
    /// The shared advance log
    log: &'a RefCell<Vec<usize>>,
}
impl<'a> Task for RecordingTask<'a> {
    fn advance(&mut self, ctx: &mut PollContext) -> Progress {
        self.log.borrow_mut().push(self.id);
        if self.fuel > 0 {
            self.fuel -= 1;
            ctx.wake();
            return Progress::Incomplete;
        }
        Progress::Complete
    }
}

/// A task whose payload is too large for a small container
struct BigTask<'a> {
    /// Padding so the task cannot fit an 8-byte container
    payload: [u64; 8],
    /// A counter that gets increased when the task is dropped
    dropped: &'a AtomicUsize,
}
impl<'a> Drop for BigTask<'a> {
    fn drop(&mut self) {
        self.dropped.fetch_add(1, SeqCst);
    }
}
impl<'a> Task for BigTask<'a> {
    fn advance(&mut self, _ctx: &mut PollContext) -> Progress {
        Progress::Complete
    }
}

#[test]
fn latch_retains_signal() {
    let mut latch = SignalLatch::new();
    assert!(!latch.is_set());
    // Waiting without a raise observes nothing: a spurious return
    assert!(!latch.wait());
    // Any number of raises since the previous wait is retained, coalesced
    // into one wakeup
    latch.raise();
    latch.raise();
    assert!(latch.is_set());
    assert!(latch.wait());
    // The wait consumed the signal
    assert!(!latch.is_set());
    assert!(!latch.wait());
}

#[test]
fn one_shot_spin() {
    let mut ctx = PollContext::new();
    assert!(!ctx.signal_pending());
    let mut spin = spin_once();
    // The first advance reports incomplete and wakes exactly once
    assert!(matches!(spin.advance(&mut ctx), Progress::Incomplete));
    assert!(ctx.signal_pending());
    assert!(ctx.wait_for_event());
    // Any subsequent advance reports complete without waking again
    assert!(matches!(spin.advance(&mut ctx), Progress::Complete));
    assert!(matches!(spin.advance(&mut ctx), Progress::Complete));
    assert!(!ctx.signal_pending());
}

#[test]
fn one_shot_yield() {
    let mut ctx = PollContext::new();
    let mut yielded = yield_now();
    assert!(matches!(yielded.advance(&mut ctx), Progress::Incomplete));
    assert!(ctx.signal_pending());
    assert!(ctx.wait_for_event());
    assert!(matches!(yielded.advance(&mut ctx), Progress::Complete));
    assert!(matches!(yielded.advance(&mut ctx), Progress::Complete));
    assert!(!ctx.signal_pending());
    // The two spellings of the primitive behave alike
    let mut direct = YieldFuture::new();
    assert!(matches!(direct.advance(&mut ctx), Progress::Incomplete));
    assert!(ctx.signal_pending());
}

#[test]
fn one_shot_sleep() {
    let mut ctx = PollContext::new();
    let mut sleep = sleep_once();
    // Sleep reports incomplete WITHOUT waking anything
    assert!(matches!(sleep.advance(&mut ctx), Progress::Incomplete));
    assert!(!ctx.signal_pending());
    assert!(matches!(sleep.advance(&mut ctx), Progress::Complete));
    assert!(matches!(sleep.advance(&mut ctx), Progress::Complete));
    assert!(!ctx.signal_pending());
    let mut direct = SleepFuture::new();
    assert!(matches!(direct.advance(&mut ctx), Progress::Incomplete));
    assert!(!ctx.signal_pending());
}

#[test]
fn capacity_is_enforced() {
    // Registering LEN + 1 tasks into a capacity-LEN executor succeeds for
    // the first LEN and fails with a capacity error on the last one
    let mut executor: Executor<SleepFuture, 4> = Executor::new();
    for _ in 0usize..4 {
        assert!(executor.register(SleepFuture::new()).is_ok());
    }
    let rejected = executor.register(SleepFuture::new());
    let error = match rejected {
        Ok(_) => panic!("over-capacity registration must fail"),
        Err(error) => error,
    };
    assert_eq!(error.message, "Executor has not enough space to register more futures");
    // The earlier registrations are unaffected by the failure: the run
    // still drains all four tasks
    executor.run();
}

#[test]
fn run_to_completion_surfaces_capacity_error() {
    let tasks = vec![SleepFuture::new(), SleepFuture::new(), SleepFuture::new()];
    assert!(run_to_completion::<SleepFuture, 2>(tasks).0.is_err());
    let tasks = vec![SleepFuture::new(), SleepFuture::new()];
    assert!(run_to_completion::<SleepFuture, 2>(tasks).0.is_ok());
}

#[test]
fn liveness_exact_advance_count() {
    // A task requiring exactly 7 wake-requesting incomplete results before
    // completing is advanced exactly 8 times
    let log = RefCell::new(Vec::new());
    let tasks = vec![RecordingTask { id: 1, fuel: 7, log: &log }];
    run_to_completion::<RecordingTask, 8>(tasks).0.expect("failed to run countdown");
    assert_eq!(log.borrow().len(), 8);
}

#[test]
fn mixed_task_ordering() {
    // Task 1 completes after 1 sweep, task 2 after 3 sweeps: the run takes
    // exactly 3 sweeps, polls in registration order within each sweep, and
    // never advances task 1 after the sweep in which it completed
    let log = RefCell::new(Vec::new());
    let tasks = vec![
        RecordingTask { id: 1, fuel: 0, log: &log },
        RecordingTask { id: 2, fuel: 2, log: &log },
    ];
    run_to_completion::<RecordingTask, 8>(tasks).0.expect("failed to run tasks");
    assert_eq!(*log.borrow(), vec![1, 2, 2, 2]);
}

#[test]
fn container_round_trip() {
    // Advancing a task through the container yields an identical sequence
    // of incomplete/complete results as advancing it directly
    let log_direct = RefCell::new(Vec::new());
    let log_boxed = RefCell::new(Vec::new());
    let mut ctx = PollContext::new();

    let mut direct = RecordingTask { id: 1, fuel: 2, log: &log_direct };
    let boxed = RecordingTask { id: 1, fuel: 2, log: &log_boxed };
    let mut boxed: FutureBox<RecordingTask, 64> = match FutureBox::new(boxed) {
        Ok(boxed) => boxed,
        Err(_) => panic!("failed to box task"),
    };

    let mut direct_results = Vec::new();
    let mut boxed_results = Vec::new();
    for _ in 0usize..4 {
        direct_results.push(matches!(direct.advance(&mut ctx), Progress::Complete));
        boxed_results.push(matches!(boxed.advance(&mut ctx), Progress::Complete));
    }
    assert_eq!(direct_results, boxed_results);
    assert_eq!(direct_results, vec![false, false, true, true]);
    assert_eq!(*log_direct.borrow(), *log_boxed.borrow());
}

#[test]
fn container_rejects_oversized_task() {
    // Boxing an oversized task fails, hands the task back untouched, and
    // neither double-destroys nor leaks it
    let dropped = AtomicUsize::new(0);
    {
        let task = BigTask { payload: [7; 8], dropped: &dropped };
        let result: Result<FutureBox<BigTask, 8>, (BigTask, Error)> = FutureBox::new(task);
        let (returned, error) = match result {
            Ok(_) => panic!("oversized task must be rejected"),
            Err(pair) => pair,
        };
        assert_eq!(error.message, "Future is too large");
        // The input task is untouched and still owned by the caller
        assert_eq!(returned.payload, [7; 8]);
        assert_eq!(dropped.load(SeqCst), 0);
        // A generous enough container still accepts the very same task
        let mut ctx = PollContext::new();
        let mut boxed: FutureBox<BigTask, 128> = match FutureBox::new(returned) {
            Ok(boxed) => boxed,
            Err(_) => panic!("failed to box task"),
        };
        assert!(matches!(boxed.advance(&mut ctx), Progress::Complete));
    }
    // Destroyed exactly once, by the accepting container
    assert_eq!(dropped.load(SeqCst), 1);
}

#[test]
fn sweep_by_sweep_embedding_loop() {
    // The single-sweep entry point lets an embedding interleave its own
    // blocking wait: each sweep advances every live task exactly once, in
    // registration order, and the executor drains once the last sweep
    // finds nothing left
    let log = RefCell::new(Vec::new());
    let mut executor: Executor<RecordingTask, 4> = Executor::new();
    assert!(executor.register(RecordingTask { id: 1, fuel: 0, log: &log }).is_ok());
    assert!(executor.register(RecordingTask { id: 2, fuel: 2, log: &log }).is_ok());
    let mut ctx = PollContext::new();
    let mut sweeps: usize = 0;
    while !executor.is_drained() {
        let live = executor.sweep(&mut ctx);
        sweeps += 1;
        assert_eq!(live == 0, executor.is_drained());
        if live > 0 {
            // A wake-requesting task was left live, so the signal must be
            // pending: an embedding would consume it instead of sleeping
            assert!(ctx.signal_pending());
            assert!(ctx.wait_for_event());
        }
    }
    assert_eq!(sweeps, 3);
    assert_eq!(*log.borrow(), vec![1, 2, 2, 2]);
}

#[test]
fn waker_is_cloneable_and_stateless() {
    let mut latch = SignalLatch::new();
    let waker = embedded_runtime::waker::new();
    // A clone is an equivalent handle: waking through it raises the signal
    let cloned = waker.clone();
    cloned.wake_by_ref(&mut latch);
    assert!(latch.is_set());
    assert!(latch.wait());
    // A consuming wake raises the signal just the same
    waker.wake(&mut latch);
    assert!(latch.is_set());
    // Releasing a handle is a no-op: no signal is raised
    let mut fresh = SignalLatch::new();
    embedded_runtime::waker::new().release();
    assert!(!fresh.is_set());
    assert!(!fresh.wait());
    // The waker carried by a poll context is an equivalent handle too
    let ctx = PollContext::new();
    ctx.waker().wake_by_ref(&mut fresh);
    assert!(fresh.is_set());
}

#[test]
fn default_primitives_match_new() {
    let mut ctx = PollContext::new();
    let mut spin: embedded_runtime::spin::SpinFuture = Default::default();
    assert!(matches!(spin.advance(&mut ctx), Progress::Incomplete));
    assert!(ctx.signal_pending());
    assert!(matches!(spin.advance(&mut ctx), Progress::Complete));
    assert!(ctx.wait_for_event());
    let mut sleep: SleepFuture = Default::default();
    assert!(matches!(sleep.advance(&mut ctx), Progress::Incomplete));
    assert!(!ctx.signal_pending());
    assert!(matches!(sleep.advance(&mut ctx), Progress::Complete));
}

#[test]
fn error_describes_its_location() {
    let error = Error::new("something failed", "machine.rs", 42);
    assert_eq!(error.describe(), "something failed at machine.rs:42");
}
