use embedded_runtime::executor::run_to_completion;
use embedded_runtime::task::PollContext;
use embedded_runtime::task::Progress;
use embedded_runtime::task::Task;
use std::sync::atomic::AtomicUsize;
use std::sync::atomic::Ordering::SeqCst;
use std::time::Duration;
use std::time::Instant;

/// A simple timer future that completes once its deadline has passed
struct TimerFuture<'a> {
    /// When the timer is done
    deadline: Instant,
    /// The amount of times this future was advanced
    polled: &'a AtomicUsize,
}
impl<'a> TimerFuture<'a> {
    /// Creates a timer future that is pending for `duration`
    pub fn delay(duration: Duration, polled: &'a AtomicUsize) -> Self {
        Self { deadline: Instant::now() + duration, polled }
    }
}
impl<'a> Task for TimerFuture<'a> {
    fn advance(&mut self, _ctx: &mut PollContext) -> Progress {
        self.polled.fetch_add(1, SeqCst);
        if Instant::now() >= self.deadline {
            Progress::Complete
        } else {
            Progress::Incomplete
        }
    }
}

/// Two timers run back-to-back: the second one starts only after the first
/// has completed
struct ChainedTimers<'a> {
    /// The durations of the timers that have not started yet, in order
    pending: Vec<Duration>,
    /// The deadline of the currently running timer, if one is running
    current: Option<Instant>,
    /// The amount of times this future was advanced
    polled: &'a AtomicUsize,
}
impl<'a> ChainedTimers<'a> {
    /// Creates a chain that runs a timer for each duration, in order
    pub fn new(pending: Vec<Duration>, polled: &'a AtomicUsize) -> Self {
        Self { pending, current: None, polled }
    }
}
impl<'a> Task for ChainedTimers<'a> {
    fn advance(&mut self, _ctx: &mut PollContext) -> Progress {
        self.polled.fetch_add(1, SeqCst);
        if let Some(deadline) = self.current {
            if Instant::now() >= deadline {
                self.current = None;
            }
        }
        if self.current.is_none() {
            if self.pending.is_empty() {
                return Progress::Complete;
            }
            let duration = self.pending.remove(0);
            self.current = Some(Instant::now() + duration);
        }
        Progress::Incomplete
    }
}

/// A countdown future that reports incomplete until the poll-countdown
/// becomes zero
struct CountdownFuture<'a> {
    /// The current countdown value
    countdown: usize,
    /// The amount of times this future was advanced
    polled: &'a AtomicUsize,
}
impl<'a> CountdownFuture<'a> {
    /// Creates a new countdown future
    pub fn new(countdown: usize, polled: &'a AtomicUsize) -> Self {
        Self { countdown, polled }
    }
}
impl<'a> Task for CountdownFuture<'a> {
    fn advance(&mut self, ctx: &mut PollContext) -> Progress {
        self.polled.fetch_add(1, SeqCst);

        // Decrement the value if we are still pending
        if self.countdown > 0 {
            self.countdown -= 1;
            ctx.wake();
            return Progress::Incomplete;
        }

        // Return complete
        Progress::Complete
    }
}

/// One top-level test task of any of the shapes above
enum TestTask<'a> {
    Timer(TimerFuture<'a>),
    Chain(ChainedTimers<'a>),
}
impl<'a> Task for TestTask<'a> {
    fn advance(&mut self, ctx: &mut PollContext) -> Progress {
        match self {
            TestTask::Timer(timer) => timer.advance(ctx),
            TestTask::Chain(chain) => chain.advance(ctx),
        }
    }
}

/// Tests a timer executor
fn test_timer() {
    // Create the observer flag and build the executor
    let polled = AtomicUsize::new(0);

    // Start the executor
    let start = Instant::now();
    let tasks = vec![TimerFuture::delay(Duration::from_secs(3), &polled)];
    run_to_completion::<TimerFuture, 32>(tasks).0.expect("failed to execute timer");

    // Assert that 3s have passed and that the future has been polled
    assert!(Instant::now() - start >= Duration::from_secs(3), "executor finished too early");
    assert!(polled.load(SeqCst) >= 2, "future has not been polled often enough");
}

/// Tests multiple timer executions
fn test_mutliple_timers() {
    // Create the observer flag and build the executor
    let polled = AtomicUsize::new(0);

    // Start the executor
    let start = Instant::now();
    let tasks = vec![
        TestTask::Timer(TimerFuture::delay(Duration::from_secs(3), &polled)),
        TestTask::Timer(TimerFuture::delay(Duration::from_secs(7), &polled)),
        TestTask::Chain(ChainedTimers::new(
            vec![Duration::from_secs(3), Duration::from_secs(7)],
            &polled,
        )),
    ];
    run_to_completion::<TestTask, 32>(tasks).0.expect("failed to execute timer");

    // Assert that 7s have passed and that the futures have been polled
    assert!(Instant::now() - start >= Duration::from_secs(7), "executor finished too early");
    assert!(polled.load(SeqCst) >= 8, "future has not been polled often enough");
}

/// Tests repeated polling of a future that wakes the executor immediately
fn test_multipoll_immediately() {
    // Create the observer flag and build the executor
    let polled = AtomicUsize::new(0);

    // Perform the countdown
    let tasks = vec![CountdownFuture::new(7, &polled)];
    run_to_completion::<CountdownFuture, 32>(tasks).0.expect("failed to execute countdown");
    assert!(polled.load(SeqCst) >= 8, "future has not been polled often enough");
}

/// Executes all tests serially
///
/// # Important
/// Serial execution is necessary since the tests share wall-clock timing
/// assumptions
#[test]
fn all() {
    test_timer();
    test_mutliple_timers();
    test_multipoll_immediately();
}
