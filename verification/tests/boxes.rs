use embedded_runtime::boxes::FutureBox;
use embedded_runtime::task::PollContext;
use embedded_runtime::task::Progress;
use embedded_runtime::task::Task;
use std::sync::atomic::AtomicUsize;
use std::sync::atomic::Ordering::SeqCst;

/// A test future
struct TestFuture<'a> {
    /// A counter that gets increased if the future is advanced (for external observability)
    polled: &'a AtomicUsize,
    /// A counter that gets increased if the future is dropped (for external observability)
    dropped: &'a AtomicUsize,
}
impl<'a> TestFuture<'a> {
    /// Creates a new test future
    pub fn new(polled: &'a AtomicUsize, dropped: &'a AtomicUsize) -> Self {
        Self { polled, dropped }
    }
}
impl<'a> Drop for TestFuture<'a> {
    fn drop(&mut self) {
        self.dropped.fetch_add(1, SeqCst);
    }
}
impl<'a> Task for TestFuture<'a> {
    fn advance(&mut self, _ctx: &mut PollContext) -> Progress {
        self.polled.fetch_add(1, SeqCst);
        Progress::Incomplete
    }
}

#[test]
fn test() {
    // Create the observation vars
    let polled = AtomicUsize::new(0);
    let dropped = AtomicUsize::new(0);

    // A scope to ensure the future gets dropped again
    {
        // Box the future
        let future = TestFuture::new(&polled, &dropped);
        let mut boxed: FutureBox<TestFuture, 64> = match FutureBox::new(future) {
            Ok(boxed) => boxed,
            Err(_) => panic!("failed to box future"),
        };

        // Create a polling context
        let mut context = PollContext::new();

        // Advance the future
        for expected in 1usize..=7 {
            let state = boxed.advance(&mut context);
            assert!(matches!(state, Progress::Incomplete), "invalid future state");
            assert_eq!(polled.load(SeqCst), expected, "invalid poll count");
        }
    }

    // Ensure the future has been dropped
    assert_eq!(dropped.load(SeqCst), 1, "invalid drop count");
}
