use std::collections::VecDeque;
use std::future::Future;
use std::pin::Pin;
use std::sync::{Arc, Mutex};
use std::task::{Context, Poll, Wake, Waker};

use futures::future;
use windows_executor::executor::{
    classify_wait, LoopState, Phase, PollOutcome, Step, WaitOutcome,
};
use windows_executor::{LoopResult, ShouldExit};

/// A native queue stand-in: each entry is what the "get next event" call returns.
struct ScriptedQueue {
    returns: Mutex<VecDeque<i32>>,
}

impl Wake for ScriptedQueue {
    fn wake(self: Arc<Self>) {
        self.returns.lock().unwrap().push_back(1);
    }
}

/// Runs `fut` the way the native loop does, with `queue` in place of the native
/// queue. An empty queue counts as a quit request.
fn drive<T>(fut: impl Future<Output = T>, queue: Arc<ScriptedQueue>) -> LoopResult<T> {
    let mut fut = Box::pin(fut);
    let waker = Waker::from(queue.clone());
    let mut cx = Context::from_waker(&waker);
    let mut state = LoopState::new();
    loop {
        let outcome = match Pin::as_mut(&mut fut).poll(&mut cx) {
            Poll::Ready(v) => PollOutcome::Ready(v),
            Poll::Pending => PollOutcome::Pending,
        };
        match state.on_poll(outcome) {
            Step::Return(r) => return r,
            Step::Wait => {}
            _ => panic!("unexpected step after a poll"),
        }
        let ret = queue.returns.lock().unwrap().pop_front().unwrap_or(0);
        match state.on_wait::<T>(classify_wait(ret, 7)) {
            Step::Dispatch => {}
            Step::Return(r) => return r,
            Step::Abort(code) => panic!("wait failed: {code}"),
            Step::Wait => panic!("unexpected step after a wait"),
        }
    }
}

#[test]
fn it_wakes() {
    let mut polls = 0;

    let fut = future::poll_fn(|cx| {
        polls += 1;
        match polls {
            1 => {
                cx.waker().clone().wake();
                Poll::Pending
            }
            2 => Poll::Ready(()),
            _ => panic!("polled too many times!"),
        }
    });

    let queue = Arc::new(ScriptedQueue { returns: Mutex::new(VecDeque::new()) });
    assert_eq!((), drive(fut, queue).unwrap());
    assert_eq!(2, polls);
}

#[test]
fn ready_at_first_poll_never_waits() {
    let queue = Arc::new(ScriptedQueue { returns: Mutex::new(VecDeque::new()) });
    assert_eq!(Ok(42), drive(future::ready(42), queue));
}

#[test]
fn quit_before_ready_stops_polling() {
    let mut polls = 0;
    let fut = future::poll_fn(|_cx| {
        polls += 1;
        if polls > 1 {
            panic!("polled after quit");
        }
        Poll::<u8>::Pending
    });
    let queue = Arc::new(ScriptedQueue { returns: Mutex::new(VecDeque::from(vec![0])) });
    assert_eq!(Err(ShouldExit), drive(fut, queue));
    assert_eq!(1, polls);
}

#[test]
fn quit_after_unrelated_events() {
    let mut polls = 0;
    let fut = future::poll_fn(|_cx| {
        polls += 1;
        Poll::<u8>::Pending
    });
    let queue = Arc::new(ScriptedQueue { returns: Mutex::new(VecDeque::from(vec![1, 5, 0, 1])) });
    assert_eq!(Err(ShouldExit), drive(fut, queue));
    assert_eq!(3, polls);
}

#[test]
fn classify_wait_outcomes() {
    assert_eq!(WaitOutcome::Failed(1400), classify_wait(-1, 1400));
    assert_eq!(WaitOutcome::Quit, classify_wait(0, 1400));
    assert_eq!(WaitOutcome::Message, classify_wait(1, 1400));
    assert_eq!(WaitOutcome::Message, classify_wait(17, 0));
}

#[test]
fn loop_state_transitions() {
    let mut s = LoopState::new();
    assert!(s.can_poll());
    assert!(matches!(s.on_poll::<u8>(PollOutcome::Pending), Step::Wait));
    assert_eq!(Phase::Waiting, s.phase);
    assert!(!s.can_poll());
    assert!(matches!(s.on_wait::<u8>(WaitOutcome::Message), Step::Dispatch));
    assert!(s.can_poll());
    assert!(matches!(s.on_poll(PollOutcome::Ready(9u8)), Step::Return(Ok(9))));
    assert!(s.is_finished());
}

#[test]
fn wait_failure_aborts_with_code() {
    let mut s = LoopState::new();
    assert!(matches!(s.on_poll::<u8>(PollOutcome::Pending), Step::Wait));
    assert!(matches!(s.on_wait::<u8>(WaitOutcome::Failed(87)), Step::Abort(87)));
    assert!(s.is_finished());
}
