//! The run-to-completion loop as a state machine: the caller polls the computation
//! and waits on the native queue, and this module says what to do next.
use vstd::prelude::*;

use crate::{LoopResult, ShouldExit};

verus! {

/// What one poll of the computation gave.
pub enum PollOutcome<T> {
    Ready(T),
    Pending,
}

/// What one blocking wait on the native queue gave.
#[derive(Debug, Clone, Copy, PartialEq, Eq)]
pub enum WaitOutcome {
    /// The wait itself failed, with the operating system's error code.
    Failed(u32),
    /// The queue signalled that the thread should terminate.
    Quit,
    /// An event was retrieved and waits to be dispatched.
    Message,
}

/// Where the loop stands.
#[derive(Debug, Clone, Copy, PartialEq, Eq)]
pub enum Phase {
    /// The computation is to be polled next.
    Polling,
    /// The thread is to wait on the queue next.
    Waiting,
    /// The loop is over: nothing is polled or waited for any more.
    Finished,
}

/// What the caller does next.
pub enum Step<T> {
    /// Block on the native queue.
    Wait,
    /// Translate and dispatch the retrieved event, then poll again.
    Dispatch,
    /// Return this from the loop.
    Return(LoopResult<T>),
    /// Abort the process with this operating system error code.
    Abort(u32),
}

/// The phase and step that follow a poll.
pub open spec fn poll_transition<T>(r: PollOutcome<T>) -> (Phase, Step<T>) {
    match r {
        PollOutcome::Ready(v) => (Phase::Finished, Step::Return(Ok(v))),
        PollOutcome::Pending => (Phase::Waiting, Step::Wait),
    }
}

/// The phase and step that follow a wait on the queue.
pub open spec fn wait_transition<T>(w: WaitOutcome) -> (Phase, Step<T>) {
    match w {
        WaitOutcome::Failed(code) => (Phase::Finished, Step::Abort(code)),
        WaitOutcome::Quit => (Phase::Finished, Step::Return(Err(ShouldExit))),
        WaitOutcome::Message => (Phase::Polling, Step::Dispatch),
    }
}

/// The whole loop run against the successive results of the polls and of the
/// waits: the step it ends with (`None` if a script runs out first), and how many
/// polls it made.
pub open spec fn run<T>(polls: Seq<PollOutcome<T>>, waits: Seq<WaitOutcome>) -> (Option<
    Step<T>,
>, nat)
    decreases polls.len(),
{
    if polls.len() == 0 {
        (None, 0)
    } else {
        match polls[0] {
            PollOutcome::Ready(v) => (Some(Step::Return(Ok(v))), 1),
            PollOutcome::Pending => {
                if waits.len() == 0 {
                    (None, 1)
                } else {
                    match waits[0] {
                        WaitOutcome::Message => {
                            let (end, n) = run(polls.drop_first(), waits.drop_first());
                            (end, n + 1)
                        },
                        _ => (Some(wait_transition(waits[0]).1), 1),
                    }
                }
            },
        }
    }
}

/// The state of one run of the loop.
pub struct LoopState {
    pub phase: Phase,
}

impl LoopState {
    /// A loop that starts by polling: the poll comes before every wait, the first included.
    pub fn new() -> (s: LoopState)
        ensures
            s.phase == Phase::Polling,
    {
        LoopState { phase: Phase::Polling }
    }

    /// Whether the computation is to be polled next.
    pub fn can_poll(&self) -> (r: bool)
        ensures
            r == (self.phase == Phase::Polling),
    {
        match self.phase {
            Phase::Polling => true,
            _ => false,
        }
    }

    /// Whether the loop is over.
    pub fn is_finished(&self) -> (r: bool)
        ensures
            r == (self.phase == Phase::Finished),
    {
        match self.phase {
            Phase::Finished => true,
            _ => false,
        }
    }

    /// Takes the result of a poll: a ready value ends the loop with that value,
    /// otherwise the thread waits on the queue.
    pub fn on_poll<T>(&mut self, r: PollOutcome<T>) -> (step: Step<T>)
        requires
            old(self).phase == Phase::Polling,
        ensures
            (final(self).phase, step) == poll_transition(r),
    {
        match r {
            PollOutcome::Ready(v) => {
                self.phase = Phase::Finished;
                Step::Return(Ok(v))
            },
            PollOutcome::Pending => {
                self.phase = Phase::Waiting;
                Step::Wait
            },
        }
    }

    /// Takes the result of a wait: a failure aborts, a quit request ends the loop
    /// with `ShouldExit`, and an event is dispatched before the next poll.
    pub fn on_wait<T>(&mut self, w: WaitOutcome) -> (step: Step<T>)
        requires
            old(self).phase == Phase::Waiting,
        ensures
            (final(self).phase, step) == wait_transition::<T>(w),
    {
        match w {
            WaitOutcome::Failed(code) => {
                self.phase = Phase::Finished;
                Step::Abort(code)
            },
            WaitOutcome::Quit => {
                self.phase = Phase::Finished;
                Step::Return(Err(ShouldExit))
            },
            WaitOutcome::Message => {
                self.phase = Phase::Polling;
                Step::Dispatch
            },
        }
    }
}

/// Reads the return value of the native "get next event" call: `-1` is a failure
/// (reported with `last_error`), `0` a quit request, anything else an event.
pub fn classify_wait(ret: i32, last_error: u32) -> (w: WaitOutcome)
    ensures
        ret == -1 ==> w == WaitOutcome::Failed(last_error),
        ret == 0 ==> w == WaitOutcome::Quit,
        ret != -1 && ret != 0 ==> w == WaitOutcome::Message,
{
    if ret == -1 {
        WaitOutcome::Failed(last_error)
    } else if ret == 0 {
        WaitOutcome::Quit
    } else {
        WaitOutcome::Message
    }
}

/// A computation that is not ready at its first poll, has woken itself, and is
/// ready with `v` at its second poll, gives `v` after exactly two polls: the loop
/// ends there, and whatever a later poll would have said is never asked.
pub proof fn lemma_ready_after_self_wake<T>(
    v: T,
    later_polls: Seq<PollOutcome<T>>,
    later_waits: Seq<WaitOutcome>,
)
    ensures
        run(
            seq![PollOutcome::Pending, PollOutcome::Ready(v)] + later_polls,
            seq![WaitOutcome::Message] + later_waits,
        ) == (Some(Step::<T>::Return(Ok(v))), 2nat),
        poll_transition(PollOutcome::Ready(v)).0 == Phase::Finished,
{
    let polls = seq![PollOutcome::Pending, PollOutcome::Ready(v)] + later_polls;
    let waits = seq![WaitOutcome::Message] + later_waits;
    assert(polls[0] == PollOutcome::<T>::Pending);
    assert(waits[0] == WaitOutcome::Message);
    assert(polls.drop_first()[0] == PollOutcome::Ready(v));
    assert(run(polls.drop_first(), waits.drop_first()) == (Some(Step::<T>::Return(Ok(v))), 1nat));
}

/// A quit signal that arrives while the computation is not ready ends the loop with
/// `ShouldExit`, in a phase where the computation is never polled again; and in a
/// run, every poll made comes before the first quit.
pub proof fn lemma_quit_is_final<T>(polls: Seq<PollOutcome<T>>, waits: Seq<WaitOutcome>, k: nat)
    requires
        k < polls.len(),
        k < waits.len(),
        forall|i: int| 0 <= i <= k ==> polls[i] == PollOutcome::<T>::Pending,
        forall|i: int| 0 <= i < k ==> waits[i] == WaitOutcome::Message,
        waits[k as int] == WaitOutcome::Quit,
    ensures
        wait_transition::<T>(WaitOutcome::Quit) == (Phase::Finished, Step::<T>::Return(
            Err(ShouldExit),
        )),
        run(polls, waits) == (Some(Step::<T>::Return(Err(ShouldExit))), k + 1),
    decreases k,
{
    if k > 0 {
        lemma_quit_is_final(polls.drop_first(), waits.drop_first(), (k - 1) as nat);
    }
}

} // verus!
