//! Drives an asynchronous computation to completion on a thread that services a
//! native GUI event queue, using that queue as the only place where the thread blocks.
//!
//! The library holds the decisions of the three parts: the run-to-completion loop
//! (`executor`), the cross-thread wake (`waker`) and the window-backed event
//! adapter (`sync::message_window`). The calls into the operating system are made
//! by the caller, which hands the library plain values and acts on what it returns.
use vstd::prelude::*;

pub mod executor;
pub mod sync;
pub mod waker;

verus! {

/// The native queue asked the thread to terminate before the computation finished.
#[derive(Debug, Clone, Copy, PartialEq, Eq)]
pub struct ShouldExit;

/// What running a computation to completion gives: its value, or a quit request.
pub type LoopResult<T> = Result<T, ShouldExit>;

} // verus!
