//! The data the pool coordinates: jobs, the messages a worker can claim,
//! and the phases of a worker's lifecycle.

use vstd::prelude::*;

verus! {

/// A single, owned, one-shot unit of deferred work.
///
/// The pool never looks inside a job; it only guarantees that each job is
/// claimed by exactly one worker and run exactly once.  `id` stands for the
/// job's payload, and `fails` marks a job whose execution panics instead of
/// returning, which costs its worker (the pool never catches such a failure).
#[derive(Clone, Copy, PartialEq, Eq, Structural, Debug)]
pub struct Job {
    pub id: u64,
    pub fails: bool,
}

/// The tagged envelope a worker receives: either a job to run, or the
/// shutdown signal the pool broadcasts on disposal.  A single channel can
/// thus carry both ordinary work and lifecycle control.
#[derive(Clone, Copy, PartialEq, Eq, Structural, Debug)]
pub enum Message {
    Work(Job),
    Shutdown,
}

/// Where one worker stands in its lifecycle.
///
/// A worker starts `Idle`, becomes `Busy` for the duration of one claimed
/// job, and leaves the pool either by claiming `Shutdown` (`Terminated`) or
/// by running a job that fails (`Failed`).  A failed worker is never
/// replaced: the pool's effective capacity silently shrinks by one.
#[derive(Clone, Copy, PartialEq, Eq, Structural, Debug)]
pub enum WorkerPhase {
    Idle,
    Busy(Job),
    Terminated,
    Failed,
}

} // verus!
