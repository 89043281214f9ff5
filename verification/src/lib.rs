//! A fixed-size worker pool with deterministic, leak-free shutdown.
//!
//! The pool accepts opaque one-shot jobs, hands each to exactly one of a
//! bounded set of workers, and on disposal delivers one shutdown signal per
//! worker before declaring every worker finished.  The coordination protocol
//! (enqueue, claim, run, shut down) is modelled and proved here; `route`
//! holds the request-line dispatch that the pool's network-facing client
//! computes before enqueueing work.

pub mod model;
pub mod pool;
pub mod route;
pub mod types;
