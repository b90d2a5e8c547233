//! A worker-pool / task-scheduling core.
//!
//! A fixed set of worker threads executes one-shot units of deferred work
//! (tasks) pulled from a single shared FIFO queue. Submission appends to the
//! queue and wakes idle workers; shutdown raises a monotonic flag, wakes
//! everyone, and the pool drains to completion: every task accepted before
//! shutdown runs before the last worker terminates.
//!
//! This crate holds the sequential heart of that design — the queue, the
//! per-worker decision step, and the pool lifecycle state — together with a
//! ghost state machine ([`model`]) that states and proves what the protocol
//! guarantees under any interleaving of submitters and workers. The actual
//! threads, lock, and condition variable live with the embedding application,
//! which holds a [`scheduler::PoolCore`] behind its lock and obeys the wake
//! hints ([`scheduler::Wake`]) that every mutating operation returns.

pub mod model;
pub mod queue;
pub mod scheduler;
