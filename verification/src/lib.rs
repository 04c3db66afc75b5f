//! Job-lifecycle engine for a pay-to-unlock deposit service.
//!
//! The engine tracks one job per contract key: a fresh receiving identity is
//! allocated for the job, a balance watcher observes the identity's confirmed
//! balance, and on the first sufficient observation the job is completed at
//! most once.  All wallet, network and clock work is left to the caller; the
//! engine is the single source of truth for job state and identity indices.

pub mod amount;
pub mod engine;
pub mod job;
pub mod kvmap;
pub mod laws;
