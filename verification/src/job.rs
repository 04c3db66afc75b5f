//! Job records and the engine's error taxonomy.

use vstd::prelude::*;

verus! {

/// Lifecycle status of a job.  The only transition is
/// `Pending -> Completed`; a completed job never becomes pending again.
#[derive(Clone, Copy, Debug, PartialEq, Eq, Structural)]
pub enum JobStatus {
    Pending,
    Completed,
}

/// Errors the engine reports to its callers.
#[derive(Clone, Copy, Debug, PartialEq, Eq, Structural)]
pub enum EngineError {
    /// The contract key already has an active job or identity mapping,
    /// or no further identity index can be handed out.
    Conflict,
    /// The contract key is not known to the engine.
    NotFound,
}

/// A tracked pay-to-unlock job.
///
/// `amount` and `deposit_address` are immutable after creation; only
/// `status` is ever mutated, and only through the engine's compare-and-swap.
pub struct Job {
    /// Current lifecycle status.
    pub status: JobStatus,
    /// Required confirmed balance, in the smallest currency unit.
    pub amount: u64,
    /// Oracle price at creation time, in thousandths of the external
    /// currency unit per coin.  Informational only.
    pub price_milli: u64,
    /// Address the payer must deposit to.
    pub deposit_address: String,
    /// The contract key this job belongs to (duplicate of the map key).
    pub contract_address: String,
}

/// The receiving identity recorded for a contract key: an opaque account
/// handle supplied by the wallet, and the derivation index it was created at.
#[derive(Clone, Copy, Debug, PartialEq, Eq, Structural)]
pub struct AccountInfo {
    /// Wallet-assigned account handle.
    pub account: u32,
    /// Hierarchical-derivation index the identity was created at.
    pub index: u32,
}

} // verus!
