//! Error values a ledger operation can report.

use vstd::prelude::*;

verus! {

/// Why a ledger operation failed.
#[derive(Debug, Clone, Copy, PartialEq, Eq, Structural)]
pub enum LedgerError {
    /// No nonce below the attempt cap satisfied the difficulty predicate.
    ProofNotFound,
    /// The block at this 1-based chain position breaks the hash link to its
    /// predecessor or fails its own proof-of-work check.
    ChainIntegrityViolation(u64),
}

} // verus!
