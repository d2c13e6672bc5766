//! A minimal append-only ledger secured by a proof-of-work consensus rule.
//!
//! Each sealed block must hash below a difficulty target (a required number of
//! leading `'0'` hex characters), and each block references the digest of its
//! predecessor, forming a tamper-evident chain. The canonical, length-prefixed
//! encoding that determines every digest is specified precisely in
//! [`encoding`], so no two distinct field-value tuples ever serialize
//! identically.

pub mod block;
pub mod encoding;
pub mod errors;
pub mod hashing;
pub mod ledger;
pub mod pow;
