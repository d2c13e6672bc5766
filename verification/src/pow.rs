//! The proof-of-work rule: a nonce is valid when the digest of the
//! candidate message starts with `difficulty` `'0'` characters.
//!
//! [`verify_proof`] decides the rule; [`find_proof`] searches nonces
//! `0, 1, 2, …` and returns the first valid one. Both are proved against the
//! same predicate [`spec_valid_nonce`], so they can never disagree.

use vstd::prelude::*;
use vstd::string::*;
use crate::block::{pow_prefix, pow_message, spec_pow_message, Transaction, TransactionView};
use crate::encoding::append_enc_u64;
use crate::errors::LedgerError;
use crate::hashing::{calculate_hash, spec_digest};

verus! {

/// The first `difficulty` characters of `dg` exist and are all `'0'`.
pub open spec fn spec_leading_zeros(dg: Seq<char>, difficulty: u64) -> bool {
    &&& difficulty <= dg.len()
    &&& forall|i: int| 0 <= i < difficulty ==> dg[i] == '0'
}

/// The difficulty predicate of the chain: the digest of the proof-of-work
/// message built from `previous_hash`, the transactions and `nonce` starts
/// with `difficulty` `'0'` hex characters.
pub open spec fn spec_valid_nonce(
    previous_hash: Seq<char>,
    ts: Seq<TransactionView>,
    nonce: u64,
    difficulty: u64,
) -> bool {
    spec_leading_zeros(spec_digest(spec_pow_message(previous_hash, ts, nonce)), difficulty)
}

/// `nonce` is valid and no smaller nonce is: exactly what a successful
/// search returns.
pub open spec fn spec_first_valid_nonce(
    previous_hash: Seq<char>,
    ts: Seq<TransactionView>,
    nonce: u64,
    difficulty: u64,
) -> bool {
    &&& spec_valid_nonce(previous_hash, ts, nonce, difficulty)
    &&& forall|q: u64| q < nonce ==> !spec_valid_nonce(previous_hash, ts, q, difficulty)
}

/// The search is self-consistent with verification: any nonce the search
/// can return satisfies the predicate that `verify_proof` decides, for every
/// difficulty and transaction sequence.
pub proof fn lemma_found_nonce_verifies(
    previous_hash: Seq<char>,
    ts: Seq<TransactionView>,
    nonce: u64,
    difficulty: u64,
)
    requires
        spec_first_valid_nonce(previous_hash, ts, nonce, difficulty),
    ensures
        spec_valid_nonce(previous_hash, ts, nonce, difficulty),
{
}

fn leading_zeros_ok(dg: &str, difficulty: u64) -> (r: bool)
    ensures
        r == spec_leading_zeros(dg@, difficulty),
{
    let n = dg.unicode_len();
    if difficulty > n as u64 {
        return false;
    }
    let mut i: u64 = 0;
    while i < difficulty
        invariant
            0 <= i <= difficulty,
            difficulty <= n as u64,
            n == dg@.len(),
            forall|j: int| 0 <= j < i ==> dg@[j] == '0',
        decreases difficulty - i,
    {
        if dg.get_char(i as usize) != '0' {
            return false;
        }
        i = i + 1;
    }
    true
}

/// Recomputes the digest of the proof-of-work message and checks the
/// difficulty predicate. This is the single source of truth for validity:
/// the search and chain validation are both proved against its predicate.
pub fn verify_proof(
    previous_hash: &str,
    transactions: &Vec<Transaction>,
    nonce: u64,
    difficulty: u64,
) -> (r: bool)
    ensures
        r == spec_valid_nonce(previous_hash@, transactions.deep_view(), nonce, difficulty),
{
    let msg = pow_message(previous_hash, transactions, nonce);
    let dg = calculate_hash(msg.as_str());
    leading_zeros_ok(dg.as_str(), difficulty)
}

/// Searches nonces `0, 1, 2, …` below `max_attempts` and returns the first
/// one satisfying the difficulty predicate, or `ProofNotFound` when no nonce
/// below the cap does. Pass `u64::MAX` for an effectively unbounded search.
pub fn find_proof(
    previous_hash: &str,
    transactions: &Vec<Transaction>,
    difficulty: u64,
    max_attempts: u64,
) -> (r: Result<u64, LedgerError>)
    ensures
        match r {
            Ok(nonce) => nonce < max_attempts && spec_first_valid_nonce(
                previous_hash@,
                transactions.deep_view(),
                nonce,
                difficulty,
            ),
            Err(e) => e == LedgerError::ProofNotFound && forall|q: u64|
                q < max_attempts ==> !spec_valid_nonce(
                    previous_hash@,
                    transactions.deep_view(),
                    q,
                    difficulty,
                ),
        },
{
    let prefix = pow_prefix(previous_hash, transactions);
    let mut nonce: u64 = 0;
    while nonce < max_attempts
        invariant
            prefix@ == crate::block::spec_pow_prefix(previous_hash@, transactions.deep_view()),
            0 <= nonce <= max_attempts,
            forall|q: u64| q < nonce ==> !spec_valid_nonce(
                previous_hash@,
                transactions.deep_view(),
                q,
                difficulty,
            ),
        decreases max_attempts - nonce,
    {
        let mut msg = prefix.clone();
        append_enc_u64(&mut msg, nonce);
        proof {
            assert(msg@ == spec_pow_message(previous_hash@, transactions.deep_view(), nonce));
        }
        let dg = calculate_hash(msg.as_str());
        if leading_zeros_ok(dg.as_str(), difficulty) {
            return Ok(nonce);
        }
        nonce = nonce + 1;
    }
    Err(LedgerError::ProofNotFound)
}

} // verus!
