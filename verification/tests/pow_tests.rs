use blockchain_simulation::block::Transaction;
use blockchain_simulation::errors::LedgerError;
use blockchain_simulation::pow::{find_proof, verify_proof};

fn tx(sender: &str, recipient: &str, amount: u64) -> Transaction {
    Transaction {
        sender: sender.to_string(),
        recipient: recipient.to_string(),
        amount,
    }
}

#[test]
fn search_result_verifies() {
    // The found nonce always satisfies the verification predicate, and no
    // smaller nonce does.
    let txs = vec![tx("s", "r", 1)];
    let nonce = find_proof("prevhash", &txs, 1, u64::MAX).unwrap();
    assert!(verify_proof("prevhash", &txs, nonce, 1));
    for q in 0..nonce {
        assert!(!verify_proof("prevhash", &txs, q, 1));
    }
}

#[test]
fn zero_difficulty_accepts_everything() {
    let txs = vec![tx("s", "r", 1)];
    assert!(verify_proof("anything", &txs, 0, 0));
    assert_eq!(find_proof("anything", &txs, 0, u64::MAX), Ok(0));
}

#[test]
fn exhausted_cap_reports_proof_not_found() {
    let txs = vec![tx("s", "r", 1)];
    assert_eq!(
        find_proof("prevhash", &txs, 1, 0),
        Err(LedgerError::ProofNotFound)
    );
}

#[test]
fn difficulty_beyond_digest_length_never_verifies() {
    let none: Vec<Transaction> = Vec::new();
    assert!(!verify_proof("x", &none, 0, 65));
}
