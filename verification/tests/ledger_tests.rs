use blockchain_simulation::block::{pow_message, Block, Transaction};
use blockchain_simulation::errors::LedgerError;
use blockchain_simulation::hashing::calculate_hash;
use blockchain_simulation::ledger::{Blockchain, GENESIS_NONCE};
use blockchain_simulation::pow::verify_proof;

fn tx(sender: &str, recipient: &str, amount: u64) -> Transaction {
    Transaction {
        sender: sender.to_string(),
        recipient: recipient.to_string(),
        amount,
    }
}

fn sealed_two(difficulty: u64) -> Blockchain {
    let mut l = Blockchain::new();
    l.new_transaction("alice".to_string(), "bob".to_string(), 5);
    l.seal_block(difficulty).unwrap();
    l
}

#[test]
fn genesis_block() {
    let l = Blockchain::new();
    assert_eq!(l.chain.len(), 1);
    assert_eq!(l.chain[0].index, 1);
    assert!(l.chain[0].transactions.is_empty());
    assert_eq!(l.chain[0].nonce, GENESIS_NONCE);
    assert_eq!(l.chain[0].previous_hash, "abc");
    assert_eq!(l.chain[0].difficulty, 0);
    assert!(l.current_transactions.is_empty());
    assert!(l.validate_chain());
}

#[test]
fn submit_buffers_in_order() {
    let mut l = Blockchain::new();
    l.new_transaction("a".to_string(), "b".to_string(), 0);
    l.new_transaction("c".to_string(), "d".to_string(), 2);
    assert_eq!(l.current_transactions.len(), 2);
    assert_eq!(l.current_transactions[0].sender, "a");
    assert_eq!(l.current_transactions[0].amount, 0);
    assert_eq!(l.current_transactions[1].recipient, "d");
    assert_eq!(l.chain.len(), 1);
}

#[test]
fn seal_embeds_pending_and_clears_pool() {
    let mut l = Blockchain::new();
    l.new_transaction("alice".to_string(), "bob".to_string(), 5);
    l.new_transaction("carol".to_string(), "dave".to_string(), 7);
    let b = l.seal_block(1).unwrap();
    assert_eq!(b.index, 2);
    assert_eq!(b.difficulty, 1);
    assert_eq!(b.transactions.len(), 2);
    assert_eq!(b.transactions[0].sender, "alice");
    assert_eq!(b.transactions[1].amount, 7);
    assert!(l.current_transactions.is_empty());
    assert_eq!(l.chain.len(), 2);
}

#[test]
fn sealed_chains_validate() {
    // Chains produced only via seal_block validate, each block at the
    // difficulty stored on it at seal time.
    let mut l = Blockchain::new();
    l.new_transaction("alice".to_string(), "bob".to_string(), 5);
    l.seal_block(1).unwrap();
    l.new_transaction("carol".to_string(), "dave".to_string(), 7);
    l.seal_block(2).unwrap();
    assert_eq!(l.chain.len(), 3);
    assert!(l.validate_chain());
    assert_eq!(l.check_chain(), Ok(()));
}

#[test]
fn manual_flow_with_found_proof() {
    let mut l = Blockchain::new();
    l.new_transaction("aaa".to_string(), "bbb".to_string(), 3);
    let last = l.last_block();
    let last_hash = Blockchain::calculate_hash(&last);
    let nonce = l.get_proof(&last_hash, 1).unwrap();
    let b = l.new_block(nonce, last_hash, 1);
    assert_eq!(b.index, 2);
    assert_eq!(b.transactions.len(), 1);
    assert!(l.current_transactions.is_empty());
    assert_eq!(l.chain.len(), 2);
    assert!(l.validate_chain());
}

#[test]
fn tamper_previous_hash_detected() {
    let mut l = sealed_two(2);
    assert!(l.validate_chain());
    l.chain[1].previous_hash.push('x');
    assert!(!l.validate_chain());
}

#[test]
fn tamper_transactions_detected() {
    let mut l = sealed_two(2);
    assert!(l.validate_chain());
    // Pick a tampered amount whose message no longer passes the block's own
    // proof-of-work check (almost every amount does).
    let mut amount: u64 = 1000;
    loop {
        l.chain[1].transactions[0].amount = amount;
        let still_mined = verify_proof(
            &l.chain[1].previous_hash,
            &l.chain[1].transactions,
            l.chain[1].nonce,
            l.chain[1].difficulty,
        );
        if !still_mined {
            break;
        }
        amount += 1;
    }
    assert!(!l.validate_chain());
}

#[test]
fn tamper_nonce_detected() {
    let mut l = sealed_two(2);
    assert!(l.validate_chain());
    let mut nonce = l.chain[1].nonce + 1;
    loop {
        l.chain[1].nonce = nonce;
        let still_mined = verify_proof(
            &l.chain[1].previous_hash,
            &l.chain[1].transactions,
            l.chain[1].nonce,
            l.chain[1].difficulty,
        );
        if !still_mined {
            break;
        }
        nonce += 1;
    }
    assert!(!l.validate_chain());
}

#[test]
fn check_chain_reports_offender() {
    let mut l = sealed_two(2);
    l.chain[1].previous_hash = "bogus".to_string();
    match l.check_chain() {
        Err(LedgerError::ChainIntegrityViolation(p)) => assert_eq!(p, 2),
        r => panic!("expected a violation, got {:?}", r),
    }
}

#[test]
fn scenario_difficulty_four() {
    let mut l = Blockchain::new();
    l.new_transaction("A".to_string(), "B".to_string(), 3);
    let b = l.seal_block(4).unwrap();
    let dg = calculate_hash(&pow_message(&b.previous_hash, &b.transactions, b.nonce));
    assert!(dg.starts_with("0000"));
    assert!(l.validate_chain());
}

#[test]
fn scenario_difficulty_five_links_to_first_block() {
    // Blocks sealed by the library carry wall-clock timestamps, which makes
    // the length of a difficulty-5 nonce search vary from run to run. To
    // keep this test's running time fixed, the first two blocks use fixed
    // timestamps; 43185 is the first difficulty-4 nonce for the first
    // block's inputs, and the difficulty-5 seal below then finds its nonce
    // after a short, known number of attempts.
    let genesis = Block {
        index: 1,
        timestamp: 1_700_000_000,
        transactions: Vec::new(),
        nonce: GENESIS_NONCE,
        previous_hash: "abc".to_string(),
        difficulty: 0,
    };
    let first = Block {
        index: 2,
        timestamp: 1_700_000_021,
        transactions: vec![tx("A", "B", 3)],
        nonce: 43_185,
        previous_hash: Blockchain::calculate_hash(&genesis),
        difficulty: 4,
    };
    let mut l = Blockchain {
        chain: vec![genesis, first],
        current_transactions: Vec::new(),
    };
    // The hardcoded difficulty-4 nonce really is valid.
    assert!(l.validate_chain());

    l.new_transaction("A".to_string(), "B".to_string(), 3);
    l.new_transaction("C".to_string(), "D".to_string(), 1);
    l.new_transaction("E".to_string(), "F".to_string(), 2);
    let second = l.seal_block(5).unwrap();

    assert_eq!(second.previous_hash, Blockchain::calculate_hash(&l.chain[1]));
    assert_eq!(
        second.previous_hash,
        "53fbb5657c10a340c5c69daeb44b06cabf73a842b855e11988e47348551d2d9b"
    );
    assert_eq!(second.nonce, 24_718);
    let dg = calculate_hash(&pow_message(
        &second.previous_hash,
        &second.transactions,
        second.nonce,
    ));
    assert!(dg.starts_with("00000"));
    assert!(l.validate_chain());
}
