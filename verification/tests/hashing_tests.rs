use blockchain_simulation::block::{pow_message, Transaction};
use blockchain_simulation::encoding::{append_enc_str, append_enc_u64, u64_to_dec};
use blockchain_simulation::hashing::{calculate_hash, calculate_hash_pair, format_hash};

fn tx(sender: &str, recipient: &str, amount: u64) -> Transaction {
    Transaction {
        sender: sender.to_string(),
        recipient: recipient.to_string(),
        amount,
    }
}

#[test]
fn digest_known_value() {
    // The SHA-256 digest of "abc", in lowercase hex.
    assert_eq!(
        calculate_hash("abc"),
        "ba7816bf8f01cfea414140de5dae2223b00361a396177a9cb410ff61f20015ad"
    );
}

#[test]
fn digest_deterministic() {
    let a = calculate_hash("identical input");
    let b = calculate_hash("identical input");
    assert_eq!(a, b);
    assert_eq!(a.len(), 64);
}

#[test]
fn digest_pair_matches_concatenation() {
    assert_eq!(calculate_hash_pair("a", "bc"), calculate_hash("abc"));
    assert_eq!(calculate_hash_pair("abc", ""), calculate_hash("abc"));
}

#[test]
fn digest_differs_by_one_amount() {
    let t1 = pow_message("h", &vec![tx("a", "b", 3)], 0);
    let t2 = pow_message("h", &vec![tx("a", "b", 4)], 0);
    assert_ne!(calculate_hash(&t1), calculate_hash(&t2));
}

#[test]
fn format_hash_pads_to_sixteen() {
    assert_eq!(format_hash("ff".to_string()), "00000000000000ff");
    assert_eq!(format_hash("".to_string()), "0000000000000000");
    assert_eq!(
        format_hash("0123456789abcdef".to_string()),
        "0123456789abcdef"
    );
}

#[test]
fn decimal_rendering_values() {
    assert_eq!(u64_to_dec(0), "0");
    assert_eq!(u64_to_dec(7), "7");
    assert_eq!(u64_to_dec(12345), "12345");
    assert_eq!(u64_to_dec(u64::MAX), "18446744073709551615");
}

#[test]
fn canonical_field_encodings() {
    let mut s = String::new();
    append_enc_u64(&mut s, 42);
    assert_eq!(s, "42;");
    let mut s2 = String::new();
    append_enc_str(&mut s2, "ab:cd");
    assert_eq!(s2, "5:ab:cd");
    let mut s3 = String::new();
    append_enc_str(&mut s3, "");
    assert_eq!(s3, "0:");
}

#[test]
fn pow_message_layout() {
    let txs = vec![tx("a", "b", 3)];
    assert_eq!(pow_message("prev", &txs, 7), "4:prev1;1:a1:b3;7;");
    let none: Vec<Transaction> = Vec::new();
    assert_eq!(pow_message("p", &none, 0), "1:p0;0;");
}
