//! The digest primitive: SHA-256 over UTF-8 bytes, rendered as 64 lowercase
//! hex characters.
//!
//! The digest value itself is named by the uninterpreted function
//! [`sha256_of`]; everything the library proves about chains holds for every
//! value of it. The hex rendering is specified exactly.

use vstd::prelude::*;
use vstd::string::*;
use sha2::{Digest, Sha256};

verus! {

/// The lowercase hex digit character for a value below sixteen.
pub open spec fn hex_digit(d: nat) -> char {
    if d == 0 {
        '0'
    } else if d == 1 {
        '1'
    } else if d == 2 {
        '2'
    } else if d == 3 {
        '3'
    } else if d == 4 {
        '4'
    } else if d == 5 {
        '5'
    } else if d == 6 {
        '6'
    } else if d == 7 {
        '7'
    } else if d == 8 {
        '8'
    } else if d == 9 {
        '9'
    } else if d == 10 {
        'a'
    } else if d == 11 {
        'b'
    } else if d == 12 {
        'c'
    } else if d == 13 {
        'd'
    } else if d == 14 {
        'e'
    } else {
        'f'
    }
}

/// Lowercase hex rendering of a byte sequence: for each byte the high
/// nibble's digit, then the low nibble's.
pub open spec fn spec_hex(bs: Seq<u8>) -> Seq<char>
    decreases bs.len(),
{
    if bs.len() == 0 {
        Seq::empty()
    } else {
        seq![hex_digit((bs[0] >> 4) as nat), hex_digit((bs[0] & 0xf) as nat)]
            + spec_hex(bs.drop_first())
    }
}

/// The hex rendering of `n` bytes is `2 * n` characters long.
pub proof fn lemma_spec_hex_len(bs: Seq<u8>)
    ensures
        spec_hex(bs).len() == 2 * bs.len(),
    decreases bs.len(),
{
    if bs.len() > 0 {
        lemma_spec_hex_len(bs.drop_first());
    }
}

/// The SHA-256 digest (32 bytes) of the UTF-8 bytes of a character
/// sequence. Uninterpreted: the library relies only on it being a function
/// of the characters alone.
pub uninterp spec fn sha256_of(s: Seq<char>) -> Seq<u8>;

/// Relies on sha2's `Sha256` (`update`, `finalize`): the 32-byte SHA-256
/// digest of the UTF-8 bytes of `a` followed by those of `b`. UTF-8 encoding
/// and SHA-256 are both functions of their input alone, so the result
/// depends only on the concatenated characters.
#[verifier::external_body]
fn sha256_concat(a: &str, b: &str) -> (r: Vec<u8>)
    ensures
        r@ == sha256_of(a@ + b@),
        r@.len() == 32,
{
    let mut hasher = Sha256::new();
    hasher.update(a.as_bytes());
    hasher.update(b.as_bytes());
    hasher.finalize().to_vec()
}

/// Relies on `hex::encode`: two lowercase hex digits per input byte, high
/// nibble first.
#[verifier::external_body]
fn hex_lower(bytes: &Vec<u8>) -> (r: String)
    ensures
        r@ == spec_hex(bytes@),
{
    hex::encode(bytes.as_slice())
}

/// The digest of a character sequence: SHA-256 of its UTF-8 bytes, as 64
/// lowercase hex characters.
pub open spec fn spec_digest(s: Seq<char>) -> Seq<char> {
    spec_hex(sha256_of(s))
}

/// The digest is deterministic: equal inputs yield equal digests.
pub proof fn lemma_digest_deterministic(a: Seq<char>, b: Seq<char>)
    requires
        a == b,
    ensures
        spec_digest(a) == spec_digest(b),
{
}

/// Digest of the concatenation of two strings.
pub fn calculate_hash_pair(a: &str, b: &str) -> (r: String)
    ensures
        r@ == spec_digest(a@ + b@),
        r@.len() == 64,
{
    let bytes = sha256_concat(a, b);
    let r = hex_lower(&bytes);
    proof {
        lemma_spec_hex_len(bytes@);
    }
    r
}

/// Digest of a single string.
pub fn calculate_hash(input: &str) -> (r: String)
    ensures
        r@ == spec_digest(input@),
        r@.len() == 64,
{
    proof {
        reveal_strlit("");
        assert(input@ + ""@ =~= input@);
    }
    calculate_hash_pair(input, "")
}

/// A sequence of `n` `'0'` characters.
pub open spec fn spec_zeros(n: nat) -> Seq<char> {
    Seq::new(n, |i: int| '0')
}

/// Pads a hex string on the left with `'0'` up to 16 characters, as for a
/// 64-bit hash value written in hex.
pub fn format_hash(hash: String) -> (r: String)
    requires
        hash@.len() <= 16,
    ensures
        r@ == spec_zeros((16 - hash@.len()) as nat) + hash@,
        r@.len() == 16,
{
    proof {
        reveal_strlit("0");
    }
    let n = hash.as_str().unicode_len();
    let mut r = String::new();
    let mut i: usize = n;
    while i < 16
        invariant
            n <= i <= 16,
            n == hash@.len(),
            r@ =~= spec_zeros((i - n) as nat),
        decreases 16 - i,
    {
        proof {
            reveal_strlit("0");
        }
        r.append("0");
        i = i + 1;
        proof {
            assert(r@ =~= spec_zeros((i - n) as nat));
        }
    }
    r.append(hash.as_str());
    proof {
        assert(r@ =~= spec_zeros((16 - hash@.len()) as nat) + hash@);
    }
    r
}

} // verus!
