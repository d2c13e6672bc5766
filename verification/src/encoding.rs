//! Canonical text encoding of the primitive values that get hashed.
//!
//! Numbers are rendered in decimal and terminated by `';'`; strings are
//! length-prefixed by the decimal character count followed by `':'`. Since a
//! decimal numeral contains neither separator, a reader can always recover the
//! original fields from an encoded string: the scheme is unambiguous.

use vstd::prelude::*;
use vstd::string::*;

verus! {

/// The decimal digit character for a value below ten.
pub open spec fn dec_digit(d: nat) -> char {
    if d == 0 {
        '0'
    } else if d == 1 {
        '1'
    } else if d == 2 {
        '2'
    } else if d == 3 {
        '3'
    } else if d == 4 {
        '4'
    } else if d == 5 {
        '5'
    } else if d == 6 {
        '6'
    } else if d == 7 {
        '7'
    } else if d == 8 {
        '8'
    } else {
        '9'
    }
}

/// The usual decimal numeral of `n`: no leading zeros, except that zero
/// itself is written `"0"`.
pub open spec fn spec_dec(n: nat) -> Seq<char>
    decreases n,
{
    if n < 10 {
        seq![dec_digit(n)]
    } else {
        spec_dec(n / 10).push(dec_digit(n % 10))
    }
}

/// A number field: its decimal numeral terminated by `';'`.
pub open spec fn spec_enc_u64(n: u64) -> Seq<char> {
    spec_dec(n as nat) + seq![';']
}

/// A string field: the decimal character count, `':'`, then the characters.
pub open spec fn spec_enc_str(s: Seq<char>) -> Seq<char> {
    spec_dec(s.len()) + seq![':'] + s
}

/// A decimal digit character.
pub open spec fn is_dec_digit(c: char) -> bool {
    c == '0' || c == '1' || c == '2' || c == '3' || c == '4' || c == '5' || c == '6' || c == '7'
        || c == '8' || c == '9'
}

/// Every character of a decimal numeral is a digit; in particular neither
/// separator occurs in one.
pub proof fn lemma_dec_digits(n: nat)
    ensures
        forall|i: int| 0 <= i < spec_dec(n).len() ==> is_dec_digit(#[trigger] spec_dec(n)[i]),
    decreases n,
{
    if n >= 10 {
        lemma_dec_digits(n / 10);
        assert forall|i: int| 0 <= i < spec_dec(n).len() implies is_dec_digit(
            #[trigger] spec_dec(n)[i],
        ) by {
            if i < spec_dec(n / 10).len() {
                assert(spec_dec(n)[i] == spec_dec(n / 10)[i]);
            } else {
                assert(spec_dec(n)[i] == dec_digit(n % 10));
            }
        }
    }
}

/// A decimal numeral is never empty.
pub proof fn lemma_dec_len(n: nat)
    ensures
        spec_dec(n).len() >= 1,
        n >= 10 ==> spec_dec(n).len() >= 2,
    decreases n,
{
    if n >= 10 {
        lemma_dec_len(n / 10);
    }
}

/// Distinct numbers have distinct decimal numerals.
pub proof fn lemma_dec_injective(m: nat, n: nat)
    requires
        spec_dec(m) == spec_dec(n),
    ensures
        m == n,
    decreases m,
{
    lemma_dec_len(m);
    lemma_dec_len(n);
    if m < 10 && n < 10 {
        assert(spec_dec(m)[0] == dec_digit(m));
        assert(spec_dec(n)[0] == dec_digit(n));
    } else if m >= 10 && n >= 10 {
        assert(spec_dec(m).last() == dec_digit(m % 10));
        assert(spec_dec(n).last() == dec_digit(n % 10));
        assert(spec_dec(m).drop_last() =~= spec_dec(m / 10));
        assert(spec_dec(n).drop_last() =~= spec_dec(n / 10));
        lemma_dec_injective(m / 10, n / 10);
        assert(m == 10 * (m / 10) + m % 10);
        assert(n == 10 * (n / 10) + n % 10);
    } else if m < 10 {
        assert(spec_dec(n).len() >= 2);
        assert(false);
    } else {
        assert(spec_dec(m).len() >= 2);
        assert(false);
    }
}

/// A digits-only sequence followed by a non-digit separator and a tail can
/// be split only one way: equal concatenations have equal parts.
pub proof fn lemma_sep_split(
    d1: Seq<char>,
    t1: Seq<char>,
    d2: Seq<char>,
    t2: Seq<char>,
    sep: char,
)
    requires
        d1 + seq![sep] + t1 == d2 + seq![sep] + t2,
        !is_dec_digit(sep),
        forall|i: int| 0 <= i < d1.len() ==> is_dec_digit(#[trigger] d1[i]),
        forall|i: int| 0 <= i < d2.len() ==> is_dec_digit(#[trigger] d2[i]),
    ensures
        d1 == d2,
        t1 == t2,
{
    let whole = d1 + seq![sep] + t1;
    let l1 = d1.len() as int;
    let l2 = d2.len() as int;
    if l1 < l2 {
        assert(whole[l1] == sep);
        assert((d2 + seq![sep] + t2)[l1] == d2[l1]);
        assert(false);
    }
    if l2 < l1 {
        assert(whole[l2] == (d2 + seq![sep] + t2)[l2]);
        assert((d2 + seq![sep] + t2)[l2] == sep);
        assert(whole[l2] == d1[l2]);
        assert(false);
    }
    assert(d1 =~= whole.subrange(0, l1));
    assert(d2 =~= (d2 + seq![sep] + t2).subrange(0, l1));
    assert(t1 =~= whole.subrange(l1 + 1, whole.len() as int));
    assert(t2 =~= (d2 + seq![sep] + t2).subrange(l1 + 1, whole.len() as int));
}

/// A number field determines the number and whatever follows it.
pub proof fn lemma_enc_u64_prefix(a: u64, b: u64, r1: Seq<char>, r2: Seq<char>)
    requires
        spec_enc_u64(a) + r1 == spec_enc_u64(b) + r2,
    ensures
        a == b,
        r1 == r2,
{
    lemma_dec_digits(a as nat);
    lemma_dec_digits(b as nat);
    assert(spec_dec(a as nat) + seq![';'] + r1 =~= spec_enc_u64(a) + r1);
    assert(spec_dec(b as nat) + seq![';'] + r2 =~= spec_enc_u64(b) + r2);
    lemma_sep_split(spec_dec(a as nat), r1, spec_dec(b as nat), r2, ';');
    lemma_dec_injective(a as nat, b as nat);
}

/// A string field determines the string and whatever follows it.
pub proof fn lemma_enc_str_prefix(s1: Seq<char>, s2: Seq<char>, r1: Seq<char>, r2: Seq<char>)
    requires
        spec_enc_str(s1) + r1 == spec_enc_str(s2) + r2,
    ensures
        s1 == s2,
        r1 == r2,
{
    lemma_dec_digits(s1.len());
    lemma_dec_digits(s2.len());
    assert(spec_dec(s1.len()) + seq![':'] + (s1 + r1) =~= spec_enc_str(s1) + r1);
    assert(spec_dec(s2.len()) + seq![':'] + (s2 + r2) =~= spec_enc_str(s2) + r2);
    lemma_sep_split(spec_dec(s1.len()), s1 + r1, spec_dec(s2.len()), s2 + r2, ':');
    lemma_dec_injective(s1.len(), s2.len());
    let l = s1.len() as int;
    assert(s1 =~= (s1 + r1).subrange(0, l));
    assert(s2 =~= (s2 + r2).subrange(0, l));
    assert(r1 =~= (s1 + r1).subrange(l, (s1 + r1).len() as int));
    assert(r2 =~= (s2 + r2).subrange(l, (s2 + r2).len() as int));
}

fn dec_digit_char(d: u64) -> (r: &'static str)
    requires
        d < 10,
    ensures
        r@ == seq![dec_digit(d as nat)],
{
    proof {
        reveal_strlit("0");
        reveal_strlit("1");
        reveal_strlit("2");
        reveal_strlit("3");
        reveal_strlit("4");
        reveal_strlit("5");
        reveal_strlit("6");
        reveal_strlit("7");
        reveal_strlit("8");
        reveal_strlit("9");
    }
    let r: &'static str = if d == 0 {
        "0"
    } else if d == 1 {
        "1"
    } else if d == 2 {
        "2"
    } else if d == 3 {
        "3"
    } else if d == 4 {
        "4"
    } else if d == 5 {
        "5"
    } else if d == 6 {
        "6"
    } else if d == 7 {
        "7"
    } else if d == 8 {
        "8"
    } else {
        "9"
    };
    proof {
        assert(r@ =~= seq![dec_digit(d as nat)]);
    }
    r
}

/// Renders `n` as its decimal numeral.
pub fn u64_to_dec(n: u64) -> (r: String)
    ensures
        r@ == spec_dec(n as nat),
    decreases n,
{
    if n < 10 {
        String::from_str(dec_digit_char(n))
    } else {
        let mut s = u64_to_dec(n / 10);
        s.append(dec_digit_char(n % 10));
        proof {
            assert(s@ =~= spec_dec(n as nat));
        }
        s
    }
}

/// Appends the canonical number-field encoding of `n` to `out`.
pub fn append_enc_u64(out: &mut String, n: u64)
    ensures
        final(out)@ == old(out)@ + spec_enc_u64(n),
{
    proof {
        reveal_strlit(";");
    }
    let d = u64_to_dec(n);
    out.append(d.as_str());
    out.append(";");
    proof {
        assert(out@ =~= old(out)@ + spec_enc_u64(n));
    }
}

/// Appends the canonical string-field encoding of `s` to `out`.
pub fn append_enc_str(out: &mut String, s: &str)
    ensures
        final(out)@ == old(out)@ + spec_enc_str(s@),
{
    proof {
        reveal_strlit(":");
    }
    let n = s.unicode_len();
    let d = u64_to_dec(n as u64);
    out.append(d.as_str());
    out.append(":");
    out.append(s);
    proof {
        assert(out@ =~= old(out)@ + spec_enc_str(s@));
    }
}

} // verus!
