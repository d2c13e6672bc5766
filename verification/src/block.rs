//! Transactions and blocks, their mathematical views, and the canonical
//! message each block contributes to a digest.

use vstd::prelude::*;
use vstd::string::*;
use crate::encoding::{
    append_enc_str, append_enc_u64, lemma_enc_str_prefix, lemma_enc_u64_prefix, spec_enc_str,
    spec_enc_u64,
};

verus! {

/// A transfer of `amount` from `sender` to `recipient`. Immutable once
/// created; owned by the pending pool until embedded in a sealed block.
#[derive(Debug)]
pub struct Transaction {
    pub sender: String,
    pub recipient: String,
    pub amount: u64,
}

/// The mathematical value of a [`Transaction`].
pub struct TransactionView {
    pub sender: Seq<char>,
    pub recipient: Seq<char>,
    pub amount: u64,
}

impl DeepView for Transaction {
    type V = TransactionView;

    open spec fn deep_view(&self) -> TransactionView {
        TransactionView { sender: self.sender@, recipient: self.recipient@, amount: self.amount }
    }
}

/// A sealed unit of the chain. `previous_hash` is the digest of the
/// predecessor's canonical message (or the genesis sentinel at index 1), and
/// `nonce` is the proof value found for this block's `difficulty`.
#[derive(Debug)]
pub struct Block {
    pub index: u64,
    pub timestamp: u64,
    pub transactions: Vec<Transaction>,
    pub nonce: u64,
    pub previous_hash: String,
    pub difficulty: u64,
}

/// The mathematical value of a [`Block`].
pub struct BlockView {
    pub index: u64,
    pub timestamp: u64,
    pub transactions: Seq<TransactionView>,
    pub nonce: u64,
    pub previous_hash: Seq<char>,
    pub difficulty: u64,
}

impl DeepView for Block {
    type V = BlockView;

    open spec fn deep_view(&self) -> BlockView {
        BlockView {
            index: self.index,
            timestamp: self.timestamp,
            transactions: self.transactions.deep_view(),
            nonce: self.nonce,
            previous_hash: self.previous_hash@,
            difficulty: self.difficulty,
        }
    }
}

/// A value-preserving copy of a transaction.
pub fn clone_transaction(t: &Transaction) -> (r: Transaction)
    ensures
        r.deep_view() == t.deep_view(),
{
    Transaction {
        sender: t.sender.clone(),
        recipient: t.recipient.clone(),
        amount: t.amount,
    }
}

/// A value-preserving copy of a transaction batch.
pub fn clone_transactions(ts: &Vec<Transaction>) -> (r: Vec<Transaction>)
    ensures
        r.deep_view() == ts.deep_view(),
{
    let mut r: Vec<Transaction> = Vec::new();
    let mut i: usize = 0;
    while i < ts.len()
        invariant
            0 <= i <= ts.len(),
            r@.len() == i,
            forall|j: int| 0 <= j < i ==> #[trigger] r@[j].deep_view() == ts@[j].deep_view(),
        decreases ts.len() - i,
    {
        r.push(clone_transaction(&ts[i]));
        i = i + 1;
    }
    proof {
        assert forall|j: int| 0 <= j < r.deep_view().len() implies r.deep_view()[j]
            == ts.deep_view()[j] by {
            assert(r@[j].deep_view() == ts@[j].deep_view());
        }
        assert(r.deep_view() =~= ts.deep_view());
    }
    r
}

/// A value-preserving copy of a block.
pub fn clone_block(b: &Block) -> (r: Block)
    ensures
        r.deep_view() == b.deep_view(),
{
    Block {
        index: b.index,
        timestamp: b.timestamp,
        transactions: clone_transactions(&b.transactions),
        nonce: b.nonce,
        previous_hash: b.previous_hash.clone(),
        difficulty: b.difficulty,
    }
}

/// Canonical encoding of one transaction: sender, recipient, amount.
pub open spec fn spec_enc_transaction(t: TransactionView) -> Seq<char> {
    spec_enc_str(t.sender) + spec_enc_str(t.recipient) + spec_enc_u64(t.amount)
}

/// Canonical encoding of a transaction batch, in order, without the count.
pub open spec fn spec_enc_transaction_list(ts: Seq<TransactionView>) -> Seq<char>
    decreases ts.len(),
{
    if ts.len() == 0 {
        Seq::empty()
    } else {
        spec_enc_transaction_list(ts.drop_last()) + spec_enc_transaction(ts.last())
    }
}

/// Canonical encoding of a transaction batch: the count, then each
/// transaction in submission order.
pub open spec fn spec_enc_transactions(ts: Seq<TransactionView>) -> Seq<char> {
    spec_enc_u64(ts.len() as u64) + spec_enc_transaction_list(ts)
}

/// Appends the canonical encoding of one transaction to `out`.
pub fn append_enc_transaction(out: &mut String, t: &Transaction)
    ensures
        final(out)@ == old(out)@ + spec_enc_transaction(t.deep_view()),
{
    append_enc_str(out, t.sender.as_str());
    append_enc_str(out, t.recipient.as_str());
    append_enc_u64(out, t.amount);
    proof {
        assert(out@ =~= old(out)@ + spec_enc_transaction(t.deep_view()));
    }
}

/// Appends the canonical encoding of a transaction batch to `out`.
pub fn append_enc_transactions(out: &mut String, ts: &Vec<Transaction>)
    ensures
        final(out)@ == old(out)@ + spec_enc_transactions(ts.deep_view()),
{
    let ghost base: Seq<char> = out@;
    append_enc_u64(out, ts.len() as u64);
    let mut i: usize = 0;
    while i < ts.len()
        invariant
            0 <= i <= ts.len(),
            out@ =~= base + spec_enc_u64(ts.len() as u64)
                + spec_enc_transaction_list(ts.deep_view().take(i as int)),
        decreases ts.len() - i,
    {
        append_enc_transaction(out, &ts[i]);
        i = i + 1;
        proof {
            let dv = ts.deep_view();
            assert(dv.take(i as int).drop_last() =~= dv.take(i as int - 1));
            assert(dv.take(i as int).last() == dv[i as int - 1]);
            assert(out@ =~= base + spec_enc_u64(ts.len() as u64)
                + spec_enc_transaction_list(dv.take(i as int)));
        }
    }
    proof {
        assert(ts.deep_view().take(ts.len() as int) =~= ts.deep_view());
    }
}

/// The canonical message of a whole block: index, timestamp, transactions,
/// nonce, difficulty, previous hash.
pub open spec fn spec_block_message(b: BlockView) -> Seq<char> {
    spec_enc_u64(b.index) + spec_enc_u64(b.timestamp) + spec_enc_transactions(b.transactions)
        + spec_enc_u64(b.nonce) + spec_enc_u64(b.difficulty) + spec_enc_str(b.previous_hash)
}

/// Tamper evidence at the encoding level: two blocks with the same
/// canonical message are equal in every field. Changing a sealed block's
/// transactions, nonce, previous hash or any other field therefore changes
/// the very input of its digest; re-validation can miss it only on a digest
/// collision.
#[verifier::rlimit(60)]
pub proof fn lemma_block_message_injective(b1: BlockView, b2: BlockView)
    requires
        b1.transactions.len() <= u64::MAX,
        b2.transactions.len() <= u64::MAX,
        spec_block_message(b1) == spec_block_message(b2),
    ensures
        b1 == b2,
{
    let tail1 = spec_enc_u64(b1.nonce) + (spec_enc_u64(b1.difficulty) + (spec_enc_str(
        b1.previous_hash,
    ) + Seq::<char>::empty()));
    let tail2 = spec_enc_u64(b2.nonce) + (spec_enc_u64(b2.difficulty) + (spec_enc_str(
        b2.previous_hash,
    ) + Seq::<char>::empty()));
    assert(spec_enc_u64(b1.index) + (spec_enc_u64(b1.timestamp) + (spec_enc_transactions(
        b1.transactions,
    ) + tail1)) =~= spec_block_message(b1));
    assert(spec_enc_u64(b2.index) + (spec_enc_u64(b2.timestamp) + (spec_enc_transactions(
        b2.transactions,
    ) + tail2)) =~= spec_block_message(b2));
    lemma_enc_u64_prefix(
        b1.index,
        b2.index,
        spec_enc_u64(b1.timestamp) + (spec_enc_transactions(b1.transactions) + tail1),
        spec_enc_u64(b2.timestamp) + (spec_enc_transactions(b2.transactions) + tail2),
    );
    lemma_enc_u64_prefix(
        b1.timestamp,
        b2.timestamp,
        spec_enc_transactions(b1.transactions) + tail1,
        spec_enc_transactions(b2.transactions) + tail2,
    );
    lemma_enc_transactions_prefix(b1.transactions, b2.transactions, tail1, tail2);
    lemma_enc_u64_prefix(
        b1.nonce,
        b2.nonce,
        spec_enc_u64(b1.difficulty) + (spec_enc_str(b1.previous_hash) + Seq::<char>::empty()),
        spec_enc_u64(b2.difficulty) + (spec_enc_str(b2.previous_hash) + Seq::<char>::empty()),
    );
    lemma_enc_u64_prefix(
        b1.difficulty,
        b2.difficulty,
        spec_enc_str(b1.previous_hash) + Seq::<char>::empty(),
        spec_enc_str(b2.previous_hash) + Seq::<char>::empty(),
    );
    lemma_enc_str_prefix(
        b1.previous_hash,
        b2.previous_hash,
        Seq::<char>::empty(),
        Seq::<char>::empty(),
    );
}

/// Builds the canonical message of a block.
pub fn block_message(b: &Block) -> (r: String)
    ensures
        r@ == spec_block_message(b.deep_view()),
{
    let mut out = String::new();
    append_enc_u64(&mut out, b.index);
    append_enc_u64(&mut out, b.timestamp);
    append_enc_transactions(&mut out, &b.transactions);
    append_enc_u64(&mut out, b.nonce);
    append_enc_u64(&mut out, b.difficulty);
    append_enc_str(&mut out, b.previous_hash.as_str());
    proof {
        assert(out@ =~= spec_block_message(b.deep_view()));
    }
    out
}

/// A transaction's encoding determines its fields and whatever follows it.
pub proof fn lemma_enc_transaction_prefix(
    t1: TransactionView,
    t2: TransactionView,
    r1: Seq<char>,
    r2: Seq<char>,
)
    requires
        spec_enc_transaction(t1) + r1 == spec_enc_transaction(t2) + r2,
    ensures
        t1 == t2,
        r1 == r2,
{
    assert(spec_enc_str(t1.sender) + (spec_enc_str(t1.recipient) + (spec_enc_u64(t1.amount) + r1))
        =~= spec_enc_transaction(t1) + r1);
    assert(spec_enc_str(t2.sender) + (spec_enc_str(t2.recipient) + (spec_enc_u64(t2.amount) + r2))
        =~= spec_enc_transaction(t2) + r2);
    lemma_enc_str_prefix(
        t1.sender,
        t2.sender,
        spec_enc_str(t1.recipient) + (spec_enc_u64(t1.amount) + r1),
        spec_enc_str(t2.recipient) + (spec_enc_u64(t2.amount) + r2),
    );
    lemma_enc_str_prefix(
        t1.recipient,
        t2.recipient,
        spec_enc_u64(t1.amount) + r1,
        spec_enc_u64(t2.amount) + r2,
    );
    lemma_enc_u64_prefix(t1.amount, t2.amount, r1, r2);
}

/// A batch encoding of a known count determines each transaction and
/// whatever follows the batch.
pub proof fn lemma_enc_transaction_list_prefix(
    ts1: Seq<TransactionView>,
    ts2: Seq<TransactionView>,
    r1: Seq<char>,
    r2: Seq<char>,
)
    requires
        ts1.len() == ts2.len(),
        spec_enc_transaction_list(ts1) + r1 == spec_enc_transaction_list(ts2) + r2,
    ensures
        ts1 == ts2,
        r1 == r2,
    decreases ts1.len(),
{
    if ts1.len() == 0 {
        assert(spec_enc_transaction_list(ts1) + r1 =~= r1);
        assert(spec_enc_transaction_list(ts2) + r2 =~= r2);
        assert(ts1 =~= ts2);
    } else {
        assert(spec_enc_transaction_list(ts1.drop_last()) + (spec_enc_transaction(ts1.last())
            + r1) =~= spec_enc_transaction_list(ts1) + r1);
        assert(spec_enc_transaction_list(ts2.drop_last()) + (spec_enc_transaction(ts2.last())
            + r2) =~= spec_enc_transaction_list(ts2) + r2);
        lemma_enc_transaction_list_prefix(
            ts1.drop_last(),
            ts2.drop_last(),
            spec_enc_transaction(ts1.last()) + r1,
            spec_enc_transaction(ts2.last()) + r2,
        );
        lemma_enc_transaction_prefix(ts1.last(), ts2.last(), r1, r2);
        assert forall|i: int| 0 <= i < ts1.len() implies ts1[i] == ts2[i] by {
            if i < ts1.len() - 1 {
                assert(ts1.drop_last()[i] == ts2.drop_last()[i]);
            } else {
                assert(ts1[i] == ts1.last());
                assert(ts2[i] == ts2.last());
            }
        }
        assert(ts1 =~= ts2);
    }
}

/// A batch encoding determines the batch and whatever follows it.
pub proof fn lemma_enc_transactions_prefix(
    ts1: Seq<TransactionView>,
    ts2: Seq<TransactionView>,
    r1: Seq<char>,
    r2: Seq<char>,
)
    requires
        ts1.len() <= u64::MAX,
        ts2.len() <= u64::MAX,
        spec_enc_transactions(ts1) + r1 == spec_enc_transactions(ts2) + r2,
    ensures
        ts1 == ts2,
        r1 == r2,
{
    assert(spec_enc_u64(ts1.len() as u64) + (spec_enc_transaction_list(ts1) + r1)
        =~= spec_enc_transactions(ts1) + r1);
    assert(spec_enc_u64(ts2.len() as u64) + (spec_enc_transaction_list(ts2) + r2)
        =~= spec_enc_transactions(ts2) + r2);
    lemma_enc_u64_prefix(
        ts1.len() as u64,
        ts2.len() as u64,
        spec_enc_transaction_list(ts1) + r1,
        spec_enc_transaction_list(ts2) + r2,
    );
    lemma_enc_transaction_list_prefix(ts1, ts2, r1, r2);
}

/// The part of a proof-of-work message that does not depend on the nonce:
/// the previous hash and the candidate transactions.
pub open spec fn spec_pow_prefix(previous_hash: Seq<char>, ts: Seq<TransactionView>) -> Seq<char> {
    spec_enc_str(previous_hash) + spec_enc_transactions(ts)
}

/// The full proof-of-work message for one nonce candidate.
pub open spec fn spec_pow_message(
    previous_hash: Seq<char>,
    ts: Seq<TransactionView>,
    nonce: u64,
) -> Seq<char> {
    spec_pow_prefix(previous_hash, ts) + spec_enc_u64(nonce)
}

/// Two proof-of-work messages agree only when the previous hash, the
/// transaction batch and the nonce all agree: changing any of the inputs of
/// the difficulty check changes the digested message itself.
pub proof fn lemma_pow_message_injective(
    h1: Seq<char>,
    ts1: Seq<TransactionView>,
    n1: u64,
    h2: Seq<char>,
    ts2: Seq<TransactionView>,
    n2: u64,
)
    requires
        ts1.len() <= u64::MAX,
        ts2.len() <= u64::MAX,
        spec_pow_message(h1, ts1, n1) == spec_pow_message(h2, ts2, n2),
    ensures
        h1 == h2,
        ts1 == ts2,
        n1 == n2,
{
    assert(spec_enc_str(h1) + (spec_enc_transactions(ts1) + spec_enc_u64(n1)) =~= spec_pow_message(
        h1,
        ts1,
        n1,
    ));
    assert(spec_enc_str(h2) + (spec_enc_transactions(ts2) + spec_enc_u64(n2)) =~= spec_pow_message(
        h2,
        ts2,
        n2,
    ));
    lemma_enc_str_prefix(
        h1,
        h2,
        spec_enc_transactions(ts1) + spec_enc_u64(n1),
        spec_enc_transactions(ts2) + spec_enc_u64(n2),
    );
    lemma_enc_transactions_prefix(ts1, ts2, spec_enc_u64(n1), spec_enc_u64(n2));
    lemma_enc_u64_prefix(n1, n2, Seq::<char>::empty(), Seq::<char>::empty());
    assert(spec_enc_u64(n1) + Seq::<char>::empty() =~= spec_enc_u64(n1));
    assert(spec_enc_u64(n2) + Seq::<char>::empty() =~= spec_enc_u64(n2));
}

/// Builds the nonce-independent part of the proof-of-work message.
pub fn pow_prefix(previous_hash: &str, transactions: &Vec<Transaction>) -> (r: String)
    ensures
        r@ == spec_pow_prefix(previous_hash@, transactions.deep_view()),
{
    let mut out = String::new();
    append_enc_str(&mut out, previous_hash);
    append_enc_transactions(&mut out, transactions);
    proof {
        assert(out@ =~= spec_pow_prefix(previous_hash@, transactions.deep_view()));
    }
    out
}

/// Builds the full proof-of-work message for one nonce candidate.
pub fn pow_message(previous_hash: &str, transactions: &Vec<Transaction>, nonce: u64) -> (r: String)
    ensures
        r@ == spec_pow_message(previous_hash@, transactions.deep_view(), nonce),
{
    let mut out = pow_prefix(previous_hash, transactions);
    append_enc_u64(&mut out, nonce);
    out
}

} // verus!
