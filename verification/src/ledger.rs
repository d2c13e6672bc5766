//! The ledger: an append-only chain of sealed blocks plus a pending
//! transaction pool.
//!
//! Invariants: the chain is never empty (genesis is built at construction),
//! block indices are contiguous starting at 1, and from the second block on,
//! each block stores the digest of its predecessor's canonical message and a
//! nonce valid for the difficulty stored on the block itself.

use vstd::prelude::*;
use vstd::string::*;
use crate::block::{
    block_message, clone_block, clone_transactions, spec_block_message, Block, BlockView,
    Transaction, TransactionView,
};
use crate::errors::LedgerError;
use crate::hashing::spec_digest;
use crate::pow::{find_proof, spec_first_valid_nonce, spec_valid_nonce, verify_proof};

verus! {

/// The nonce recorded on the genesis block, which no difficulty constrains.
pub const GENESIS_NONCE: u64 = 111;

/// The fixed sentinel standing in for a predecessor digest at index 1.
pub open spec fn spec_genesis_hash() -> Seq<char> {
    seq!['a', 'b', 'c']
}

/// Builds the genesis sentinel.
pub fn genesis_previous_hash() -> (r: String)
    ensures
        r@ == spec_genesis_hash(),
{
    proof {
        reveal_strlit("abc");
    }
    let s = String::from_str("abc");
    proof {
        assert(s@ =~= seq!['a', 'b', 'c']);
    }
    s
}

/// The digest of a block's canonical message.
pub open spec fn spec_block_hash(b: BlockView) -> Seq<char> {
    spec_digest(spec_block_message(b))
}

/// Block `i` of the chain references its predecessor's digest and carries a
/// nonce valid for its own stored difficulty.
pub open spec fn spec_link_ok(chain: Seq<BlockView>, i: int) -> bool
    recommends
        1 <= i < chain.len(),
{
    &&& chain[i].previous_hash == spec_block_hash(chain[i - 1])
    &&& spec_valid_nonce(chain[i].previous_hash, chain[i].transactions, chain[i].nonce, chain[i].difficulty)
}

/// Every block from the second on passes [`spec_link_ok`]: the whole
/// validation predicate of the chain.
pub open spec fn spec_chain_valid(chain: Seq<BlockView>) -> bool {
    forall|i: int| 1 <= i < chain.len() ==> #[trigger] spec_link_ok(chain, i)
}

/// The mathematical value of a [`Blockchain`].
pub struct BlockchainView {
    pub chain: Seq<BlockView>,
    pub current_transactions: Seq<TransactionView>,
}

/// An ordered chain of sealed blocks and the pool of pending transactions
/// awaiting the next seal.
#[derive(Debug)]
pub struct Blockchain {
    pub chain: Vec<Block>,
    pub current_transactions: Vec<Transaction>,
}

impl DeepView for Blockchain {
    type V = BlockchainView;

    open spec fn deep_view(&self) -> BlockchainView {
        BlockchainView {
            chain: self.chain.deep_view(),
            current_transactions: self.current_transactions.deep_view(),
        }
    }
}

/// Relies on `std::time::SystemTime::now` (with `duration_since` and
/// `as_secs`): the wall clock as whole seconds since the Unix epoch.
/// Nothing is assumed of the value returned.
#[verifier::external_body]
pub fn get_timestamp() -> u64 {
    std::time::SystemTime::now()
        .duration_since(std::time::UNIX_EPOCH)
        .map(|d| d.as_secs())
        .unwrap_or(0)
}

impl Blockchain {
    /// The ledger's invariant: a non-empty chain with contiguous indices
    /// from 1, every block after genesis hash-linked and difficulty-valid.
    pub open spec fn wf(&self) -> bool {
        let c = self.deep_view().chain;
        &&& c.len() >= 1
        &&& forall|i: int| 0 <= i < c.len() ==> #[trigger] c[i].index as int == i + 1
        &&& spec_chain_valid(c)
    }

    /// Creates a ledger holding only the genesis block: index 1, no
    /// transactions, the fixed sentinel as previous hash, and an empty
    /// pending pool.
    pub fn new() -> (r: Self)
        ensures
            r.wf(),
            r.deep_view().chain.len() == 1,
            r.deep_view().chain[0].index == 1,
            r.deep_view().chain[0].transactions.len() == 0,
            r.deep_view().chain[0].nonce == GENESIS_NONCE,
            r.deep_view().chain[0].previous_hash == spec_genesis_hash(),
            r.deep_view().chain[0].difficulty == 0,
            r.deep_view().current_transactions.len() == 0,
    {
        let genesis = Block {
            index: 1,
            timestamp: get_timestamp(),
            transactions: Vec::new(),
            nonce: GENESIS_NONCE,
            previous_hash: genesis_previous_hash(),
            difficulty: 0,
        };
        let mut chain: Vec<Block> = Vec::new();
        chain.push(genesis);
        let r = Blockchain { chain, current_transactions: Vec::new() };
        proof {
            assert(r.deep_view().chain.len() == 1);
            assert(r.deep_view().chain[0] == r.chain@[0].deep_view());
        }
        r
    }

    /// Appends a transaction to the pending pool. The chain is untouched;
    /// the pool grows by exactly this transaction, in submission order.
    pub fn new_transaction(&mut self, sender: String, recipient: String, amount: u64)
        ensures
            final(self).deep_view().chain == old(self).deep_view().chain,
            final(self).deep_view().current_transactions == old(
                self,
            ).deep_view().current_transactions.push(
                TransactionView { sender: sender@, recipient: recipient@, amount },
            ),
            old(self).wf() ==> final(self).wf(),
    {
        let ghost tv = TransactionView { sender: sender@, recipient: recipient@, amount };
        self.current_transactions.push(Transaction { sender, recipient, amount });
        proof {
            assert(self.deep_view().current_transactions =~= old(
                self,
            ).deep_view().current_transactions.push(tv));
        }
    }

    /// A copy of the chain's tip.
    pub fn last_block(&self) -> (r: Block)
        requires
            self.chain@.len() > 0,
        ensures
            r.deep_view() == self.deep_view().chain.last(),
    {
        clone_block(&self.chain[self.chain.len() - 1])
    }

    /// The digest of a block's canonical message: what the successor must
    /// store as its `previous_hash`.
    pub fn calculate_hash(block: &Block) -> (r: String)
        ensures
            r@ == spec_block_hash(block.deep_view()),
            r@.len() == 64,
    {
        let msg = block_message(block);
        crate::hashing::calculate_hash(msg.as_str())
    }

    /// Searches for the first nonce making the digest over `last_hash` and
    /// the pending transactions satisfy `difficulty`.
    pub fn get_proof(&self, last_hash: &str, difficulty: u64) -> (r: Result<u64, LedgerError>)
        ensures
            match r {
                Ok(nonce) => nonce < u64::MAX && spec_first_valid_nonce(
                    last_hash@,
                    self.deep_view().current_transactions,
                    nonce,
                    difficulty,
                ),
                Err(e) => e == LedgerError::ProofNotFound && forall|q: u64|
                    q < u64::MAX ==> !spec_valid_nonce(
                        last_hash@,
                        self.deep_view().current_transactions,
                        q,
                        difficulty,
                    ),
            },
    {
        find_proof(last_hash, &self.current_transactions, difficulty, u64::MAX)
    }

    /// Appends a block built from the pending pool with the given nonce,
    /// previous hash and difficulty, clearing the pool, and returns a copy
    /// of it. The caller vouches for the nonce and the hash link; use
    /// [`Blockchain::seal_block`] for the checked path that preserves the
    /// ledger invariant.
    pub fn new_block(&mut self, nonce: u64, previous_hash: String, difficulty: u64) -> (r: Block)
        requires
            old(self).chain@.len() < u64::MAX,
        ensures
            r.deep_view().index as int == old(self).deep_view().chain.len() + 1,
            r.deep_view().transactions == old(self).deep_view().current_transactions,
            r.deep_view().nonce == nonce,
            r.deep_view().previous_hash == previous_hash@,
            r.deep_view().difficulty == difficulty,
            final(self).deep_view().chain == old(self).deep_view().chain.push(r.deep_view()),
            final(self).deep_view().current_transactions.len() == 0,
    {
        let txs = clone_transactions(&self.current_transactions);
        let block = Block {
            index: (self.chain.len() as u64) + 1,
            timestamp: get_timestamp(),
            transactions: txs,
            nonce,
            previous_hash,
            difficulty,
        };
        let r = clone_block(&block);
        self.current_transactions.clear();
        self.chain.push(block);
        proof {
            assert(self.deep_view().chain =~= old(self).deep_view().chain.push(r.deep_view()));
        }
        r
    }

    /// Snapshots the pending pool, digests the tip, searches a nonce for
    /// `difficulty`, and appends the resulting block, which is returned.
    /// `ProofNotFound` (practically unreachable) reports that no 64-bit
    /// nonce satisfies the predicate; the ledger is then unchanged.
    pub fn seal_block(&mut self, difficulty: u64) -> (r: Result<Block, LedgerError>)
        requires
            old(self).wf(),
            old(self).chain@.len() < u64::MAX,
        ensures
            match r {
                Ok(b) => {
                    &&& final(self).wf()
                    &&& final(self).deep_view().chain == old(self).deep_view().chain.push(
                        b.deep_view(),
                    )
                    &&& final(self).deep_view().current_transactions.len() == 0
                    &&& b.deep_view().index as int == old(self).deep_view().chain.len() + 1
                    &&& b.deep_view().transactions == old(self).deep_view().current_transactions
                    &&& b.deep_view().previous_hash == spec_block_hash(
                        old(self).deep_view().chain.last(),
                    )
                    &&& b.deep_view().difficulty == difficulty
                    &&& b.deep_view().nonce < u64::MAX
                    &&& spec_first_valid_nonce(
                        b.deep_view().previous_hash,
                        b.deep_view().transactions,
                        b.deep_view().nonce,
                        difficulty,
                    )
                },
                Err(e) => {
                    &&& e == LedgerError::ProofNotFound
                    &&& final(self).deep_view() == old(self).deep_view()
                    &&& forall|q: u64| q < u64::MAX ==> !spec_valid_nonce(
                        spec_block_hash(old(self).deep_view().chain.last()),
                        old(self).deep_view().current_transactions,
                        q,
                        difficulty,
                    )
                },
            },
    {
        let last = self.last_block();
        let last_hash = Self::calculate_hash(&last);
        match find_proof(last_hash.as_str(), &self.current_transactions, difficulty, u64::MAX) {
            Err(e) => Err(e),
            Ok(nonce) => {
                let ghost old_chain = self.deep_view().chain;
                let ghost old_pool = self.deep_view().current_transactions;
                let b = self.new_block(nonce, last_hash, difficulty);
                proof {
                    let c = self.deep_view().chain;
                    let n = old_chain.len() as int;
                    assert(c == old_chain.push(b.deep_view()));
                    assert forall|i: int| 0 <= i < c.len() implies #[trigger] c[i].index as int
                        == i + 1 by {
                        if i < n {
                            assert(c[i] == old_chain[i]);
                        }
                    }
                    assert forall|i: int| 1 <= i < c.len() implies #[trigger] spec_link_ok(
                        c,
                        i,
                    ) by {
                        if i < n {
                            assert(spec_link_ok(old_chain, i));
                            assert(c[i] == old_chain[i]);
                            assert(c[i - 1] == old_chain[i - 1]);
                        } else {
                            assert(c[i] == b.deep_view());
                            assert(c[i - 1] == old_chain[n - 1]);
                            assert(b.deep_view().previous_hash == spec_block_hash(
                                old_chain.last(),
                            ));
                            assert(spec_valid_nonce(
                                b.deep_view().previous_hash,
                                b.deep_view().transactions,
                                b.deep_view().nonce,
                                difficulty,
                            ));
                        }
                    }
                }
                Ok(b)
            },
        }
    }

    /// Checks every block from the second on: the stored `previous_hash`
    /// must equal the digest of the predecessor, and the block's nonce must
    /// satisfy its own stored difficulty. Reports the first offender by its
    /// 1-based position, or confirms the whole chain.
    pub fn check_chain(&self) -> (r: Result<(), LedgerError>)
        ensures
            match r {
                Ok(()) => spec_chain_valid(self.deep_view().chain),
                Err(e) => match e {
                    LedgerError::ChainIntegrityViolation(p) => {
                        &&& 2 <= p as int <= self.deep_view().chain.len()
                        &&& !spec_link_ok(self.deep_view().chain, p as int - 1)
                        &&& forall|j: int| 1 <= j < p as int - 1 ==> #[trigger] spec_link_ok(
                            self.deep_view().chain,
                            j,
                        )
                    },
                    _ => false,
                },
            },
    {
        let ghost c = self.deep_view().chain;
        let mut i: usize = 1;
        while i < self.chain.len()
            invariant
                1 <= i,
                c == self.deep_view().chain,
                i <= self.chain@.len() || self.chain@.len() == 0,
                forall|j: int| 1 <= j < i ==> #[trigger] spec_link_ok(c, j),
            decreases self.chain@.len() - i,
        {
            let expected = Self::calculate_hash(&self.chain[i - 1]);
            let bi = &self.chain[i];
            let linked = bi.previous_hash.eq(&expected);
            let mined = verify_proof(
                bi.previous_hash.as_str(),
                &bi.transactions,
                bi.nonce,
                bi.difficulty,
            );
            proof {
                assert(c[i as int] == self.chain@[i as int].deep_view());
                assert(c[i as int - 1] == self.chain@[i as int - 1].deep_view());
            }
            if !(linked && mined) {
                proof {
                    assert(!spec_link_ok(c, i as int));
                }
                return Err(LedgerError::ChainIntegrityViolation((i as u64) + 1));
            }
            proof {
                assert(spec_link_ok(c, i as int));
            }
            i = i + 1;
        }
        Ok(())
    }

    /// True exactly when the whole chain passes [`Blockchain::check_chain`].
    pub fn validate_chain(&self) -> (r: bool)
        ensures
            r == spec_chain_valid(self.deep_view().chain),
    {
        match self.check_chain() {
            Ok(()) => true,
            Err(e) => {
                proof {
                    let c = self.deep_view().chain;
                    if let LedgerError::ChainIntegrityViolation(p) = e {
                        assert(!spec_link_ok(c, p as int - 1));
                        assert(!spec_chain_valid(c));
                    }
                }
                false
            },
        }
    }
}

/// Chains produced only through the verified operations validate: a ledger
/// satisfying the invariant that `new` establishes and `seal_block`
/// preserves passes the whole validation predicate, each block checked at
/// the difficulty stored on it at seal time.
pub proof fn lemma_sealed_chain_validates(l: Blockchain)
    requires
        l.wf(),
    ensures
        spec_chain_valid(l.deep_view().chain),
{
}

} // verus!
