//! The ledger: the chain of blocks and the pool of pending transactions.

use crate::block::{block_digest, block_views, Block, BlockView};
use crate::clock::unix_seconds;
use crate::consensus::{
    candidate_view, candidate_views, is_winner, longest_valid, no_winner, Resolution,
};
use crate::error::LedgerError;
use crate::pool::TransactionPool;
use crate::pow::{check_proof, first_solution, satisfies, solve, DIFFICULTY};
use crate::transaction::{reward_for, transaction_views, Transaction, TransactionView};
use crate::validator::{is_valid_chain, lemma_append_keeps_valid, valid_chain};
use vstd::prelude::*;
use vstd::string::*;

verus! {

/// The proof that the first block carries.
pub const GENESIS_PROOF: i32 = 100;

/// The previous hash that the first block carries: a run of zeros.
pub const GENESIS_PREVIOUS_HASH: &'static str =
    "000000000000000000000000000000000000000000000000000000000000000";

/// The chain of blocks and the transactions that wait for the next block.
#[derive(Debug)]
pub struct Blockchain {
    chain: Vec<Block>,
    current_txns: TransactionPool,
}

/// What a ledger holds.
pub struct LedgerView {
    pub chain: Seq<BlockView>,
    pub pending: Seq<TransactionView>,
}

impl View for Blockchain {
    type V = LedgerView;

    closed spec fn view(&self) -> LedgerView {
        LedgerView { chain: block_views(self.chain@), pending: self.current_txns@ }
    }
}

impl LedgerView {
    /// The ledger before its first block: no blocks, nothing pending.
    pub open spec fn empty() -> LedgerView {
        LedgerView { chain: Seq::empty(), pending: Seq::empty() }
    }

    /// The first block of every chain, made at the given time.
    pub open spec fn genesis_block(timestamp: nat) -> BlockView {
        BlockView {
            index: 1,
            timestamp,
            transactions: Seq::empty(),
            proof: GENESIS_PROOF as int,
            previous_hash: GENESIS_PREVIOUS_HASH@,
        }
    }

    /// The ledger with the first block appended.
    pub open spec fn with_genesis(self, timestamp: nat) -> LedgerView {
        LedgerView { chain: self.chain.push(Self::genesis_block(timestamp)), ..self }
    }

    /// The ledger with one more transaction waiting.
    pub open spec fn submitted(self, transaction: TransactionView) -> LedgerView {
        LedgerView { pending: self.pending.push(transaction), ..self }
    }

    /// The block that forging would append: it takes the next index and all
    /// pending transactions.
    pub open spec fn next_block(self, proof: int, previous_hash: Seq<char>, timestamp: nat)
        -> BlockView {
        BlockView {
            index: self.chain.len() + 1,
            timestamp,
            transactions: self.pending,
            proof,
            previous_hash,
        }
    }

    /// The ledger after forging: the next block is appended and nothing is
    /// pending.
    pub open spec fn forged(self, proof: int, previous_hash: Seq<char>, timestamp: nat)
        -> LedgerView {
        LedgerView {
            chain: self.chain.push(self.next_block(proof, previous_hash, timestamp)),
            pending: Seq::empty(),
        }
    }

    /// The ledger with its chain replaced and its pending transactions kept.
    pub open spec fn replaced(self, chain: Seq<BlockView>) -> LedgerView {
        LedgerView { chain, ..self }
    }

    /// Why a proof and a previous hash handed in for the next block are
    /// refused, if they are.
    pub open spec fn forge_error(self, proof: int, previous_hash: Seq<char>) -> Option<
        LedgerError,
    > {
        if self.chain.len() == 0 {
            Some(LedgerError::ChainNotInitialized)
        } else if block_digest(self.chain.last()) != Some(previous_hash) {
            Some(LedgerError::StaleForge)
        } else if !satisfies(self.chain.last().proof, proof, DIFFICULTY as nat) {
            Some(LedgerError::InvalidProof)
        } else {
            None
        }
    }

    /// Whether some 32-bit number from zero upwards solves the puzzle of the
    /// last block.
    pub open spec fn solvable(self) -> bool {
        exists|c: int|
            0 <= c <= i32::MAX && #[trigger] satisfies(
                self.chain.last().proof,
                c,
                DIFFICULTY as nat,
            )
    }

    /// Why the next block cannot be mined, if it cannot.
    pub open spec fn mining_error(self) -> Option<LedgerError> {
        if self.chain.len() == 0 {
            Some(LedgerError::ChainNotInitialized)
        } else if block_digest(self.chain.last()) is None {
            Some(LedgerError::TailNotHashable)
        } else if !self.solvable() {
            Some(LedgerError::ProofNotFound)
        } else {
            None
        }
    }

    /// Whether `block` is what mining for `recipient` appends: it takes the
    /// pending transactions and the reward behind them, names the digest of
    /// the last block and carries the first proof that solves its puzzle.
    pub open spec fn mined_block(self, recipient: Seq<char>, block: BlockView) -> bool {
        &&& self.chain.len() > 0
        &&& block_digest(self.chain.last()) == Some(block.previous_hash)
        &&& first_solution(self.chain.last().proof, block.proof, DIFFICULTY as nat)
        &&& block == self.submitted(reward_for(recipient)).next_block(
            block.proof,
            block.previous_hash,
            block.timestamp,
        )
    }
}

impl Blockchain {
    /// A ledger without blocks and without pending transactions. Its first
    /// block is made by [`Blockchain::generate_genesis_block`].
    pub fn new() -> (ledger: Self)
        ensures
            ledger@ == LedgerView::empty(),
    {
        let ledger = Blockchain { chain: Vec::new(), current_txns: TransactionPool::new() };
        assert(ledger@.chain =~= Seq::<BlockView>::empty());
        ledger
    }

    /// Appends the first block, stamped with the current time. This is the
    /// first operation on a ledger.
    pub fn generate_genesis_block(&mut self)
        requires
            old(self)@.chain.len() == 0,
        ensures
            final(self)@.chain.len() == 1,
            final(self)@ == old(self)@.with_genesis(final(self)@.chain[0].timestamp),
            valid_chain(final(self)@.chain),
    {
        self.generate_genesis_block_at(unix_seconds());
    }

    /// Appends the first block, made at the given time.
    pub fn generate_genesis_block_at(&mut self, timestamp: u64)
        requires
            old(self)@.chain.len() == 0,
        ensures
            final(self)@ == old(self)@.with_genesis(timestamp as nat),
            valid_chain(final(self)@.chain),
    {
        let block = Block {
            index: 1,
            timestamp,
            transactions: Vec::new(),
            proof: GENESIS_PROOF,
            previous_hash: String::from_str(GENESIS_PREVIOUS_HASH),
        };
        assert(block@.transactions =~= Seq::<TransactionView>::empty());
        self.chain.push(block);
        assert(self@.chain =~= old(self)@.chain.push(LedgerView::genesis_block(timestamp as nat)));
    }

    /// Forges the next block from the pending transactions, stamped with the
    /// current time, appends it and empties the pool. Fails, and changes
    /// nothing, on a ledger without a first block.
    pub fn new_block(&mut self, proof: i32, previous_hash: String) -> (result: Result<
        &Block,
        LedgerError,
    >)
        requires
            old(self)@.chain.len() < usize::MAX,
        ensures
            match result {
                Ok(block) => {
                    &&& old(self)@.chain.len() > 0
                    &&& final(self)@ == old(self)@.forged(
                        proof as int,
                        previous_hash@,
                        block@.timestamp,
                    )
                    &&& block@ == final(self)@.chain.last()
                },
                Err(error) => {
                    &&& old(self)@.chain.len() == 0
                    &&& error == LedgerError::ChainNotInitialized
                    &&& final(self)@ == old(self)@
                },
            },
    {
        self.new_block_at(proof, previous_hash, unix_seconds())
    }

    /// Forges the next block as [`Blockchain::new_block`] does, made at the
    /// given time.
    pub fn new_block_at(&mut self, proof: i32, previous_hash: String, timestamp: u64) -> (result:
        Result<&Block, LedgerError>)
        requires
            old(self)@.chain.len() < usize::MAX,
        ensures
            match result {
                Ok(block) => {
                    &&& old(self)@.chain.len() > 0
                    &&& final(self)@ == old(self)@.forged(
                        proof as int,
                        previous_hash@,
                        timestamp as nat,
                    )
                    &&& block@ == final(self)@.chain.last()
                },
                Err(error) => {
                    &&& old(self)@.chain.len() == 0
                    &&& error == LedgerError::ChainNotInitialized
                    &&& final(self)@ == old(self)@
                },
            },
    {
        if self.chain.len() == 0 {
            return Err(LedgerError::ChainNotInitialized);
        }
        let index: usize = self.chain.len() + 1;
        let block = Block::at(
            index,
            self.current_txns.snapshot(),
            proof,
            previous_hash,
            timestamp,
        );
        self.chain.push(block);
        self.current_txns.clear();
        assert(self@.chain =~= old(self)@.chain.push(
            old(self)@.next_block(proof as int, previous_hash@, timestamp as nat),
        ));
        let last: usize = self.chain.len() - 1;
        Ok(&self.chain[last])
    }

    /// Puts a transaction into the pool and returns the index of the block
    /// that will hold it: the next one to be forged.
    pub fn new_transaction(&mut self, sender: String, recipient: String, amount: i32) -> (index:
        usize)
        requires
            old(self)@.chain.len() < usize::MAX,
        ensures
            index == old(self)@.chain.len() + 1,
            final(self)@ == old(self)@.submitted(
                TransactionView { sender: sender@, recipient: recipient@, amount: amount as int },
            ),
    {
        self.current_txns.add(Transaction::new(sender, recipient, amount));
        self.chain.len() + 1
    }

    /// The newest block; `None` only before the first block is made.
    pub fn last_block(&self) -> (last: Option<&Block>)
        ensures
            match last {
                Some(block) => self@.chain.len() > 0 && block@ == self@.chain.last(),
                None => self@.chain.len() == 0,
            },
    {
        let last = self.chain.last();
        last
    }

    /// The digest of a block, or `None` where the block is too long to be
    /// digested.
    pub fn hash_block(&self, block: &Block) -> (digest: Option<String>)
        ensures
            match digest {
                Some(text) => block_digest(block@) == Some(text@),
                None => block_digest(block@) is None,
            },
    {
        block.digest()
    }

    /// Searches the first number from zero upwards that solves the puzzle
    /// posed by `last_proof`; `None` when no 32-bit number does.
    pub fn proof_of_work(&self, last_proof: i32) -> (found: Option<i32>)
        ensures
            match found {
                Some(proof) => first_solution(last_proof as int, proof as int, DIFFICULTY as nat),
                None => forall|c: int|
                    0 <= c <= i32::MAX ==> !satisfies(last_proof as int, c, DIFFICULTY as nat),
            },
    {
        solve(last_proof, DIFFICULTY)
    }

    /// Whether `proof` solves the puzzle posed by `last_proof`.
    pub fn valid_proof(&self, last_proof: i32, proof: i32) -> (ok: bool)
        ensures
            ok == satisfies(last_proof as int, proof as int, DIFFICULTY as nat),
    {
        check_proof(last_proof, proof, DIFFICULTY)
    }

    /// Forges the next block for `recipient` with a proof that was sought
    /// beforehand, if it still fits: `previous_hash` must be the digest of the
    /// last block, and `proof` must solve its puzzle. The reward is then put
    /// behind the pending transactions and the block is forged. Otherwise
    /// nothing changes and the error says what did not fit: a stale previous
    /// hash means that the chain has moved on, and the proof is to be sought
    /// again.
    pub fn forge_mined(&mut self, recipient: String, proof: i32, previous_hash: String) -> (result:
        Result<&Block, LedgerError>)
        requires
            old(self)@.chain.len() < usize::MAX,
        ensures
            match result {
                Ok(block) => {
                    &&& old(self)@.forge_error(proof as int, previous_hash@) is None
                    &&& final(self)@ == old(self)@.submitted(reward_for(recipient@)).forged(
                        proof as int,
                        previous_hash@,
                        block@.timestamp,
                    )
                    &&& block@ == final(self)@.chain.last()
                },
                Err(error) => {
                    &&& old(self)@.forge_error(proof as int, previous_hash@) == Some(error)
                    &&& final(self)@ == old(self)@
                },
            },
            valid_chain(old(self)@.chain) ==> valid_chain(final(self)@.chain),
    {
        if self.chain.len() == 0 {
            return Err(LedgerError::ChainNotInitialized);
        }
        let tail = &self.chain[self.chain.len() - 1];
        let fits = match tail.digest() {
            Some(digest) => digest == previous_hash,
            None => false,
        };
        if !fits {
            return Err(LedgerError::StaleForge);
        }
        if !check_proof(tail.proof, proof, DIFFICULTY) {
            return Err(LedgerError::InvalidProof);
        }
        self.current_txns.add(Transaction::reward(recipient));
        let forged = self.new_block(proof, previous_hash);
        proof {
            if valid_chain(old(self)@.chain) {
                lemma_append_keeps_valid(old(self)@.chain, forged.unwrap()@);
            }
        }
        forged
    }

    /// Mines the next block for `recipient`: puts the reward behind the
    /// pending transactions, searches the proof for the last block's puzzle
    /// and forges the block. Where that cannot be done nothing changes.
    pub fn mine(&mut self, recipient: String) -> (result: Result<&Block, LedgerError>)
        requires
            old(self)@.chain.len() < usize::MAX,
        ensures
            match result {
                Ok(block) => {
                    &&& old(self)@.mining_error() is None
                    &&& old(self)@.mined_block(recipient@, block@)
                    &&& final(self)@ == old(self)@.submitted(reward_for(recipient@)).forged(
                        block@.proof,
                        block@.previous_hash,
                        block@.timestamp,
                    )
                    &&& block@ == final(self)@.chain.last()
                },
                Err(error) => {
                    &&& old(self)@.mining_error() == Some(error)
                    &&& final(self)@ == old(self)@
                },
            },
            valid_chain(old(self)@.chain) ==> valid_chain(final(self)@.chain),
    {
        if self.chain.len() == 0 {
            return Err(LedgerError::ChainNotInitialized);
        }
        let tail = &self.chain[self.chain.len() - 1];
        let last_proof: i32 = tail.proof;
        let previous_hash = match tail.digest() {
            Some(digest) => digest,
            None => {
                return Err(LedgerError::TailNotHashable);
            },
        };
        self.current_txns.add(Transaction::reward(recipient));
        match solve(last_proof, DIFFICULTY) {
            None => {
                self.current_txns.withdraw_last();
                assert(self@.pending =~= old(self)@.pending);
                Err(LedgerError::ProofNotFound)
            },
            Some(proof) => {
                let forged = self.new_block(proof, previous_hash);
                proof {
                    if valid_chain(old(self)@.chain) {
                        lemma_append_keeps_valid(old(self)@.chain, forged.unwrap()@);
                    }
                }
                forged
            },
        }
    }

    /// Whether the chain is valid.
    pub fn is_valid(&self) -> (ok: bool)
        ensures
            ok == valid_chain(self@.chain),
    {
        is_valid_chain(self.chain.as_slice())
    }

    /// Settles on the longest valid chain among the local one and those that
    /// the peers sent; `None` stands for a peer that could not be reached and
    /// is passed over. The local chain gives way only to a longer one, and
    /// then as a whole; the pending transactions stay as they are.
    pub fn resolve_conflicts(&mut self, answers: Vec<Option<Vec<Block>>>) -> (outcome: Resolution)
        ensures
            match outcome {
                Resolution::Replaced => exists|k: int|
                    {
                        &&& #[trigger] is_winner(
                            old(self)@.chain.len(),
                            candidate_views(answers@),
                            k,
                        )
                        &&& final(self)@ == old(self)@.replaced(candidate_views(answers@)[k]->0)
                    },
                Resolution::Authoritative => {
                    &&& no_winner(old(self)@.chain.len(), candidate_views(answers@))
                    &&& final(self)@ == old(self)@
                },
            },
            final(self)@.chain.len() >= old(self)@.chain.len(),
            valid_chain(old(self)@.chain) ==> valid_chain(final(self)@.chain),
    {
        let mut answers = answers;
        match longest_valid(self.chain.len(), &answers) {
            None => Resolution::Authoritative,
            Some(k) => {
                let ghost views = candidate_views(answers@);
                assert(views[k as int] == candidate_view(answers@[k as int]));
                let winner = answers.swap_remove(k);
                self.chain = winner.unwrap();
                assert(is_winner(old(self)@.chain.len(), views, k as int));
                Resolution::Replaced
            },
        }
    }

    /// The blocks of the chain, oldest first.
    pub fn chain(&self) -> (blocks: &Vec<Block>)
        ensures
            block_views(blocks@) == self@.chain,
    {
        &self.chain
    }

    /// The transactions that wait for the next block, oldest first.
    pub fn current_transactions(&self) -> (transactions: &[Transaction])
        ensures
            transaction_views(transactions@) == self@.pending,
    {
        self.current_txns.snapshot()
    }
}

impl Clone for Blockchain {
    fn clone(&self) -> (copy: Blockchain)
        ensures
            copy@ == self@,
    {
        let mut chain: Vec<Block> = Vec::new();
        let mut i: usize = 0;
        while i < self.chain.len()
            invariant
                i <= self.chain.len(),
                block_views(chain@) == block_views(self.chain@).subrange(0, i as int),
            decreases self.chain.len() - i,
        {
            let ghost before = block_views(chain@);
            chain.push(self.chain[i].clone());
            assert(block_views(chain@) =~= before.push(self.chain@[i as int]@));
            assert(block_views(chain@) =~= block_views(self.chain@).subrange(0, i + 1));
            i += 1;
        }
        assert(block_views(chain@) =~= block_views(self.chain@));
        Blockchain { chain, current_txns: self.current_txns.clone() }
    }
}

} // verus!
