//! What holds of the ledger whatever it is used for, stated over what the
//! ledger's operations promise.

use crate::block::{block_digest, Block, BlockView};
use crate::blockchain::{LedgerView, GENESIS_PREVIOUS_HASH, GENESIS_PROOF};
use crate::consensus::{candidate_len, eligible, is_winner, no_winner};
use crate::pow::{first_solution, satisfies, DIFFICULTY};
use crate::transaction::{reward_for, TransactionView};
use crate::validator::{first_fault_at, lemma_append_keeps_valid, linked_at, valid_chain};
use vstd::prelude::*;
use vstd::string::*;

verus! {

/// The first solution of a puzzle is a solution: what the search returns
/// passes the test that the validator applies.
pub proof fn law_first_solution_satisfies(last_proof: int, proof: int, difficulty: nat)
    requires
        first_solution(last_proof, proof, difficulty),
    ensures
        satisfies(last_proof, proof, difficulty),
{
}

/// A puzzle has at most one first solution.
pub proof fn law_first_solution_unique(last_proof: int, a: int, b: int, difficulty: nat)
    requires
        first_solution(last_proof, a, difficulty),
        first_solution(last_proof, b, difficulty),
    ensures
        a == b,
{
}

/// Digests are deterministic: two blocks that say the same have the same
/// digest, or both have none.
pub proof fn law_digest_deterministic(a: Block, b: Block)
    requires
        a@ == b@,
    ensures
        block_digest(a@) == block_digest(b@),
{
}

/// A ledger that has just been given its first block holds exactly that
/// block, with index 1, the fixed proof, the run of zeros as previous hash and
/// no transactions; nothing is pending, and the chain is valid.
pub proof fn law_genesis(timestamp: nat)
    ensures
        ({
            let ledger = LedgerView::empty().with_genesis(timestamp);
            &&& ledger.chain.len() == 1
            &&& ledger.chain[0].index == 1
            &&& ledger.chain[0].proof == GENESIS_PROOF
            &&& ledger.chain[0].previous_hash == GENESIS_PREVIOUS_HASH@
            &&& ledger.chain[0].transactions.len() == 0
            &&& ledger.pending.len() == 0
            &&& valid_chain(ledger.chain)
        }),
{
}

/// The previous hash of the first block is a run of sixty-three zeros.
pub proof fn law_genesis_previous_hash_is_zeros()
    ensures
        GENESIS_PREVIOUS_HASH@.len() == 63,
        forall|i: int| 0 <= i < 63 ==> GENESIS_PREVIOUS_HASH@[i] == '0',
{
    reveal_strlit("000000000000000000000000000000000000000000000000000000000000000");
}

/// Forging takes the whole pool, in the order of submission, and leaves it
/// empty: after two transactions and the reward are submitted, the forged
/// block holds what was pending before, then the two, then the reward.
pub proof fn law_forge_takes_pool(
    ledger: LedgerView,
    first: TransactionView,
    second: TransactionView,
    recipient: Seq<char>,
    proof: int,
    previous_hash: Seq<char>,
    timestamp: nat,
)
    ensures
        ({
            let after = ledger.submitted(first).submitted(second).submitted(
                reward_for(recipient),
            ).forged(proof, previous_hash, timestamp);
            &&& after.chain.len() == ledger.chain.len() + 1
            &&& after.chain.last().index == ledger.chain.len() + 1
            &&& after.chain.last().transactions == ledger.pending + seq![
                first,
                second,
                reward_for(recipient),
            ]
            &&& after.pending.len() == 0
        }),
{
    let after = ledger.submitted(first).submitted(second).submitted(reward_for(recipient)).forged(
        proof,
        previous_hash,
        timestamp,
    );
    assert(after.chain.last().transactions =~= ledger.pending + seq![
        first,
        second,
        reward_for(recipient),
    ]);
}

/// Submitting a transaction leaves the chain as it is.
pub proof fn law_submit_keeps_chain(ledger: LedgerView, transaction: TransactionView)
    ensures
        ledger.submitted(transaction).chain == ledger.chain,
{
}

/// Forging keeps a valid chain valid where the proof and the previous hash
/// fit the last block.
pub proof fn law_fitting_forge_keeps_valid(
    ledger: LedgerView,
    proof: int,
    previous_hash: Seq<char>,
    timestamp: nat,
)
    requires
        valid_chain(ledger.chain),
        ledger.forge_error(proof, previous_hash) is None,
    ensures
        valid_chain(ledger.forged(proof, previous_hash, timestamp).chain),
{
    lemma_append_keeps_valid(ledger.chain, ledger.next_block(proof, previous_hash, timestamp));
}

/// Mining keeps a valid chain valid.
pub proof fn law_mining_keeps_valid(ledger: LedgerView, recipient: Seq<char>, block: BlockView)
    requires
        valid_chain(ledger.chain),
        ledger.mined_block(recipient, block),
    ensures
        valid_chain(ledger.chain.push(block)),
        ledger.submitted(reward_for(recipient)).forged(
            block.proof,
            block.previous_hash,
            block.timestamp,
        ).chain == ledger.chain.push(block),
{
    lemma_append_keeps_valid(ledger.chain, block);
}

/// A chain has at most one first fault, and a chain with a fault is not
/// valid.
pub proof fn law_first_fault_unique(chain: Seq<BlockView>, i: int, j: int)
    requires
        first_fault_at(chain, i),
        first_fault_at(chain, j),
    ensures
        i == j,
        !valid_chain(chain),
{
    if i < j {
        assert(linked_at(chain, i));
    } else if j < i {
        assert(linked_at(chain, j));
    }
}

/// A valid chain has no fault.
pub proof fn law_valid_has_no_fault(chain: Seq<BlockView>, i: int)
    requires
        valid_chain(chain),
    ensures
        !first_fault_at(chain, i),
{
    if 1 <= i < chain.len() {
        assert(linked_at(chain, i));
    }
}

/// Changing the previous hash of any block but the first of a valid chain is
/// found out at that block: it is the first that no longer follows the one
/// before it.
pub proof fn law_tampered_previous_hash_is_found(
    chain: Seq<BlockView>,
    i: int,
    previous_hash: Seq<char>,
)
    requires
        valid_chain(chain),
        1 <= i < chain.len(),
        previous_hash != chain[i].previous_hash,
    ensures
        first_fault_at(chain.update(i, BlockView { previous_hash, ..chain[i] }), i),
{
    let tampered = chain.update(i, BlockView { previous_hash, ..chain[i] });
    assert(linked_at(chain, i));
    assert forall|j: int| 1 <= j < i implies #[trigger] linked_at(tampered, j) by {
        assert(linked_at(chain, j));
    }
}

/// Changing the proof of any block but the first of a valid chain to a number
/// that does not solve the puzzle of the block before it is found out at that
/// block.
pub proof fn law_tampered_proof_is_found(chain: Seq<BlockView>, i: int, proof: int)
    requires
        valid_chain(chain),
        1 <= i < chain.len(),
        !satisfies(chain[i - 1].proof, proof, DIFFICULTY as nat),
    ensures
        first_fault_at(chain.update(i, BlockView { proof, ..chain[i] }), i),
{
    let tampered = chain.update(i, BlockView { proof, ..chain[i] });
    assert forall|j: int| 1 <= j < i implies #[trigger] linked_at(tampered, j) by {
        assert(linked_at(chain, j));
    }
}

/// At most one answer wins.
pub proof fn law_winner_unique(
    local_len: nat,
    candidates: Seq<Option<Seq<BlockView>>>,
    k: int,
    m: int,
)
    requires
        is_winner(local_len, candidates, k),
        is_winner(local_len, candidates, m),
    ensures
        k == m,
{
}

/// The winner is valid and longer than the local chain, and no eligible
/// answer is longer than it; where there is a winner, not all answers are
/// without one.
pub proof fn law_winner_is_longest_valid(
    local_len: nat,
    candidates: Seq<Option<Seq<BlockView>>>,
    k: int,
)
    requires
        is_winner(local_len, candidates, k),
    ensures
        candidates[k] is Some,
        valid_chain(candidates[k]->0),
        candidates[k]->0.len() > local_len,
        forall|j: int|
            0 <= j < candidates.len() && eligible(local_len, #[trigger] candidates[j])
                ==> candidate_len(candidates[j]) <= candidate_len(candidates[k]),
        !no_winner(local_len, candidates),
{
}

/// Of a local chain and one valid chain of a peer, the longer stands: the
/// peer's chain wins where it is longer, and not where the two are of equal
/// length or the local chain is longer.
pub proof fn law_longer_chain_stands(local_len: nat, peer: Seq<BlockView>)
    requires
        valid_chain(peer),
    ensures
        peer.len() > local_len ==> is_winner(local_len, seq![Some(peer)], 0),
        peer.len() <= local_len ==> no_winner(local_len, seq![Some(peer)]),
{
}

/// Of two valid chains of peers that are both longer than the local chain,
/// the longer wins, whichever comes first; of two of the same length, the
/// first.
pub proof fn law_longest_of_two_wins(local_len: nat, a: Seq<BlockView>, b: Seq<BlockView>)
    requires
        valid_chain(a),
        valid_chain(b),
        local_len < a.len() <= b.len(),
    ensures
        a.len() < b.len() ==> is_winner(local_len, seq![Some(a), Some(b)], 1),
        a.len() < b.len() ==> is_winner(local_len, seq![Some(b), Some(a)], 0),
        a.len() == b.len() ==> is_winner(local_len, seq![Some(a), Some(b)], 0),
{
}

/// A peer that could not be reached, or whose chain is not valid or no longer
/// than the local one, changes nothing: the winner among the other answers
/// stays the winner.
pub proof fn law_unfit_answer_is_passed_over(
    local_len: nat,
    candidates: Seq<Option<Seq<BlockView>>>,
    unfit: Option<Seq<BlockView>>,
    k: int,
)
    requires
        !eligible(local_len, unfit),
        is_winner(local_len, candidates, k),
    ensures
        is_winner(local_len, candidates.push(unfit), k),
        is_winner(local_len, seq![unfit] + candidates, k + 1),
{
    let behind = candidates.push(unfit);
    assert forall|j: int|
        k < j < behind.len() && eligible(local_len, #[trigger] behind[j]) implies candidate_len(
        behind[j],
    ) <= candidate_len(behind[k]) by {
        assert(behind[j] == candidates[j]);
    }
    assert forall|j: int|
        0 <= j < k && eligible(local_len, #[trigger] behind[j]) implies candidate_len(behind[j])
        < candidate_len(behind[k]) by {
        assert(behind[j] == candidates[j]);
    }
    let ahead = seq![unfit] + candidates;
    assert(ahead[k + 1] == candidates[k]);
    assert forall|j: int|
        0 <= j < k + 1 && eligible(local_len, #[trigger] ahead[j]) implies candidate_len(ahead[j])
        < candidate_len(ahead[k + 1]) by {
        if j >= 1 {
            assert(ahead[j] == candidates[j - 1]);
        }
    }
    assert forall|j: int|
        k + 1 < j < ahead.len() && eligible(local_len, #[trigger] ahead[j]) implies candidate_len(
        ahead[j],
    ) <= candidate_len(ahead[k + 1]) by {
        assert(ahead[j] == candidates[j - 1]);
    }
}

} // verus!
