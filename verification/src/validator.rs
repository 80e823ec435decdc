//! Validation of a chain of blocks: every block but the first must name the
//! digest of the block before it and carry a proof that solves the puzzle
//! posed by that block's proof. The first block is taken as it is.

use crate::block::{block_digest, block_views, Block, BlockView};
use crate::pow::{check_proof, satisfies, DIFFICULTY};
use vstd::prelude::*;
use vstd::string::*;

verus! {

/// Whether `next` may follow `prev`.
pub open spec fn link_holds(prev: BlockView, next: BlockView) -> bool {
    &&& block_digest(prev) == Some(next.previous_hash)
    &&& satisfies(prev.proof, next.proof, DIFFICULTY as nat)
}

/// Whether the block at position `i` may follow the one before it.
pub open spec fn linked_at(chain: Seq<BlockView>, i: int) -> bool {
    link_holds(chain[i - 1], chain[i])
}

/// Whether every block of the chain but the first may follow the one before
/// it.
pub open spec fn valid_chain(chain: Seq<BlockView>) -> bool {
    forall|i: int| 1 <= i < chain.len() ==> #[trigger] linked_at(chain, i)
}

/// Whether the block at position `i` is the first that may not follow the one
/// before it.
pub open spec fn first_fault_at(chain: Seq<BlockView>, i: int) -> bool {
    &&& 1 <= i < chain.len()
    &&& !linked_at(chain, i)
    &&& forall|j: int| 1 <= j < i ==> #[trigger] linked_at(chain, j)
}

/// A valid chain stays valid when a block is appended that may follow its
/// last block.
pub proof fn lemma_append_keeps_valid(chain: Seq<BlockView>, block: BlockView)
    requires
        valid_chain(chain),
        chain.len() > 0 ==> link_holds(chain.last(), block),
    ensures
        valid_chain(chain.push(block)),
{
    let longer = chain.push(block);
    assert forall|i: int| 1 <= i < longer.len() implies #[trigger] linked_at(longer, i) by {
        if i < chain.len() {
            assert(linked_at(chain, i));
        }
    }
}

/// Tests whether `next` may follow `prev`: first the digest, then the proof.
pub fn check_link(prev: &Block, next: &Block) -> (ok: bool)
    ensures
        ok == link_holds(prev@, next@),
{
    match prev.digest() {
        None => false,
        Some(digest) => {
            if digest != next.previous_hash {
                false
            } else {
                check_proof(prev.proof, next.proof, DIFFICULTY)
            }
        },
    }
}

/// Walks the chain from its second block and stops at the first block that
/// may not follow the one before it. Returns that block's position, counted
/// from zero, or `None` for a valid chain.
pub fn first_invalid_block(chain: &[Block]) -> (fault: Option<usize>)
    ensures
        match fault {
            Some(i) => first_fault_at(block_views(chain@), i as int),
            None => valid_chain(block_views(chain@)),
        },
{
    let ghost views = block_views(chain@);
    let mut i: usize = 1;
    while i < chain.len()
        invariant
            1 <= i,
            views == block_views(chain@),
            forall|j: int| 1 <= j < i && j < chain.len() ==> #[trigger] linked_at(views, j),
        decreases chain.len() - i,
    {
        if !check_link(&chain[i - 1], &chain[i]) {
            assert(!linked_at(views, i as int));
            return Some(i);
        }
        assert(linked_at(views, i as int));
        i += 1;
    }
    None
}

/// Whether the chain is valid.
pub fn is_valid_chain(chain: &[Block]) -> (ok: bool)
    ensures
        ok == valid_chain(block_views(chain@)),
{
    let fault = first_invalid_block(chain);
    proof {
        if let Some(i) = fault {
            assert(!linked_at(block_views(chain@), i as int));
        }
    }
    fault.is_none()
}

} // verus!
