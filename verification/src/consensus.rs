//! The longest-valid-chain rule: among the chains that peers sent, the one
//! that is valid and longer than the local chain and than every other wins;
//! of several of the same length the first wins, and a chain no longer than
//! the local one never does.

use crate::block::{block_views, Block, BlockView};
use crate::validator::{is_valid_chain, valid_chain};
use vstd::prelude::*;

verus! {

/// What came of asking the peers.
#[derive(Debug, Clone, Copy, PartialEq, Eq, Structural)]
pub enum Resolution {
    /// The local chain gave way to a longer valid chain of a peer.
    Replaced,
    /// No peer had a longer valid chain: the local chain stands.
    Authoritative,
}

impl Resolution {
    /// The word a node reports: `replaced` or `authoritative`.
    pub open spec fn word(self) -> Seq<char> {
        match self {
            Resolution::Replaced => "replaced"@,
            Resolution::Authoritative => "authoritative"@,
        }
    }

    pub fn as_str(&self) -> (text: &'static str)
        ensures
            text@ == self.word(),
    {
        match *self {
            Resolution::Replaced => "replaced",
            Resolution::Authoritative => "authoritative",
        }
    }
}

/// What a peer's answer says: its chain, or nothing where the peer could not
/// be reached.
pub open spec fn candidate_view(candidate: Option<Vec<Block>>) -> Option<Seq<BlockView>> {
    match candidate {
        Some(chain) => Some(block_views(chain@)),
        None => None,
    }
}

/// What each of the peers' answers says.
pub open spec fn candidate_views(candidates: Seq<Option<Vec<Block>>>) -> Seq<
    Option<Seq<BlockView>>,
> {
    candidates.map_values(|c: Option<Vec<Block>>| candidate_view(c))
}

/// Whether a peer's answer could replace a local chain of `local_len`
/// blocks: it is there, it is longer, and it is valid.
pub open spec fn eligible(local_len: nat, candidate: Option<Seq<BlockView>>) -> bool {
    match candidate {
        Some(chain) => chain.len() > local_len && valid_chain(chain),
        None => false,
    }
}

/// The number of blocks of an answer; zero where there is none.
pub open spec fn candidate_len(candidate: Option<Seq<BlockView>>) -> nat {
    match candidate {
        Some(chain) => chain.len(),
        None => 0,
    }
}

/// Whether the answer at position `k` wins: it is eligible, longer than
/// every eligible answer before it and no shorter than any after it.
pub open spec fn is_winner(
    local_len: nat,
    candidates: Seq<Option<Seq<BlockView>>>,
    k: int,
) -> bool {
    &&& 0 <= k < candidates.len()
    &&& eligible(local_len, candidates[k])
    &&& forall|j: int|
        0 <= j < k && eligible(local_len, #[trigger] candidates[j]) ==> candidate_len(
            candidates[j],
        ) < candidate_len(candidates[k])
    &&& forall|j: int|
        k < j < candidates.len() && eligible(local_len, #[trigger] candidates[j])
            ==> candidate_len(candidates[j]) <= candidate_len(candidates[k])
}

/// Whether no answer is eligible.
pub open spec fn no_winner(local_len: nat, candidates: Seq<Option<Seq<BlockView>>>) -> bool {
    forall|j: int| 0 <= j < candidates.len() ==> !eligible(local_len, #[trigger] candidates[j])
}

/// Scans the peers' answers once, in order, and returns the position of the
/// winner, or `None` where no answer is eligible. An answer is validated only
/// if it is longer than the longest found so far.
pub fn longest_valid(local_len: usize, candidates: &Vec<Option<Vec<Block>>>) -> (winner: Option<
    usize,
>)
    ensures
        match winner {
            Some(k) => is_winner(local_len as nat, candidate_views(candidates@), k as int),
            None => no_winner(local_len as nat, candidate_views(candidates@)),
        },
{
    let ghost views = candidate_views(candidates@);
    let mut max_len: usize = local_len;
    let mut winner: Option<usize> = None;
    let mut i: usize = 0;
    while i < candidates.len()
        invariant
            i <= candidates.len(),
            views == candidate_views(candidates@),
            match winner {
                None => {
                    &&& max_len == local_len
                    &&& forall|j: int|
                        0 <= j < i ==> !eligible(local_len as nat, #[trigger] views[j])
                },
                Some(k) => {
                    &&& k < i
                    &&& eligible(local_len as nat, views[k as int])
                    &&& max_len == candidate_len(views[k as int])
                    &&& forall|j: int|
                        0 <= j < k && eligible(local_len as nat, #[trigger] views[j])
                            ==> candidate_len(views[j]) < max_len
                    &&& forall|j: int|
                        k < j < i && eligible(local_len as nat, #[trigger] views[j])
                            ==> candidate_len(views[j]) <= max_len
                },
            },
        decreases candidates.len() - i,
    {
        assert(views[i as int] == candidate_view(candidates@[i as int]));
        match &candidates[i] {
            None => {},
            Some(chain) => {
                if chain.len() > max_len && is_valid_chain(chain.as_slice()) {
                    max_len = chain.len();
                    winner = Some(i);
                }
            },
        }
        i += 1;
    }
    winner
}

} // verus!
