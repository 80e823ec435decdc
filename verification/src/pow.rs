//! The proof-of-work puzzle: a candidate solves it for the previous proof
//! when the digest of the two numbers' decimal text, one after the other,
//! begins with a run of zeros.

use crate::decimal::{decimal, lemma_decimal_ascii, lemma_decimal_len_i32, push_signed};
use crate::digest::{hashable, sha256_hex, sha256_text};
use vstd::prelude::*;
use vstd::string::*;
use vstd::utf8::{is_ascii_chars, is_ascii_chars_encode_utf8};

verus! {

/// The length of the run of zeros that a block's proof must reach.
pub const DIFFICULTY: usize = 4;

/// Whether `digest` begins with `difficulty` characters `0`.
pub open spec fn has_zero_prefix(digest: Seq<char>, difficulty: nat) -> bool {
    &&& difficulty <= digest.len()
    &&& forall|i: int| 0 <= i < difficulty ==> digest[i] == '0'
}

/// The text that is digested for a pair of proofs.
pub open spec fn guess_text(last_proof: int, candidate: int) -> Seq<char> {
    decimal(last_proof) + decimal(candidate)
}

/// Whether `candidate` solves the puzzle that `last_proof` poses, at the
/// given difficulty.
pub open spec fn satisfies(last_proof: int, candidate: int, difficulty: nat) -> bool {
    has_zero_prefix(sha256_hex(guess_text(last_proof, candidate)), difficulty)
}

/// Whether `candidate` is the first solution from zero upwards.
pub open spec fn first_solution(last_proof: int, candidate: int, difficulty: nat) -> bool {
    &&& 0 <= candidate
    &&& satisfies(last_proof, candidate, difficulty)
    &&& forall|c: int| 0 <= c < candidate ==> !satisfies(last_proof, c, difficulty)
}

/// The text of a guess is short and plain, so it always has a digest.
pub proof fn lemma_guess_hashable(last_proof: int, candidate: int)
    requires
        i32::MIN <= last_proof <= i32::MAX,
        i32::MIN <= candidate <= i32::MAX,
    ensures
        hashable(guess_text(last_proof, candidate)),
        guess_text(last_proof, candidate).len() <= 22,
{
    let text = guess_text(last_proof, candidate);
    lemma_decimal_len_i32(last_proof);
    lemma_decimal_len_i32(candidate);
    lemma_decimal_ascii(last_proof);
    lemma_decimal_ascii(candidate);
    let head = decimal(last_proof);
    assert forall|j: int| 0 <= j < text.len() implies '\0' <= #[trigger] text[j] <= '\u{7f}' by {
        if j < head.len() {
            assert(text[j] == head[j]);
        } else {
            assert(text[j] == decimal(candidate)[j - head.len()]);
        }
    }
    assert(is_ascii_chars(text));
    is_ascii_chars_encode_utf8(text);
}

/// Tests a digest against the difficulty.
pub fn meets_difficulty(digest: &str, difficulty: usize) -> (ok: bool)
    ensures
        ok == has_zero_prefix(digest@, difficulty as nat),
{
    let length: usize = digest.unicode_len();
    if length < difficulty {
        return false;
    }
    let mut i: usize = 0;
    while i < difficulty
        invariant
            i <= difficulty <= digest@.len(),
            forall|j: int| 0 <= j < i ==> digest@[j] == '0',
        decreases difficulty - i,
    {
        if digest.get_char(i) != '0' {
            return false;
        }
        i += 1;
    }
    true
}

/// Tests whether `candidate` solves the puzzle that `last_proof` poses.
pub fn check_proof(last_proof: i32, candidate: i32, difficulty: usize) -> (ok: bool)
    ensures
        ok == satisfies(last_proof as int, candidate as int, difficulty as nat),
{
    let mut guess = String::new();
    push_signed(&mut guess, last_proof);
    push_signed(&mut guess, candidate);
    proof {
        assert(guess@ =~= guess_text(last_proof as int, candidate as int));
        lemma_guess_hashable(last_proof as int, candidate as int);
    }
    let digest = sha256_text(guess.as_str());
    meets_difficulty(digest.as_str(), difficulty)
}

/// Searches the candidates from zero upwards and returns the first that
/// solves the puzzle, or `None` when no 32-bit candidate does.
pub fn solve(last_proof: i32, difficulty: usize) -> (found: Option<i32>)
    ensures
        match found {
            Some(proof) => first_solution(last_proof as int, proof as int, difficulty as nat),
            None => forall|c: int|
                0 <= c <= i32::MAX ==> !satisfies(last_proof as int, c, difficulty as nat),
        },
{
    let mut candidate: i32 = 0;
    loop
        invariant
            0 <= candidate,
            forall|c: int|
                0 <= c < candidate ==> !satisfies(last_proof as int, c, difficulty as nat),
        decreases i32::MAX - candidate,
    {
        if check_proof(last_proof, candidate, difficulty) {
            return Some(candidate);
        }
        if candidate == i32::MAX {
            return None;
        }
        candidate += 1;
    }
}

} // verus!
