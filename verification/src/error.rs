//! Why the ledger refuses an operation.

use vstd::prelude::*;

verus! {

/// Why an operation on the ledger was refused. A refused operation changes
/// nothing.
#[derive(Debug, Clone, Copy, PartialEq, Eq, Structural)]
pub enum LedgerError {
    /// The chain has no first block yet.
    ChainNotInitialized,
    /// The previous hash handed in is not the digest of the last block: the
    /// chain has moved on since the proof was sought.
    StaleForge,
    /// The proof handed in does not solve the puzzle of the last block.
    InvalidProof,
    /// The last block is too long to be digested.
    TailNotHashable,
    /// No 32-bit number solves the puzzle of the last block.
    ProofNotFound,
}

impl LedgerError {
    /// The error in words.
    pub open spec fn words(self) -> Seq<char> {
        match self {
            LedgerError::ChainNotInitialized => "the chain has no first block"@,
            LedgerError::StaleForge => "the chain has moved on since the proof was sought"@,
            LedgerError::InvalidProof => "the proof does not solve the puzzle of the last block"@,
            LedgerError::TailNotHashable => "the last block is too long to be digested"@,
            LedgerError::ProofNotFound => "no proof solves the puzzle of the last block"@,
        }
    }

    pub fn message(&self) -> (text: &'static str)
        ensures
            text@ == self.words(),
    {
        match *self {
            LedgerError::ChainNotInitialized => "the chain has no first block",
            LedgerError::StaleForge => "the chain has moved on since the proof was sought",
            LedgerError::InvalidProof => "the proof does not solve the puzzle of the last block",
            LedgerError::TailNotHashable => "the last block is too long to be digested",
            LedgerError::ProofNotFound => "no proof solves the puzzle of the last block",
        }
    }
}

} // verus!
