//! A minimal in-memory ledger: blocks linked by digests, a pool of pending
//! transactions, a proof-of-work puzzle gating each new block, and a
//! longest-valid-chain rule for reconciling copies held by peers.

use vstd::prelude::*;

pub mod block;
pub mod blockchain;
mod clock;
pub mod consensus;
pub mod decimal;
pub mod digest;
pub mod error;
pub mod json;
pub mod laws;
pub mod pool;
pub mod pow;
pub mod status;
pub mod transaction;
pub mod validator;

pub use block::{Block, ResponseBlock};
pub use blockchain::Blockchain;
pub use error::LedgerError;
pub use status::HttpStatus;
pub use transaction::Transaction;

verus! {

/// Types that have a JSON text form.
pub trait Json {
    fn to_json(&self) -> String;
}

} // verus!
