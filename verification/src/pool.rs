//! The pool of transactions that wait for the next block.

use crate::transaction::{copy_transactions, transaction_views, Transaction, TransactionView};
use vstd::prelude::*;

verus! {

/// Pending transactions, in the order in which they were submitted.
#[derive(Debug)]
pub struct TransactionPool {
    pending: Vec<Transaction>,
}

impl View for TransactionPool {
    type V = Seq<TransactionView>;

    closed spec fn view(&self) -> Seq<TransactionView> {
        transaction_views(self.pending@)
    }
}

impl TransactionPool {
    /// An empty pool.
    pub fn new() -> (pool: TransactionPool)
        ensures
            pool@ == Seq::<TransactionView>::empty(),
    {
        let pool = TransactionPool { pending: Vec::new() };
        assert(pool@ =~= Seq::<TransactionView>::empty());
        pool
    }

    /// Puts a transaction behind those that already wait.
    pub fn add(&mut self, transaction: Transaction)
        ensures
            final(self)@ == old(self)@.push(transaction@),
    {
        self.pending.push(transaction);
        assert(self@ =~= old(self)@.push(transaction@));
    }

    /// The waiting transactions, oldest first.
    pub fn snapshot(&self) -> (transactions: &[Transaction])
        ensures
            transaction_views(transactions@) == self@,
    {
        self.pending.as_slice()
    }

    /// The number of waiting transactions.
    pub fn len(&self) -> (count: usize)
        ensures
            count == self@.len(),
    {
        self.pending.len()
    }

    pub fn is_empty(&self) -> (empty: bool)
        ensures
            empty == (self@.len() == 0),
    {
        self.pending.len() == 0
    }

    /// Takes the newest transaction out again.
    pub(crate) fn withdraw_last(&mut self)
        requires
            old(self)@.len() > 0,
        ensures
            final(self)@ == old(self)@.drop_last(),
    {
        self.pending.pop();
        assert(self@ =~= old(self)@.drop_last());
    }

    /// Empties the pool. Only forging a block does this, after it has taken
    /// the transactions into the block.
    pub(crate) fn clear(&mut self)
        ensures
            final(self)@ == Seq::<TransactionView>::empty(),
    {
        self.pending.clear();
        assert(self@ =~= Seq::<TransactionView>::empty());
    }
}

impl Clone for TransactionPool {
    fn clone(&self) -> (copy: TransactionPool)
        ensures
            copy@ == self@,
    {
        TransactionPool { pending: copy_transactions(self.pending.as_slice()) }
    }
}

} // verus!
