//! Transfers of an amount from a sender to a recipient.

use crate::decimal::{decimal, push_signed};
use crate::json::{json_string, push_json_string};
use vstd::prelude::*;
use vstd::string::*;

verus! {

/// The amount that the miner of a block is paid.
pub const REWARD: i32 = 1;

/// A transfer, once submitted, is never changed: it waits in the pool and is
/// then moved into a block.
#[derive(Debug)]
pub struct Transaction {
    sender: String,
    recipient: String,
    amount: i32,
}

/// What a transaction says.
pub struct TransactionView {
    pub sender: Seq<char>,
    pub recipient: Seq<char>,
    pub amount: int,
}

impl View for Transaction {
    type V = TransactionView;

    closed spec fn view(&self) -> TransactionView {
        TransactionView {
            sender: self.sender@,
            recipient: self.recipient@,
            amount: self.amount as int,
        }
    }
}

/// What each transaction of a sequence says.
pub open spec fn transaction_views(transactions: Seq<Transaction>) -> Seq<TransactionView> {
    transactions.map_values(|t: Transaction| t@)
}

/// The transaction that pays the miner: its sender is `0`.
pub open spec fn reward_for(recipient: Seq<char>) -> TransactionView {
    TransactionView { sender: seq!['0'], recipient, amount: REWARD as int }
}

/// The JSON object of a transaction, without white space: sender, recipient
/// and amount, in this order.
pub open spec fn transaction_json(t: TransactionView) -> Seq<char> {
    "{\"sender\":"@ + json_string(t.sender) + ",\"recipient\":"@ + json_string(t.recipient)
        + ",\"amount\":"@ + decimal(t.amount) + "}"@
}

impl Transaction {
    pub fn new(sender: String, recipient: String, amount: i32) -> (transaction: Transaction)
        ensures
            transaction@ == (TransactionView {
                sender: sender@,
                recipient: recipient@,
                amount: amount as int,
            }),
    {
        Transaction { sender, recipient, amount }
    }

    /// A transaction with empty names and amount zero.
    pub fn blank() -> (transaction: Transaction)
        ensures
            transaction@ == (TransactionView {
                sender: Seq::<char>::empty(),
                recipient: Seq::<char>::empty(),
                amount: 0,
            }),
    {
        Transaction { sender: String::new(), recipient: String::new(), amount: 0 }
    }

    /// The transaction that pays the reward to `recipient`.
    pub fn reward(recipient: String) -> (transaction: Transaction)
        ensures
            transaction@ == reward_for(recipient@),
    {
        proof {
            reveal_strlit("0");
        }
        let sender = String::from_str("0");
        assert(sender@ =~= seq!['0']);
        Transaction { sender, recipient, amount: REWARD }
    }

    pub fn sender(&self) -> (sender: &str)
        ensures
            sender@ == self@.sender,
    {
        self.sender.as_str()
    }

    pub fn recipient(&self) -> (recipient: &str)
        ensures
            recipient@ == self@.recipient,
    {
        self.recipient.as_str()
    }

    pub fn amount(&self) -> (amount: i32)
        ensures
            amount == self@.amount,
    {
        self.amount
    }

    /// Appends the JSON object of the transaction to `out`.
    pub fn push_json(&self, out: &mut String)
        ensures
            final(out)@ == old(out)@ + transaction_json(self@),
    {
        out.append("{\"sender\":");
        push_json_string(out, self.sender.as_str());
        out.append(",\"recipient\":");
        push_json_string(out, self.recipient.as_str());
        out.append(",\"amount\":");
        push_signed(out, self.amount);
        out.append("}");
        assert(out@ =~= old(out)@ + transaction_json(self@));
    }
}

impl Clone for Transaction {
    fn clone(&self) -> (copy: Transaction)
        ensures
            copy == *self,
    {
        Transaction {
            sender: self.sender.clone(),
            recipient: self.recipient.clone(),
            amount: self.amount,
        }
    }
}

/// Copies the transactions of a slice, in their order.
pub fn copy_transactions(transactions: &[Transaction]) -> (copies: Vec<Transaction>)
    ensures
        copies@ == transactions@,
{
    let mut copies: Vec<Transaction> = Vec::new();
    let mut i: usize = 0;
    while i < transactions.len()
        invariant
            i <= transactions.len(),
            copies@ == transactions@.subrange(0, i as int),
        decreases transactions.len() - i,
    {
        copies.push(transactions[i].clone());
        assert(copies@ =~= transactions@.subrange(0, i + 1));
        i += 1;
    }
    assert(copies@ =~= transactions@);
    copies
}

} // verus!
