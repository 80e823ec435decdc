//! Blocks: the entries of the ledger, their canonical text and its digest.

use crate::decimal::{decimal, push_signed, push_unsigned};
use crate::digest::{digest_of, hash};
use crate::json::{json_string, push_json_string};
use crate::transaction::{
    copy_transactions, transaction_json, transaction_views, Transaction, TransactionView,
};
use crate::clock::unix_seconds;
use crate::Json;
use vstd::prelude::*;
use vstd::string::*;

verus! {

/// One entry of the ledger. A block is not changed once it is made.
#[derive(Debug)]
pub struct Block {
    /// The block's place in the chain, counted from 1.
    pub index: usize,
    /// Seconds since the Unix epoch at which the block was made.
    pub timestamp: u64,
    /// The transactions, in the order in which they were submitted.
    pub transactions: Vec<Transaction>,
    /// The number that solves the puzzle posed by the previous block's proof.
    pub proof: i32,
    /// The digest of the previous block.
    pub previous_hash: String,
}

/// What a block says.
pub struct BlockView {
    pub index: nat,
    pub timestamp: nat,
    pub transactions: Seq<TransactionView>,
    pub proof: int,
    pub previous_hash: Seq<char>,
}

impl View for Block {
    type V = BlockView;

    open spec fn view(&self) -> BlockView {
        BlockView {
            index: self.index as nat,
            timestamp: self.timestamp as nat,
            transactions: transaction_views(self.transactions@),
            proof: self.proof as int,
            previous_hash: self.previous_hash@,
        }
    }
}

/// What each block of a sequence says.
pub open spec fn block_views(blocks: Seq<Block>) -> Seq<BlockView> {
    blocks.map_values(|b: Block| b@)
}

/// The JSON objects of the transactions, with a comma between neighbours.
pub open spec fn transactions_json(transactions: Seq<TransactionView>) -> Seq<char>
    decreases transactions.len(),
{
    if transactions.len() == 0 {
        Seq::empty()
    } else if transactions.len() == 1 {
        transaction_json(transactions[0])
    } else {
        transactions_json(transactions.drop_last()) + ","@ + transaction_json(transactions.last())
    }
}

/// The canonical text of a block: its JSON object without white space, with
/// the fields index, timestamp, transactions, proof and previous hash in this
/// order. Digests are taken of this text, so two parties agree on a block's
/// digest exactly when they agree on this text.
pub open spec fn block_json(block: BlockView) -> Seq<char> {
    "{\"index\":"@ + decimal(block.index as int) + ",\"timestamp\":"@ + decimal(
        block.timestamp as int,
    ) + ",\"transactions\":["@ + transactions_json(block.transactions) + "],\"proof\":"@ + decimal(
        block.proof,
    ) + ",\"previous_hash\":"@ + json_string(block.previous_hash) + "}"@
}

/// The digest of a block: that of its canonical text, where the text is short
/// enough to have one.
pub open spec fn block_digest(block: BlockView) -> Option<Seq<char>> {
    digest_of(block_json(block))
}

fn push_transactions_json(transactions: &Vec<Transaction>, out: &mut String)
    ensures
        final(out)@ == old(out)@ + transactions_json(transaction_views(transactions@)),
{
    let ghost start = out@;
    let ghost views = transaction_views(transactions@);
    let mut i: usize = 0;
    assert(views.subrange(0, 0) =~= Seq::empty());
    assert(out@ =~= start + transactions_json(views.subrange(0, 0)));
    while i < transactions.len()
        invariant
            i <= transactions.len(),
            views == transaction_views(transactions@),
            out@ == start + transactions_json(views.subrange(0, i as int)),
        decreases transactions.len() - i,
    {
        let ghost done = views.subrange(0, i as int);
        let ghost next = views.subrange(0, i + 1);
        assert(next.drop_last() =~= done);
        assert(next.last() == transactions@[i as int]@);
        if i > 0 {
            out.append(",");
        }
        transactions[i].push_json(out);
        assert(out@ =~= start + transactions_json(next));
        i += 1;
    }
    assert(views.subrange(0, i as int) =~= views);
}

impl Block {
    /// A block with the given fields and a copy of the transactions, stamped
    /// with the current time.
    pub fn new(index: usize, txns: &[Transaction], proof: i32, previous_hash: String) -> (block:
        Block)
        ensures
            block@ == Block::view_at(
                index,
                transaction_views(txns@),
                proof,
                previous_hash@,
                block.timestamp,
            ),
    {
        Block::at(index, txns, proof, previous_hash, unix_seconds())
    }

    /// What a block with these fields says.
    pub open spec fn view_at(
        index: usize,
        transactions: Seq<TransactionView>,
        proof: i32,
        previous_hash: Seq<char>,
        timestamp: u64,
    ) -> BlockView {
        BlockView {
            index: index as nat,
            timestamp: timestamp as nat,
            transactions,
            proof: proof as int,
            previous_hash,
        }
    }

    /// A block with the given fields and a copy of the transactions, made at
    /// the given time.
    pub fn at(
        index: usize,
        txns: &[Transaction],
        proof: i32,
        previous_hash: String,
        timestamp: u64,
    ) -> (block: Block)
        ensures
            block@ == Block::view_at(
                index,
                transaction_views(txns@),
                proof,
                previous_hash@,
                timestamp,
            ),
    {
        let transactions = copy_transactions(txns);
        Block { index, timestamp, transactions, proof, previous_hash }
    }

    /// The digest of the block's canonical text in hexadecimal, or `None`
    /// where the text is too long to be digested.
    pub fn digest(&self) -> (digest: Option<String>)
        ensures
            match digest {
                Some(text) => block_digest(self@) == Some(text@),
                None => block_digest(self@) is None,
            },
    {
        let text = self.to_json();
        hash(text.as_str())
    }
}

impl Json for Block {
    /// The canonical text of the block.
    fn to_json(&self) -> (text: String)
        ensures
            text@ == block_json(self@),
    {
        let mut text = String::new();
        text.append("{\"index\":");
        push_unsigned(&mut text, self.index as u64);
        text.append(",\"timestamp\":");
        push_unsigned(&mut text, self.timestamp);
        text.append(",\"transactions\":[");
        push_transactions_json(&self.transactions, &mut text);
        text.append("],\"proof\":");
        push_signed(&mut text, self.proof);
        text.append(",\"previous_hash\":");
        push_json_string(&mut text, self.previous_hash.as_str());
        text.append("}");
        assert(text@ =~= block_json(self@));
        text
    }
}

impl Clone for Block {
    fn clone(&self) -> (copy: Block)
        ensures
            copy@ == self@,
    {
        let transactions = copy_transactions(self.transactions.as_slice());
        Block {
            index: self.index,
            timestamp: self.timestamp,
            transactions,
            proof: self.proof,
            previous_hash: self.previous_hash.clone(),
        }
    }
}

/// What a node answers when it has mined a block.
#[derive(Debug, Clone)]
pub struct ResponseBlock<'a> {
    pub message: &'static str,
    pub index: usize,
    pub transactions: &'a Vec<Transaction>,
    pub proof: i32,
    pub previous_hash: String,
}

impl<'a> ResponseBlock<'a> {
    pub fn new(
        message: &'static str,
        index: usize,
        transactions: &'a Vec<Transaction>,
        proof: i32,
        previous_hash: String,
    ) -> (response: ResponseBlock<'a>)
        ensures
            response.message == message,
            response.index == index,
            response.transactions == transactions,
            response.proof == proof,
            response.previous_hash == previous_hash,
    {
        ResponseBlock { message, index, transactions, proof, previous_hash }
    }
}

} // verus!
