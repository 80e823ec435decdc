use blockchain::block::Block;
use blockchain::blockchain::{Blockchain, GENESIS_PREVIOUS_HASH, GENESIS_PROOF};
use blockchain::error::LedgerError;
use blockchain::pool::TransactionPool;
use blockchain::transaction::Transaction;
use blockchain::Json;

fn started(timestamp: u64) -> Blockchain {
    let mut ledger = Blockchain::new();
    ledger.generate_genesis_block_at(timestamp);
    ledger
}

#[test]
fn new_ledger_is_empty() {
    let ledger = Blockchain::new();
    assert!(ledger.chain().is_empty());
    assert!(ledger.current_transactions().is_empty());
    assert!(ledger.last_block().is_none());
    assert!(ledger.is_valid());
}

#[test]
fn genesis_block_is_fixed() {
    let mut ledger = Blockchain::new();
    ledger.generate_genesis_block();
    assert_eq!(ledger.chain().len(), 1);
    let genesis = &ledger.chain()[0];
    assert_eq!(genesis.index, 1);
    assert_eq!(genesis.proof, 100);
    assert_eq!(genesis.proof, GENESIS_PROOF);
    assert_eq!(genesis.previous_hash, GENESIS_PREVIOUS_HASH);
    assert_eq!(
        genesis.previous_hash,
        "000000000000000000000000000000000000000000000000000000000000000"
    );
    assert!(genesis.transactions.is_empty());
    assert!(genesis.timestamp > 1_500_000_000);
    assert!(ledger.current_transactions().is_empty());
    assert!(ledger.is_valid());
}

#[test]
fn genesis_block_at_a_given_time() {
    let ledger = started(1700000000);
    let genesis = ledger.last_block().unwrap();
    assert_eq!(genesis.timestamp, 1700000000);
    assert_eq!(
        genesis.to_json(),
        "{\"index\":1,\"timestamp\":1700000000,\"transactions\":[],\"proof\":100,\"previous_hash\":\"000000000000000000000000000000000000000000000000000000000000000\"}"
    );
    assert_eq!(
        ledger.hash_block(genesis).unwrap(),
        "bbadd0f43ce7c6e0ed0c9fb9d9ac2f38f57778a2e87d62b7674df128345a4823"
    );
}

#[test]
fn genesis_leaves_waiting_transactions_in_the_pool() {
    let mut ledger = Blockchain::new();
    let index = ledger.new_transaction(String::from("a"), String::from("b"), 1);
    assert_eq!(index, 1);
    ledger.generate_genesis_block_at(5);
    assert_eq!(ledger.chain().len(), 1);
    assert!(ledger.chain()[0].transactions.is_empty());
    assert_eq!(ledger.current_transactions().len(), 1);
}

#[test]
fn new_transaction_returns_the_index_of_the_next_block() {
    let mut ledger = started(1);
    assert_eq!(ledger.new_transaction(String::from("Alice"), String::from("Bob"), 50), 2);
    assert_eq!(ledger.new_transaction(String::from("Bob"), String::from("Carol"), 7), 2);
    let pending = ledger.current_transactions();
    assert_eq!(pending.len(), 2);
    assert_eq!(pending[0].sender(), "Alice");
    assert_eq!(pending[0].recipient(), "Bob");
    assert_eq!(pending[0].amount(), 50);
    assert_eq!(pending[1].sender(), "Bob");
    assert_eq!(pending[1].amount(), 7);
    ledger.new_block_at(1, String::from("x"), 2).unwrap();
    assert_eq!(ledger.new_transaction(String::from("Carol"), String::from("Dan"), 1), 3);
}

#[test]
fn new_block_needs_a_first_block() {
    let mut ledger = Blockchain::new();
    ledger.new_transaction(String::from("a"), String::from("b"), 1);
    assert_eq!(ledger.new_block(5, String::from("x")).err(), Some(LedgerError::ChainNotInitialized));
    assert_eq!(
        ledger.new_block_at(5, String::from("x"), 9).err(),
        Some(LedgerError::ChainNotInitialized)
    );
    assert!(ledger.chain().is_empty());
    assert_eq!(ledger.current_transactions().len(), 1);
}

#[test]
fn new_block_takes_the_pool_and_clears_it() {
    let mut ledger = started(1700000000);
    ledger.new_transaction(String::from("Alice"), String::from("Bob"), 50);
    ledger.new_transaction(String::from("Bob"), String::from("Carol"), 7);
    ledger.new_transaction(String::from("0"), String::from("node-1"), 1);
    let block = ledger.new_block_at(35293, String::from("abc"), 1700000001).unwrap();
    assert_eq!(block.index, 2);
    assert_eq!(block.timestamp, 1700000001);
    assert_eq!(block.proof, 35293);
    assert_eq!(block.previous_hash, "abc");
    assert_eq!(block.transactions.len(), 3);
    assert_eq!(block.transactions[0].sender(), "Alice");
    assert_eq!(block.transactions[1].sender(), "Bob");
    assert_eq!(block.transactions[2].sender(), "0");
    assert_eq!(block.transactions[2].recipient(), "node-1");
    assert_eq!(block.transactions[2].amount(), 1);
    assert_eq!(ledger.chain().len(), 2);
    assert!(ledger.current_transactions().is_empty());
    assert_eq!(ledger.last_block().unwrap().index, 2);
}

#[test]
fn new_block_with_the_current_time() {
    let mut ledger = started(1);
    let block = ledger.new_block(7, String::from("h")).unwrap();
    assert_eq!(block.index, 2);
    assert_eq!(block.proof, 7);
    assert_eq!(block.previous_hash, "h");
    assert!(block.timestamp > 1_500_000_000);
    assert!(block.transactions.is_empty());
}

#[test]
fn last_block_is_the_newest() {
    let mut ledger = started(1);
    assert_eq!(ledger.last_block().unwrap().index, 1);
    ledger.new_block_at(3, String::from("x"), 2).unwrap();
    ledger.new_block_at(4, String::from("y"), 3).unwrap();
    let last = ledger.last_block().unwrap();
    assert_eq!(last.index, 3);
    assert_eq!(last.proof, 4);
    assert_eq!(last.previous_hash, "y");
}

#[test]
fn error_messages() {
    assert_eq!(LedgerError::ChainNotInitialized.message(), "the chain has no first block");
    assert_eq!(
        LedgerError::StaleForge.message(),
        "the chain has moved on since the proof was sought"
    );
    assert_eq!(
        LedgerError::InvalidProof.message(),
        "the proof does not solve the puzzle of the last block"
    );
    assert_eq!(
        LedgerError::TailNotHashable.message(),
        "the last block is too long to be digested"
    );
    assert_eq!(
        LedgerError::ProofNotFound.message(),
        "no proof solves the puzzle of the last block"
    );
}

#[test]
fn mine_forges_a_block_that_fits() {
    let mut ledger = started(1700000000);
    assert_eq!(ledger.chain().len(), 1);
    assert_eq!(ledger.chain()[0].index, 1);
    assert_eq!(ledger.new_transaction(String::from("Alice"), String::from("Bob"), 50), 2);
    let genesis_digest = ledger.hash_block(&ledger.chain()[0]).unwrap();
    let block = ledger.mine(String::from("node-1")).unwrap();
    assert_eq!(block.index, 2);
    assert_eq!(block.proof, 35293);
    assert_eq!(block.previous_hash, genesis_digest);
    assert_eq!(block.transactions.len(), 2);
    assert_eq!(block.transactions[0].sender(), "Alice");
    assert_eq!(block.transactions[0].recipient(), "Bob");
    assert_eq!(block.transactions[0].amount(), 50);
    assert_eq!(block.transactions[1].sender(), "0");
    assert_eq!(block.transactions[1].recipient(), "node-1");
    assert_eq!(block.transactions[1].amount(), 1);
    assert!(ledger.valid_proof(100, ledger.chain()[1].proof));
    assert!(ledger.current_transactions().is_empty());
    assert_eq!(ledger.chain().len(), 2);
    assert!(ledger.is_valid());
}

#[test]
fn mine_puts_the_reward_last() {
    let mut ledger = started(1);
    ledger.new_transaction(String::from("t1"), String::from("x"), 1);
    ledger.new_transaction(String::from("t2"), String::from("y"), 2);
    let block = ledger.mine(String::from("miner")).unwrap();
    let senders: Vec<&str> = block.transactions.iter().map(|t| t.sender()).collect();
    assert_eq!(senders, vec!["t1", "t2", "0"]);
    assert_eq!(block.transactions[2].recipient(), "miner");
    assert!(ledger.current_transactions().is_empty());
}

#[test]
fn mine_needs_a_first_block() {
    let mut ledger = Blockchain::new();
    ledger.new_transaction(String::from("a"), String::from("b"), 1);
    assert_eq!(ledger.mine(String::from("n")).err(), Some(LedgerError::ChainNotInitialized));
    assert!(ledger.chain().is_empty());
    assert_eq!(ledger.current_transactions().len(), 1);
}

#[test]
fn mined_chains_are_valid() {
    let mut ledger = started(1700000000);
    let expected = [35293, 35089, 119678];
    for (i, proof) in expected.iter().enumerate() {
        ledger.new_transaction(String::from("a"), String::from("b"), 1);
        let block = ledger.mine(String::from("n")).unwrap();
        assert_eq!(block.proof, *proof);
        assert_eq!(block.index, i + 2);
        assert!(ledger.is_valid());
    }
    assert_eq!(ledger.chain().len(), 4);
}

#[test]
fn forge_mined_accepts_what_fits() {
    let mut ledger = started(1700000000);
    ledger.new_transaction(String::from("a"), String::from("b"), 1);
    let digest = ledger.hash_block(ledger.last_block().unwrap()).unwrap();
    let block = ledger.forge_mined(String::from("node-1"), 35293, digest.clone()).unwrap();
    assert_eq!(block.index, 2);
    assert_eq!(block.proof, 35293);
    assert_eq!(block.previous_hash, digest);
    assert_eq!(block.transactions.len(), 2);
    assert_eq!(block.transactions[0].sender(), "a");
    assert_eq!(block.transactions[1].sender(), "0");
    assert_eq!(block.transactions[1].recipient(), "node-1");
    assert_eq!(block.transactions[1].amount(), 1);
    assert!(ledger.current_transactions().is_empty());
    assert!(ledger.is_valid());
}

#[test]
fn forge_mined_rejects_a_stale_previous_hash() {
    let mut ledger = started(1700000000);
    let stale = ledger.hash_block(ledger.last_block().unwrap()).unwrap();
    ledger.forge_mined(String::from("n"), 35293, stale.clone()).unwrap();
    ledger.new_transaction(String::from("a"), String::from("b"), 1);
    assert_eq!(
        ledger.forge_mined(String::from("n"), 35089, stale).err(),
        Some(LedgerError::StaleForge)
    );
    assert_eq!(ledger.chain().len(), 2);
    assert_eq!(ledger.current_transactions().len(), 1);
    let fresh = ledger.hash_block(ledger.last_block().unwrap()).unwrap();
    assert!(ledger.forge_mined(String::from("n"), 35089, fresh).is_ok());
    assert_eq!(ledger.chain().len(), 3);
    assert_eq!(ledger.chain()[2].transactions.len(), 2);
    assert!(ledger.is_valid());
}

#[test]
fn forge_mined_rejects_a_wrong_proof() {
    let mut ledger = started(1700000000);
    ledger.new_transaction(String::from("a"), String::from("b"), 1);
    let digest = ledger.hash_block(ledger.last_block().unwrap()).unwrap();
    assert_eq!(
        ledger.forge_mined(String::from("n"), 35292, digest).err(),
        Some(LedgerError::InvalidProof)
    );
    assert_eq!(ledger.chain().len(), 1);
    assert_eq!(ledger.current_transactions().len(), 1);
}

#[test]
fn forge_mined_needs_a_first_block() {
    let mut ledger = Blockchain::new();
    assert_eq!(
        ledger.forge_mined(String::from("n"), 35293, String::from("x")).err(),
        Some(LedgerError::ChainNotInitialized)
    );
    assert!(ledger.current_transactions().is_empty());
}

#[test]
fn mine_and_forge_mined_agree() {
    let mut mined = started(1700000000);
    mined.new_transaction(String::from("a"), String::from("b"), 1);
    let mut forged = mined.clone();
    let by_mine = mined.mine(String::from("n")).unwrap().clone();
    let digest = forged.hash_block(forged.last_block().unwrap()).unwrap();
    let proof = forged.proof_of_work(forged.last_block().unwrap().proof).unwrap();
    let by_forge = forged.forge_mined(String::from("n"), proof, digest).unwrap();
    assert_eq!(by_mine.index, by_forge.index);
    assert_eq!(by_mine.proof, by_forge.proof);
    assert_eq!(by_mine.previous_hash, by_forge.previous_hash);
    assert_eq!(by_mine.transactions.len(), by_forge.transactions.len());
}

#[test]
fn clone_copies_chain_and_pool() {
    let mut ledger = started(1700000000);
    ledger.new_block_at(1, String::from("x"), 5).unwrap();
    ledger.new_transaction(String::from("a"), String::from("b"), 1);
    let copy = ledger.clone();
    assert_eq!(copy.chain().len(), 2);
    assert_eq!(copy.chain()[1].to_json(), ledger.chain()[1].to_json());
    assert_eq!(copy.current_transactions().len(), 1);
    assert_eq!(copy.current_transactions()[0].sender(), "a");
    ledger.new_block_at(2, String::from("y"), 6).unwrap();
    assert_eq!(copy.chain().len(), 2);
    assert_eq!(copy.current_transactions().len(), 1);
}

#[test]
fn unchecked_forging_can_break_validity() {
    let mut ledger = started(1);
    ledger.new_block_at(5, String::from("x"), 2).unwrap();
    assert!(!ledger.is_valid());
}

#[test]
fn hash_block_is_deterministic() {
    let ledger = started(1700000000);
    let block = Block::at(3, &[], 9, String::from("p"), 4);
    assert_eq!(ledger.hash_block(&block), ledger.hash_block(&block));
    assert_eq!(ledger.hash_block(&block), block.digest());
    let other = Block::at(3, &[], 10, String::from("p"), 4);
    assert_ne!(ledger.hash_block(&block), ledger.hash_block(&other));
}

#[test]
fn pool_keeps_submission_order() {
    let mut pool = TransactionPool::new();
    assert!(pool.is_empty());
    assert_eq!(pool.len(), 0);
    pool.add(Transaction::new(String::from("a"), String::from("b"), 1));
    pool.add(Transaction::new(String::from("c"), String::from("d"), 2));
    assert!(!pool.is_empty());
    assert_eq!(pool.len(), 2);
    let snapshot = pool.snapshot();
    assert_eq!(snapshot[0].sender(), "a");
    assert_eq!(snapshot[1].sender(), "c");
}
