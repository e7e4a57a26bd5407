use blockchain::block::{candidate_digest, is_proof_valid, Block, LedgerError};
use blockchain::hash_engine::decimal_of;
use blockchain::ledger::{Blockchain, GENESIS_HASH};
use blockchain::transaction::{amount_parts, twos_complement_of, Transaction};
use std::collections::hash_map::DefaultHasher;
use std::hash::{Hash, Hasher};

fn tx(to: &str, from: &str, amount: i64) -> Transaction {
    Transaction::new(to.to_string(), from.to_string(), amount)
}

#[test]
fn single_transaction_block() {
    let mut chain = Blockchain::new();
    chain.add_transaction(tx("bob", "alice", 10_000_000));
    assert_eq!(chain.add_block(), Ok(()));
    assert_eq!(chain.get_size(), 1);
    assert!(chain.pending_transactions().is_empty());
    let block = &chain.blocks()[0];
    assert_eq!(block.transactions().len(), 1);
    let t = &block.transactions()[0];
    assert_eq!(t.to(), "bob");
    assert_eq!(t.from(), "alice");
    assert_eq!(t.amount(), 10_000_000);
    assert_eq!(block.last_hash(), GENESIS_HASH);
    assert!(is_proof_valid(candidate_digest(block.last_hash(), block.nonce())));
}

#[test]
fn two_blocks_are_linked() {
    let mut chain = Blockchain::new();
    chain.add_transaction(tx("bob", "alice", 10_000_000));
    assert_eq!(chain.add_block(), Ok(()));
    chain.add_transaction(tx("carol", "bob", 2_500_000));
    assert_eq!(chain.add_block(), Ok(()));
    assert_eq!(chain.get_size(), 2);
    let first = &chain.blocks()[0];
    let second = &chain.blocks()[1];
    assert_eq!(first.last_hash(), GENESIS_HASH);
    assert_eq!(second.last_hash(), first.hash());
    assert_eq!(second.last_hash(), Block::calculate_hash(first.transactions()));
    assert_eq!(second.transactions()[0].to(), "carol");
    assert!(is_proof_valid(candidate_digest(second.last_hash(), second.nonce())));
}

#[test]
fn empty_block_is_accepted() {
    let mut chain = Blockchain::new();
    assert_eq!(chain.add_block(), Ok(()));
    assert_eq!(chain.get_size(), 1);
    assert!(chain.blocks()[0].transactions().is_empty());
    assert_eq!(chain.blocks()[0].hash(), Block::calculate_hash(&Vec::new()));
}

#[test]
fn add_block_empties_queue_and_grows_by_one() {
    let mut chain = Blockchain::new();
    chain.add_transaction(tx("a", "b", 1));
    chain.add_transaction(tx("c", "d", 2));
    assert_eq!(chain.pending_transactions().len(), 2);
    assert_eq!(chain.get_size(), 0);
    assert_eq!(chain.add_block(), Ok(()));
    assert!(chain.pending_transactions().is_empty());
    assert_eq!(chain.get_size(), 1);
    let txs = chain.blocks()[0].transactions();
    assert_eq!(txs.len(), 2);
    assert_eq!(txs[0].to(), "a");
    assert_eq!(txs[1].to(), "c");
}

#[test]
fn transaction_hash_is_deterministic() {
    let t = tx("bob", "alice", 10_000_000);
    assert_eq!(t.hash(), t.hash());
    assert_eq!(Transaction::calculate_hash(&t), t.hash());
    assert_eq!(tx("bob", "alice", 10_000_000).hash(), t.hash());
}

#[test]
fn transaction_hash_is_sensitive() {
    let names = ["bob", "alice", "carol", "dave", "eve"];
    for (i, a) in names.iter().enumerate() {
        for b in names.iter().skip(i + 1) {
            let base = tx(a, b, 10_000_000);
            assert_ne!(base.hash(), tx(b, b, 10_000_000).hash());
            assert_ne!(base.hash(), tx(a, a, 10_000_000).hash());
            assert_ne!(base.hash(), tx(a, b, 10_010_000).hash());
            assert_ne!(base.hash(), tx(a, b, 11_000_000).hash());
            assert_ne!(base.hash(), tx(b, a, 10_000_000).hash());
        }
    }
}

#[test]
fn transaction_hash_truncates_below_hundredths() {
    assert_eq!(tx("bob", "alice", 10_004_000).hash(), tx("bob", "alice", 10_006_000).hash());
    assert_eq!(tx("bob", "alice", 10_004_000).hash(), tx("bob", "alice", 10_000_000).hash());
    assert_eq!(tx("bob", "alice", -10_004_000).hash(), tx("bob", "alice", -10_009_999).hash());
    assert_eq!(tx("bob", "alice", -1).hash(), tx("bob", "alice", 1).hash());
    assert_ne!(tx("bob", "alice", 10_000_000).hash(), tx("bob", "alice", 10_010_000).hash());
    assert_ne!(tx("bob", "alice", 10_000_000).hash(), tx("bob", "alice", -10_000_000).hash());
}

#[test]
fn amount_parts_values() {
    assert_eq!(amount_parts(10_006_000), (10, 0));
    assert_eq!(amount_parts(1_234_567_890), (1234, 56));
    assert_eq!(amount_parts(-1_234_567_890), (-1234, -56));
    assert_eq!(amount_parts(-1), (0, 0));
    assert_eq!(amount_parts(0), (0, 0));
    assert_eq!(amount_parts(990_000), (0, 99));
    assert_eq!(amount_parts(i64::MIN), (-9_223_372_036_854, -77));
    assert_eq!(amount_parts(i64::MAX), (9_223_372_036_854, 77));
}

#[test]
fn twos_complement_values() {
    assert_eq!(twos_complement_of(5), 5);
    assert_eq!(twos_complement_of(-1), u64::MAX);
    assert_eq!(twos_complement_of(i64::MIN), 1u64 << 63);
    assert_eq!(twos_complement_of(-56), (-56i64) as u64);
}

#[test]
fn transaction_hash_folds_like_std() {
    let t = tx("bob", "alice", 1_234_567_890);
    let mut h = DefaultHasher::new();
    "bob".hash(&mut h);
    "alice".hash(&mut h);
    h.write(&1234u64.to_le_bytes());
    h.write(&56u64.to_le_bytes());
    assert_eq!(t.hash(), h.finish());
}

#[test]
fn candidate_digest_hashes_the_concatenated_string() {
    for (anchor, nonce) in [(0u64, 0u64), (0, 5), (123, 4567), (u64::MAX, 99)] {
        let s = anchor.to_string() + &nonce.to_string();
        let mut h = DefaultHasher::new();
        s.hash(&mut h);
        assert_eq!(candidate_digest(anchor, nonce), h.finish());
    }
}

#[test]
fn proof_predicate_values() {
    assert!(is_proof_valid(0));
    assert!(!is_proof_valid(5));
    assert!(!is_proof_valid(10));
    assert!(!is_proof_valid(100_000));
    assert!(is_proof_valid(1_000_000));
    assert!(is_proof_valid(12_000_000));
    assert!(!is_proof_valid(12_000_010));
    assert!(!is_proof_valid(u64::MAX));
}

#[test]
fn decimal_rendering() {
    assert_eq!(decimal_of(0), b"0".to_vec());
    assert_eq!(decimal_of(1234), b"1234".to_vec());
    assert_eq!(decimal_of(u64::MAX), u64::MAX.to_string().into_bytes());
}

#[test]
fn proof_of_work_finds_smallest_nonce() {
    let n = Block::calculate_proof_of_work(GENESIS_HASH).unwrap();
    assert!(is_proof_valid(candidate_digest(GENESIS_HASH, n)));
    for m in 0..n {
        assert!(!is_proof_valid(candidate_digest(GENESIS_HASH, m)));
    }
}

#[test]
fn block_new_seals_transactions() {
    let txs = vec![tx("bob", "alice", 10_000_000), tx("alice", "bob", 5_000_000)];
    let expected = Block::calculate_hash(&txs);
    let b = Block::new(txs, 42).unwrap();
    assert_eq!(b.hash(), expected);
    assert_eq!(b.last_hash(), 42);
    assert_eq!(b.nonce(), Block::calculate_proof_of_work(42).unwrap());
    assert_eq!(b.transactions().len(), 2);
    let r: Result<Block, LedgerError> = Block::new(Vec::new(), 7);
    assert!(r.is_ok());
}

#[test]
fn block_hash_is_order_sensitive() {
    let a = vec![tx("bob", "alice", 1_000_000), tx("carol", "dave", 2_000_000)];
    let b = vec![tx("carol", "dave", 2_000_000), tx("bob", "alice", 1_000_000)];
    assert_ne!(Block::calculate_hash(&a), Block::calculate_hash(&b));
    let mut h = DefaultHasher::new();
    "bob".hash(&mut h);
    "alice".hash(&mut h);
    h.write(&1u64.to_le_bytes());
    h.write(&0u64.to_le_bytes());
    "carol".hash(&mut h);
    "dave".hash(&mut h);
    h.write(&2u64.to_le_bytes());
    h.write(&0u64.to_le_bytes());
    assert_eq!(Block::calculate_hash(&a), h.finish());
}
