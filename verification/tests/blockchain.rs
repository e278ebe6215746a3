use pow_chain::block::{has_leading_zeros, Block};
use pow_chain::blockchain::{Blockchain, DEFAULT_DIFFICULTY};

const GENESIS_HASH: &str = "2726b833137ca70d850013dc6e92d653d0086a80b1e6d672103f2a605c188c7e";

fn mined_chain() -> Blockchain {
    let mut ledger = Blockchain::new_at(1_700_000_000);
    ledger.difficulty = 2;
    ledger.add_transaction("Alice -> Bob: 10 BTC".to_string());
    ledger.add_transaction("Bob -> Charlie: 5 BTC".to_string());
    assert!(ledger.mine_pending_transactions_at(1_700_000_001));
    ledger.add_transaction("Charlie -> Alice: 2.5 BTC".to_string());
    assert!(ledger.mine_pending_transactions_at(1_700_000_002));
    ledger
}

#[test]
fn new_chain_holds_the_first_block_alone() {
    let ledger = Blockchain::new_at(1_700_000_000);
    assert_eq!(ledger.chain.len(), 1);
    assert_eq!(ledger.difficulty, 4);
    assert_eq!(DEFAULT_DIFFICULTY, 4);
    assert!(ledger.pending_transactions.is_empty());
    let first = &ledger.chain[0];
    assert_eq!(first.timestamp, 1_700_000_000);
    assert_eq!(first.transactions, vec!["Genesis Block".to_string()]);
    assert_eq!(first.previous_hash, "0".repeat(64));
    assert_eq!(first.nonce, 0);
    assert_eq!(first.hash, GENESIS_HASH);
    assert!(ledger.is_chain_valid());
}

#[test]
fn new_chain_is_stamped_by_the_clock() {
    let ledger = Blockchain::new();
    assert_eq!(ledger.chain.len(), 1);
    assert_eq!(ledger.difficulty, 4);
    assert!(ledger.pending_transactions.is_empty());
    let first = &ledger.chain[0];
    assert_eq!(first.transactions, vec!["Genesis Block".to_string()]);
    assert_eq!(first.previous_hash, "0".repeat(64));
    assert_eq!(first.nonce, 0);
    assert_eq!(first.hash, first.calculate_hash());
    assert!(ledger.is_chain_valid());
}

#[test]
fn first_block_is_not_mined() {
    let ledger = Blockchain::new_at(1_700_000_000);
    assert!(!has_leading_zeros(&ledger.chain[0].hash, ledger.difficulty));
    assert!(ledger.is_chain_valid());
}

#[test]
fn latest_block_is_the_last_one() {
    let ledger = mined_chain();
    assert_eq!(ledger.get_latest_block().hash, ledger.chain[2].hash);
    let fresh = Blockchain::new_at(3);
    assert_eq!(fresh.get_latest_block().hash, fresh.chain[0].hash);
}

#[test]
fn payloads_queue_in_the_order_they_come() {
    let mut ledger = Blockchain::new_at(1);
    ledger.add_transaction("first".to_string());
    ledger.add_transaction("second".to_string());
    ledger.add_transaction("first".to_string());
    assert_eq!(
        ledger.pending_transactions,
        vec!["first".to_string(), "second".to_string(), "first".to_string()]
    );
    assert_eq!(ledger.chain.len(), 1);
    assert_eq!(ledger.difficulty, 4);
}

#[test]
fn create_queue_mine_validate_and_tamper() {
    let mut ledger = Blockchain::new_at(1_700_000_000);
    assert_eq!(ledger.chain.len(), 1);
    assert_eq!(ledger.chain[0].previous_hash, "0".repeat(64));
    assert!(ledger.is_chain_valid());

    ledger.add_transaction("Alice -> Bob: 10 BTC".to_string());
    ledger.add_transaction("Bob -> Charlie: 5 BTC".to_string());
    assert!(ledger.is_chain_valid());
    assert!(ledger.mine_pending_transactions_at(1_700_000_001));
    assert_eq!(ledger.chain.len(), 2);
    assert!(ledger.pending_transactions.is_empty());
    assert_eq!(ledger.chain[1].previous_hash, ledger.chain[0].hash);
    assert_eq!(ledger.chain[1].nonce, 8534);
    assert_eq!(
        ledger.chain[1].hash,
        "0000215800dc9501f68cbbd34e00d8a7ce7d1dabdbd6e5b5ba22a3769bd66cba"
    );
    assert!(ledger.is_chain_valid());

    ledger.add_transaction("Charlie -> Alice: 2.5 BTC".to_string());
    assert!(ledger.mine_pending_transactions_at(1_700_000_002));
    assert_eq!(ledger.chain.len(), 3);
    assert!(ledger.pending_transactions.is_empty());
    assert_eq!(ledger.chain[2].previous_hash, ledger.chain[1].hash);
    assert_eq!(ledger.chain[2].nonce, 27856);
    assert_eq!(
        ledger.chain[2].hash,
        "0000ec66eaefe482afd533156f32f845127728a7c49b0fdaa93b3db2bde113be"
    );
    assert!(ledger.is_chain_valid());

    ledger.chain[1].nonce += 1;
    assert!(!ledger.is_chain_valid());
}

#[test]
fn mined_block_carries_what_was_pending() {
    let ledger = mined_chain();
    assert_eq!(
        ledger.chain[1].transactions,
        vec!["Alice -> Bob: 10 BTC".to_string(), "Bob -> Charlie: 5 BTC".to_string()]
    );
    assert_eq!(ledger.chain[1].timestamp, 1_700_000_001);
    assert_eq!(
        ledger.chain[2].transactions,
        vec!["Charlie -> Alice: 2.5 BTC".to_string()]
    );
    assert_eq!(ledger.chain[2].timestamp, 1_700_000_002);
    assert_eq!(ledger.difficulty, 2);
    assert_eq!(ledger.chain[0].hash, GENESIS_HASH);
}

#[test]
fn mined_blocks_meet_the_difficulty_and_are_sealed() {
    let ledger = mined_chain();
    for block in &ledger.chain[1..] {
        assert!(block.hash.starts_with("00"));
        assert_eq!(block.hash, block.calculate_hash());
    }
}

#[test]
fn mined_block_has_the_first_nonce_that_meets_the_difficulty() {
    let ledger = mined_chain();
    let mined = &ledger.chain[1];
    let mut probe = mined.clone();
    for nonce in 0..mined.nonce {
        probe.nonce = nonce;
        assert!(!has_leading_zeros(&probe.calculate_hash(), 2));
    }
}

#[test]
fn every_block_names_the_hash_before_it() {
    let mut ledger = mined_chain();
    for round in 0..3 {
        ledger.add_transaction(format!("payload {}", round));
        assert!(ledger.mine_pending_transactions_at(1_700_000_010 + round));
    }
    assert_eq!(ledger.chain.len(), 6);
    for i in 1..ledger.chain.len() {
        assert_eq!(ledger.chain[i].previous_hash, ledger.chain[i - 1].hash);
    }
    assert!(ledger.is_chain_valid());
}

#[test]
fn mining_an_empty_queue_gives_a_block_without_payloads() {
    let mut ledger = Blockchain::new_at(1_700_000_000);
    ledger.difficulty = 1;
    assert!(ledger.mine_pending_transactions_at(1_700_000_001));
    assert_eq!(ledger.chain.len(), 2);
    assert!(ledger.chain[1].transactions.is_empty());
    assert!(ledger.chain[1].hash.starts_with('0'));
    assert_eq!(ledger.chain[1].previous_hash, GENESIS_HASH);
    assert!(ledger.pending_transactions.is_empty());
    assert!(ledger.is_chain_valid());
}

#[test]
fn mining_at_difficulty_zero_appends_the_block_as_made() {
    let mut ledger = Blockchain::new_at(1_700_000_000);
    ledger.difficulty = 0;
    ledger.add_transaction("unmined".to_string());
    assert!(ledger.mine_pending_transactions_at(1_700_000_005));
    assert_eq!(ledger.chain[1].nonce, 0);
    assert_eq!(
        ledger.chain[1].hash,
        "e0265912854aa96e202802e52990adcf3eb8ae0f2d66fc422add8a48c5643d42"
    );
    assert!(ledger.is_chain_valid());
}

#[test]
fn mining_by_the_clock_appends_a_linked_block() {
    let mut ledger = Blockchain::new();
    ledger.difficulty = 1;
    ledger.add_transaction("Alice -> Bob: 10 BTC".to_string());
    assert!(ledger.mine_pending_transactions());
    assert_eq!(ledger.chain.len(), 2);
    assert!(ledger.pending_transactions.is_empty());
    assert_eq!(ledger.chain[1].previous_hash, ledger.chain[0].hash);
    assert_eq!(
        ledger.chain[1].transactions,
        vec!["Alice -> Bob: 10 BTC".to_string()]
    );
    assert!(ledger.chain[1].hash.starts_with('0'));
    assert_eq!(ledger.chain[1].hash, ledger.chain[1].calculate_hash());
    assert!(ledger.is_chain_valid());
}

#[test]
fn a_chain_without_mined_blocks_is_valid() {
    let mut ledger = Blockchain::new_at(1);
    assert!(ledger.is_chain_valid());
    ledger.chain.clear();
    assert!(ledger.is_chain_valid());
}

#[test]
fn validation_does_not_change_the_chain() {
    let ledger = mined_chain();
    let hashes: Vec<String> = ledger.chain.iter().map(|b| b.hash.clone()).collect();
    assert!(ledger.is_chain_valid());
    assert!(ledger.is_chain_valid());
    let after: Vec<String> = ledger.chain.iter().map(|b| b.hash.clone()).collect();
    assert_eq!(hashes, after);
    assert_eq!(ledger.chain.len(), 3);
}

#[test]
fn a_changed_payload_is_detected() {
    let mut ledger = mined_chain();
    ledger.chain[1].transactions[0] = "Alice -> Bob: 1000 BTC".to_string();
    assert!(!ledger.is_chain_valid());
}

#[test]
fn a_changed_timestamp_is_detected() {
    let mut ledger = mined_chain();
    ledger.chain[2].timestamp += 1;
    assert!(!ledger.is_chain_valid());
}

#[test]
fn a_changed_nonce_is_detected() {
    let mut ledger = mined_chain();
    ledger.chain[2].nonce += 1;
    assert!(!ledger.is_chain_valid());
}

#[test]
fn a_changed_previous_hash_is_detected() {
    let mut ledger = mined_chain();
    ledger.chain[2].previous_hash = "0".repeat(64);
    assert!(!ledger.is_chain_valid());
    ledger.chain[2].hash = ledger.chain[2].calculate_hash();
    assert!(!ledger.is_chain_valid());
}

#[test]
fn a_changed_hash_is_detected() {
    let mut ledger = mined_chain();
    ledger.chain[1].hash = "00".to_string() + &"f".repeat(62);
    assert!(!ledger.is_chain_valid());
}

#[test]
fn a_resealed_block_breaks_the_link_after_it() {
    let mut ledger = mined_chain();
    ledger.chain[1].transactions.push("Mallory -> Mallory: 1 BTC".to_string());
    ledger.chain[1].hash = ledger.chain[1].calculate_hash();
    assert!(!ledger.is_chain_valid());
    ledger.chain.pop();
    assert!(ledger.is_chain_valid());
}

#[test]
fn a_removed_block_breaks_the_link() {
    let mut ledger = mined_chain();
    ledger.chain.remove(1);
    assert!(!ledger.is_chain_valid());
}

#[test]
fn the_first_block_is_checked_through_its_hash_alone() {
    let mut ledger = mined_chain();
    ledger.chain[0].transactions[0] = "Another start".to_string();
    ledger.chain[0].previous_hash = "1".repeat(64);
    assert!(ledger.is_chain_valid());
    ledger.chain[0].hash = ledger.chain[0].calculate_hash();
    assert!(!ledger.is_chain_valid());
}

#[test]
fn validation_passes_a_sealed_block_that_misses_the_difficulty() {
    let mut ledger = mined_chain();
    ledger.difficulty = 4;
    let unmined = Block::new_at(
        1_700_000_005,
        vec!["unmined".to_string()],
        ledger.get_latest_block().hash.clone(),
    );
    assert_eq!(unmined.nonce, 0);
    assert_eq!(unmined.hash, unmined.calculate_hash());
    assert!(!has_leading_zeros(&unmined.hash, ledger.difficulty));
    ledger.chain.push(unmined);
    assert!(ledger.is_chain_valid());
}

#[test]
fn validation_passes_the_unmined_block_on_a_fresh_chain() {
    let mut ledger = Blockchain::new_at(1_700_000_000);
    let unmined = Block::new_at(
        1_700_000_005,
        vec!["unmined".to_string()],
        GENESIS_HASH.to_string(),
    );
    assert_eq!(
        unmined.hash,
        "e0265912854aa96e202802e52990adcf3eb8ae0f2d66fc422add8a48c5643d42"
    );
    assert!(!unmined.hash.starts_with("0000"));
    ledger.chain.push(unmined);
    assert!(ledger.is_chain_valid());
}

#[test]
fn mining_by_the_clock_at_difficulty_zero_always_appends() {
    let mut ledger = Blockchain::new();
    ledger.difficulty = 0;
    for round in 0..3 {
        ledger.add_transaction(format!("payload {}", round));
        assert!(ledger.mine_pending_transactions());
        assert!(ledger.pending_transactions.is_empty());
    }
    assert_eq!(ledger.chain.len(), 4);
    for block in &ledger.chain[1..] {
        assert_eq!(block.nonce, 0);
        assert_eq!(block.hash, block.calculate_hash());
    }
    assert!(ledger.is_chain_valid());
}
