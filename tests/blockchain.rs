use hashchain::block::Block;
use hashchain::blockchain::BlockChain;

fn three_block_chain() -> BlockChain {
    let mut chain = BlockChain::new("hello world".to_string()).unwrap();
    chain.add_block("second data".to_string()).unwrap();
    chain.add_block("third data".to_string()).unwrap();
    chain
}

#[test]
fn test_blockchain() {
    let data_1 = "hello world".to_string();
    let data_2 = "second data".to_string();
    let data_3 = "third data".to_string();
    let mut chain = BlockChain::new(data_1.clone()).unwrap();
    chain.add_block(data_2.clone()).unwrap();
    chain.add_block(data_3.clone()).unwrap();
    assert!(chain.chain.len() == 3);
    assert!(chain.chain[0].data == data_1);
    assert!(chain.chain[1].data == data_2);
    assert!(chain.chain[2].data == data_3);
}

#[test]
fn test_chain_validation_value_changed() {
    let data_1 = "hello world".to_string();
    let data_2 = "second data".to_string();
    let data_3 = "third data".to_string();
    let mut chain = BlockChain::new(data_1.clone()).unwrap();
    chain.add_block(data_2.clone()).unwrap();
    chain.add_block(data_3.clone()).unwrap();

    assert!(chain.is_valid());

    // change a value in the chain and assert the chain is no longer valid
    chain.chain[1].data = "new_data".to_string();
    assert!(!chain.is_valid());
}

#[test]
fn test_chain_validation_hash_changed() {
    let data_1 = "hello world".to_string();
    let data_2 = "second data".to_string();
    let data_3 = "third data".to_string();
    let mut chain = BlockChain::new(data_1.clone()).unwrap();
    chain.add_block(data_2.clone()).unwrap();
    chain.add_block(data_3.clone()).unwrap();

    assert!(chain.is_valid());

    // change a value and hash and assert the chain is no longer valid
    chain.chain[1].data = "new_data".to_string();
    chain.chain[1].hash = Block::generate_hash_from_block(&chain.chain[1]);
    assert!(!chain.is_valid());
}

#[test]
fn new_chain_has_one_genesis_block() {
    let chain = BlockChain::new("g".to_string()).unwrap();
    assert_eq!(chain.chain.len(), 1);
    assert_eq!(chain.chain[0].previous_block_hash, None);
    assert!(chain.is_valid());
}

#[test]
fn appended_blocks_link_to_predecessors() {
    let mut chain = BlockChain::new("g".to_string()).unwrap();
    for i in 0..5 {
        chain.add_block(format!("block {i}")).unwrap();
    }
    assert_eq!(chain.chain.len(), 6);
    for i in 1..chain.chain.len() {
        assert_eq!(chain.chain[i].previous_block_hash, Some(chain.chain[i - 1].hash.clone()));
        assert_eq!(Block::generate_hash_from_block(&chain.chain[i]), chain.chain[i].hash);
    }
    assert!(chain.is_valid());
}

#[test]
fn latest_block_is_an_independent_copy() {
    let chain = three_block_chain();
    let mut latest = chain.get_latest_block();
    assert_eq!(latest.data, "third data");
    assert_eq!(latest.hash, chain.chain[2].hash);
    latest.data = "changed".to_string();
    assert_eq!(chain.chain[2].data, "third data");
    assert!(chain.is_valid());
}

#[test]
fn tampered_hash_is_detected() {
    let mut chain = three_block_chain();
    chain.chain[2].hash = "0".repeat(128);
    assert!(!chain.is_valid());
}

#[test]
fn tampered_link_is_detected() {
    let mut chain = three_block_chain();
    chain.chain[2].previous_block_hash = Some("f".repeat(128));
    assert!(!chain.is_valid());
    chain.chain[2].previous_block_hash = None;
    assert!(!chain.is_valid());
}

#[test]
fn rehashed_genesis_is_detected_by_its_successor() {
    let mut chain = three_block_chain();
    chain.chain[0].data = "new_data".to_string();
    chain.chain[0].hash = Block::generate_hash_from_block(&chain.chain[0]);
    assert!(!chain.is_valid());
}

#[test]
fn rewritten_tail_goes_undetected() {
    let mut chain = three_block_chain();
    chain.chain[2].data = "new_data".to_string();
    chain.chain[2].hash = Block::generate_hash_from_block(&chain.chain[2]);
    assert!(chain.is_valid());
}

#[test]
fn genesis_data_is_trusted_without_recheck() {
    let mut chain = three_block_chain();
    chain.chain[0].data = "new_data".to_string();
    assert!(chain.is_valid());
}
