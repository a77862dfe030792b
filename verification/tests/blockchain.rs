use chain_verse::blockchain::{confirmed_slot, recent_block_slot, BlockInfo};

fn sample_block() -> BlockInfo {
    BlockInfo {
        slot: 12345,
        blockhash: "abc123".to_string(),
        previous_blockhash: "xyz789".to_string(),
        block_time: Some(1234567890),
        block_height: Some(1000),
        parent_slot: 12344,
        transaction_count: 50,
        sample_signatures: vec!["sig1".to_string(), "sig2".to_string()],
    }
}

#[test]
fn test_entropy_sources() {
    let block = sample_block();

    let sources = block.entropy_sources();
    assert!(sources.len() >= 4);
    assert!(sources.contains(&"abc123".to_string()));
    assert!(sources.contains(&"xyz789".to_string()));
}

#[test]
fn test_entropy_sources_decimal_fields() {
    let block = sample_block();
    let sources = block.entropy_sources();
    assert_eq!(sources.len(), 6);
    assert_eq!(sources[2], "12345");
    assert_eq!(sources[3], "50");
    assert_eq!(sources[4], "sig1");
    assert_eq!(sources[5], "sig2");
}

#[test]
fn test_from_signatures_keeps_at_most_five() {
    let sigs: Vec<String> = (0..7).map(|i| format!("s{}", i)).collect();
    let block = BlockInfo::from_signatures(
        9,
        "hash".to_string(),
        "prev".to_string(),
        None,
        None,
        8,
        sigs,
    );
    assert_eq!(block.transaction_count, 7);
    assert_eq!(block.sample_signatures.len(), 5);
    assert_eq!(block.sample_signatures[0], "s0");
    assert_eq!(block.sample_signatures[4], "s4");
}

#[test]
fn test_confirmed_slot_backs_off() {
    assert_eq!(confirmed_slot(100), 68);
    assert_eq!(confirmed_slot(32), 0);
    assert_eq!(confirmed_slot(10), 0);
}

#[test]
fn test_recent_block_slot_strides() {
    assert_eq!(recent_block_slot(10_000, 0), 10_000 - 32);
    assert_eq!(recent_block_slot(10_000, 2), 10_000 - 32 - 200);
    assert_eq!(recent_block_slot(100, 1), 0);
}
