use chain_verse::blockchain::BlockInfo;
use chain_verse::consts::BlockDataSource;
use chain_verse::derivation::{DerivationError, KeywordDerivation};
use chain_verse::words::WordDictionary;

fn create_test_dictionary() -> WordDictionary {
    WordDictionary {
        nouns: vec![
            "moon".to_string(),
            "river".to_string(),
            "stone".to_string(),
            "ember".to_string(),
        ],
        verbs: vec!["drift".to_string(), "gather".to_string(), "burn".to_string()],
        adjectives: vec!["silent".to_string(), "golden".to_string(), "restless".to_string()],
    }
}

fn create_test_block() -> BlockInfo {
    BlockInfo {
        slot: 12345,
        blockhash: "test_hash_123".to_string(),
        previous_blockhash: "prev_hash_456".to_string(),
        block_time: Some(1234567890),
        block_height: Some(1000),
        parent_slot: 12344,
        transaction_count: 50,
        sample_signatures: vec!["sig1".to_string(), "sig2".to_string(), "sig3".to_string()],
    }
}

#[test]
fn test_deterministic_derivation() {
    let dict = create_test_dictionary();
    let derivation = KeywordDerivation::new(dict);

    let block = create_test_block();

    // Same block should always produce same word
    let keyword1 = derivation.derive_keyword(&block).unwrap();
    let keyword2 = derivation.derive_keyword(&block).unwrap();

    assert_eq!(keyword1.word, keyword2.word);
    assert_eq!(keyword1.slot, keyword2.slot);
}

#[test]
fn test_different_sources_different_words() {
    let dict = create_test_dictionary();
    let derivation = KeywordDerivation::new(dict);

    let block = create_test_block();

    let kw1 = derivation
        .derive_keyword_from_source(&block, BlockDataSource::Blockhash)
        .unwrap();
    let kw2 = derivation
        .derive_keyword_from_source(&block, BlockDataSource::PreviousBlockhash)
        .unwrap();

    // Different sources should produce different words (very likely)
    println!("Blockhash -> {}", kw1.word);
    println!("PreviousBlockhash -> {}", kw2.word);
}

#[test]
fn test_multiple_keywords() {
    let dict = create_test_dictionary();
    let derivation = KeywordDerivation::new(dict);

    let block = create_test_block();
    let keywords = derivation.derive_multiple_keywords(&block);

    println!("Derived {} keywords from single block:", keywords.len());
    for kw in &keywords {
        println!("  {} (from {})", kw.word, kw.source_name());
    }

    assert!(keywords.len() >= 1);
}

#[test]
fn test_different_blocks_different_words() {
    let dict = create_test_dictionary();
    let derivation = KeywordDerivation::new(dict);

    let block1 = BlockInfo {
        slot: 12345,
        blockhash: "hash_1".to_string(),
        previous_blockhash: "prev_1".to_string(),
        block_time: Some(1234567890),
        block_height: Some(1000),
        parent_slot: 12344,
        transaction_count: 50,
        sample_signatures: vec![],
    };

    let block2 = BlockInfo {
        slot: 12346,
        blockhash: "hash_2".to_string(),
        previous_blockhash: "prev_2".to_string(),
        block_time: Some(1234567891),
        block_height: Some(1001),
        parent_slot: 12345,
        transaction_count: 45,
        sample_signatures: vec![],
    };

    let keyword1 = derivation.derive_keyword(&block1).unwrap();
    let keyword2 = derivation.derive_keyword(&block2).unwrap();

    println!("Block 1 -> {}", keyword1.word);
    println!("Block 2 -> {}", keyword2.word);
}

#[test]
fn test_empty_dictionary_rejected() {
    let dict = WordDictionary { nouns: vec![], verbs: vec![], adjectives: vec![] };
    let derivation = KeywordDerivation::new(dict);
    let block = create_test_block();

    let r = derivation.derive_keyword(&block);
    assert_eq!(r.unwrap_err(), DerivationError::InvalidDictionary);

    let multi = derivation.derive_multiple_keywords(&block);
    assert!(multi.is_empty());
}

#[test]
fn test_multiple_keywords_words_are_distinct() {
    let dict = create_test_dictionary();
    let derivation = KeywordDerivation::new(dict);
    let block = create_test_block();

    let keywords = derivation.derive_multiple_keywords(&block);
    assert!(keywords.len() >= 1 && keywords.len() <= 5);
    for i in 0..keywords.len() {
        for j in (i + 1)..keywords.len() {
            assert_ne!(keywords[i].word, keywords[j].word);
        }
    }
}

fn dictionary_of_100() -> WordDictionary {
    let nouns: Vec<String> = (0..40).map(|i| format!("w{:02}", i)).collect();
    let verbs: Vec<String> = (40..70).map(|i| format!("w{:02}", i)).collect();
    let adjectives: Vec<String> = (70..100).map(|i| format!("w{:02}", i)).collect();
    WordDictionary { nouns, verbs, adjectives }
}

#[test]
fn test_golden_index_for_abc() {
    // SHA-256("abc") starts ba 78 16 bf 8f 01 cf ea; those bytes read
    // little-endian and reduced modulo 100 give 74.
    let derivation = KeywordDerivation::new(dictionary_of_100());
    let block = BlockInfo {
        slot: 1,
        blockhash: "abc".to_string(),
        previous_blockhash: "".to_string(),
        block_time: None,
        block_height: None,
        parent_slot: 0,
        transaction_count: 0,
        sample_signatures: vec![],
    };
    let kw = derivation.derive_keyword(&block).unwrap();
    assert_eq!(kw.word_index, 74);
    assert_eq!(kw.word, "w74");

    // A second dictionary instance with identical contents reproduces it.
    let derivation2 = KeywordDerivation::new(dictionary_of_100());
    let kw2 = derivation2.derive_keyword(&block).unwrap();
    assert_eq!(kw2.word_index, 74);
    assert_eq!(kw2.word, kw.word);
}

#[test]
fn test_source_name() {
    let dict = create_test_dictionary();
    let derivation = KeywordDerivation::new(dict);
    let block = create_test_block();
    let kw = derivation
        .derive_keyword_from_source(&block, BlockDataSource::TransactionCount)
        .unwrap();
    assert_eq!(kw.source_name(), "tx_count");
    let kw2 = derivation.derive_keyword(&block).unwrap();
    assert_eq!(kw2.source_name(), "blockhash");
}

#[test]
fn test_formatted_time() {
    let dict = create_test_dictionary();
    let derivation = KeywordDerivation::new(dict);
    let mut block = create_test_block();
    let kw = derivation.derive_keyword(&block).unwrap();
    assert_eq!(kw.formatted_time().unwrap(), "2009-02-13 23:31:30 UTC");

    block.block_time = None;
    let kw_no_time = derivation.derive_keyword(&block).unwrap();
    assert!(kw_no_time.formatted_time().is_none());
}

#[test]
fn test_keywords_from_blocks_dedup_across_blocks() {
    let dict = create_test_dictionary();
    let derivation = KeywordDerivation::new(dict);
    let block = create_test_block();
    // The same block twice contributes each word only once.
    let blocks = vec![block.clone(), block.clone()];
    let once = derivation.derive_multiple_keywords(&block);
    let all = derivation.derive_keywords_from_blocks(&blocks);
    assert_eq!(all.len(), once.len());
    for i in 0..all.len() {
        assert_eq!(all[i].word, once[i].word);
    }
}
