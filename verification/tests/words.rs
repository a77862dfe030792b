use chain_verse::consts::BlockDataSource;
use chain_verse::text::{join_all, u64_to_dec, usize_to_dec};
use chain_verse::words::WordDictionary;

fn dictionary() -> WordDictionary {
    WordDictionary {
        nouns: vec!["moon".to_string(), "river".to_string()],
        verbs: vec!["drift".to_string()],
        adjectives: vec!["silent".to_string(), "golden".to_string(), "restless".to_string()],
    }
}

#[test]
fn test_total_count() {
    assert_eq!(dictionary().total_count(), 6);
}

#[test]
fn test_all_words_keeps_category_order() {
    let all = dictionary().all_words();
    assert_eq!(
        all,
        vec![
            "moon".to_string(),
            "river".to_string(),
            "drift".to_string(),
            "silent".to_string(),
            "golden".to_string(),
            "restless".to_string(),
        ]
    );
}

#[test]
fn test_get_word_by_index() {
    let dict = dictionary();
    assert_eq!(dict.get_word(0).unwrap(), "moon");
    assert_eq!(dict.get_word(2).unwrap(), "drift");
    assert_eq!(dict.get_word(5).unwrap(), "restless");
    assert!(dict.get_word(6).is_none());
}

#[test]
fn test_dictionary_clone_preserves_vocabulary() {
    let dict = dictionary();
    let copy = dict.clone();
    assert_eq!(copy.all_words(), dict.all_words());
}

#[test]
fn test_decimal_rendering() {
    assert_eq!(u64_to_dec(0), "0");
    assert_eq!(u64_to_dec(7), "7");
    assert_eq!(u64_to_dec(12345), "12345");
    assert_eq!(u64_to_dec(u64::MAX), "18446744073709551615");
    assert_eq!(usize_to_dec(100), "100");
}

#[test]
fn test_join_all() {
    let empty: Vec<String> = vec![];
    assert_eq!(join_all(&empty, ", "), "");
    assert_eq!(join_all(&vec!["one".to_string()], ", "), "one");
    assert_eq!(
        join_all(&vec!["a".to_string(), "b".to_string(), "c".to_string()], ":"),
        "a:b:c"
    );
}

#[test]
fn test_all_data_sources() {
    let sources = BlockDataSource::all();
    assert_eq!(sources.len(), 4);
    assert_eq!(sources[0], BlockDataSource::Blockhash);
    assert_eq!(sources[1], BlockDataSource::PreviousBlockhash);
    assert_eq!(sources[2], BlockDataSource::TransactionRoot);
    assert_eq!(sources[3], BlockDataSource::TransactionCount);
}
