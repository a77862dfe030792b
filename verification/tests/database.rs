use chain_verse::consts::BlockDataSource;
use chain_verse::database::{Database, InsertOutcome};
use chain_verse::derivation::DerivedKeyword;

fn keyword(word: &str, slot: u64) -> DerivedKeyword {
    DerivedKeyword {
        word: word.to_string(),
        slot,
        blockhash: format!("hash_{}", slot),
        block_time: Some(1_700_000_000),
        word_index: 3,
        source: BlockDataSource::Blockhash,
    }
}

const DAY: u64 = 20_000;

#[test]
fn test_insert_same_slot_twice_is_absorbed() {
    let mut db = Database::new();
    let kw = keyword("moon", 42);

    let first = db.insert_keyword(&kw, DAY);
    assert_eq!(first, InsertOutcome::Inserted(1));

    let second = db.insert_keyword(&kw, DAY);
    assert_eq!(second, InsertOutcome::AlreadyExists);

    let rows = db.get_recent_keywords(10);
    assert_eq!(rows.len(), 1);
    assert_eq!(rows[0].slot, 42);
    assert_eq!(rows[0].word, "moon");
}

#[test]
fn test_insert_assigns_sequential_ids() {
    let mut db = Database::new();
    assert_eq!(db.insert_keyword(&keyword("a", 1), DAY), InsertOutcome::Inserted(1));
    assert_eq!(db.insert_keyword(&keyword("b", 2), DAY), InsertOutcome::Inserted(2));
    assert_eq!(db.insert_keyword(&keyword("c", 3), DAY), InsertOutcome::Inserted(3));
}

#[test]
fn test_keywords_for_date_buckets() {
    let mut db = Database::new();
    db.insert_keyword_with_date(&keyword("a", 1), DAY);
    db.insert_keyword_with_date(&keyword("b", 2), DAY + 1);
    db.insert_keyword_with_date(&keyword("c", 3), DAY);

    let today = db.get_keywords_for_date(DAY);
    assert_eq!(today.len(), 2);
    assert_eq!(today[0].word, "a");
    assert_eq!(today[1].word, "c");

    let tomorrow = db.get_keywords_for_date(DAY + 1);
    assert_eq!(tomorrow.len(), 1);
    assert_eq!(tomorrow[0].word, "b");
}

#[test]
fn test_recent_keywords_newest_first() {
    let mut db = Database::new();
    db.insert_keyword(&keyword("a", 1), DAY);
    db.insert_keyword(&keyword("b", 2), DAY);
    db.insert_keyword(&keyword("c", 3), DAY);

    let recent = db.get_recent_keywords(2);
    assert_eq!(recent.len(), 2);
    assert_eq!(recent[0].word, "c");
    assert_eq!(recent[1].word, "b");
}

#[test]
fn test_upsert_poem_same_date_twice_replaces() {
    let mut db = Database::new();
    let id1 = db.insert_poem(DAY, None, "first draft".to_string(), &vec![1, 2]);
    let id2 = db.insert_poem(DAY, Some("titled".to_string()), "second version".to_string(), &vec![
        1, 2, 3,
    ]);

    let poems = db.get_all_poems();
    assert_eq!(poems.len(), 1);
    assert_eq!(poems[0].content, "second version");
    assert_eq!(poems[0].title, Some("titled".to_string()));
    assert_eq!(poems[0].keyword_ids, vec![1, 2, 3]);
    assert_eq!(id2, id1);
}

#[test]
fn test_all_poems_date_descending() {
    let mut db = Database::new();
    db.insert_poem(DAY + 2, None, "second".to_string(), &vec![]);
    db.insert_poem(DAY, None, "oldest".to_string(), &vec![]);
    db.insert_poem(DAY + 5, None, "newest".to_string(), &vec![]);

    let poems = db.get_all_poems();
    assert_eq!(poems.len(), 3);
    assert_eq!(poems[0].date, DAY + 5);
    assert_eq!(poems[1].date, DAY + 2);
    assert_eq!(poems[2].date, DAY);
}

#[test]
fn test_get_poem_by_date() {
    let mut db = Database::new();
    assert!(db.get_poem_by_date(DAY).is_none());

    db.insert_poem(DAY, None, "verse".to_string(), &vec![7]);
    let poem = db.get_poem_by_date(DAY).unwrap();
    assert_eq!(poem.date, DAY);
    assert_eq!(poem.content, "verse");
    assert_eq!(poem.keyword_ids, vec![7]);
    assert!(db.get_poem_by_date(DAY + 1).is_none());
}

#[test]
fn test_today_status() {
    let mut db = Database::new();
    db.insert_keyword(&keyword("a", 1), DAY);
    db.insert_keyword(&keyword("b", 2), DAY);

    let status = db.today_status(DAY, 15);
    assert_eq!(status.date, DAY);
    assert_eq!(status.keywords_collected, 2);
    assert_eq!(status.keywords_needed, 15);
    assert!(!status.poem_ready);
    assert!(status.poem.is_none());

    db.insert_poem(DAY, None, "done".to_string(), &vec![1, 2]);
    let status2 = db.today_status(DAY, 15);
    assert!(status2.poem_ready);
    assert_eq!(status2.poem.unwrap().content, "done");
}
