use chain_verse::blockchain::BlockInfo;
use chain_verse::consts::MIN_KEYWORDS_FOR_POEM;
use chain_verse::database::{Database, InsertOutcome};
use chain_verse::poem_generator::RetrySchedule;
use chain_verse::scheduler::KeywordCollector;
use chain_verse::words::WordDictionary;

fn dictionary() -> WordDictionary {
    WordDictionary {
        nouns: (0..50).map(|i| format!("noun{}", i)).collect(),
        verbs: (0..30).map(|i| format!("verb{}", i)).collect(),
        adjectives: (0..20).map(|i| format!("adj{}", i)).collect(),
    }
}

fn block(slot: u64) -> BlockInfo {
    BlockInfo {
        slot,
        blockhash: format!("hash_for_slot_{}", slot),
        previous_blockhash: format!("prev_for_slot_{}", slot),
        block_time: Some(1_700_000_000 + slot as i64),
        block_height: Some(slot),
        parent_slot: slot.saturating_sub(1),
        transaction_count: 10,
        sample_signatures: vec![],
    }
}

fn collector() -> KeywordCollector {
    KeywordCollector::new(
        dictionary(),
        Database::new(),
        "test_key".to_string(),
        "test_model".to_string(),
        90,
    )
}

const TODAY: u64 = 20_000;

#[test]
fn test_conflict_absorbed_in_tick() {
    let mut c = collector();
    let b = block(7);
    let first = c.collect_keyword(&b, TODAY).unwrap();
    assert!(matches!(first, InsertOutcome::Inserted(1)));
    let second = c.collect_keyword(&b, TODAY).unwrap();
    assert_eq!(second, InsertOutcome::AlreadyExists);
    assert_eq!(c.database().get_recent_keywords(10).len(), 1);
}

#[test]
fn test_below_threshold_no_plan() {
    let mut c = collector();
    for slot in 0..(MIN_KEYWORDS_FOR_POEM as u64 - 1) {
        c.collect_keyword(&block(slot), TODAY).unwrap();
    }
    assert!(c.poem_plan(TODAY).is_none());
}

#[test]
fn test_tick_generates_poem_at_threshold() {
    // Exactly the minimum number of keywords for today and no poem yet:
    // one tick plans a generation over all of today's keyword ids in
    // ascending creation order, and storing the result leaves exactly one
    // poem row referencing them.
    let mut c = collector();
    for slot in 0..(MIN_KEYWORDS_FOR_POEM as u64) {
        c.collect_keyword(&block(slot), TODAY).unwrap();
    }

    let plan = c.poem_plan(TODAY).expect("threshold reached, plan expected");
    assert_eq!(plan.words.len(), MIN_KEYWORDS_FOR_POEM);
    let expected_ids: Vec<i64> = (1..=MIN_KEYWORDS_FOR_POEM as i64).collect();
    assert_eq!(plan.keyword_ids, expected_ids);

    let prompt = c.poem_generator().create_prompt(&plan.words);
    assert!(prompt.contains(&plan.words[0]));

    c.record_poem(TODAY, "generated poem".to_string(), &plan.keyword_ids);

    let poems = c.database().get_all_poems();
    assert_eq!(poems.len(), 1);
    assert_eq!(poems[0].date, TODAY);
    assert_eq!(poems[0].content, "generated poem");
    assert_eq!(poems[0].keyword_ids, expected_ids);

    // The next tick skips generation: today already has its poem.
    assert!(c.poem_plan(TODAY).is_none());
}

#[test]
fn test_generation_failure_leaves_no_poem() {
    // A generation endpoint that always fails: the tick ends without a
    // poem row, and the next tick naturally retries.
    let mut c = collector();
    for slot in 0..(MIN_KEYWORDS_FOR_POEM as u64) {
        c.collect_keyword(&block(slot), TODAY).unwrap();
    }

    let plan = c.poem_plan(TODAY).expect("threshold reached, plan expected");

    let mut run = RetrySchedule::new(3);
    let mut calls = 0;
    while let Some(_delay) = run.next_delay() {
        calls += 1;
        run.record_failure("endpoint down".to_string());
    }
    assert_eq!(calls, 3);
    assert!(run.finish().is_err());

    // Nothing was recorded, so no poem row exists and the plan returns.
    assert!(c.database().get_poem_by_date(TODAY).is_none());
    assert_eq!(c.database().get_all_poems().len(), 0);
    let retry_plan = c.poem_plan(TODAY).expect("still no poem, plan expected");
    assert_eq!(retry_plan.keyword_ids, plan.keyword_ids);
}

#[test]
fn test_keywords_split_by_day() {
    let mut c = collector();
    c.collect_keyword(&block(1), TODAY).unwrap();
    c.collect_keyword(&block(2), TODAY + 1).unwrap();
    assert_eq!(c.database().get_keywords_for_date(TODAY).len(), 1);
    assert_eq!(c.database().get_keywords_for_date(TODAY + 1).len(), 1);
    assert!(c.poem_plan(TODAY).is_none());
}

#[test]
fn test_interval_minutes() {
    let c = collector();
    assert_eq!(c.interval_minutes(), 90);
}
