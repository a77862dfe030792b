//! The collection state machine. Each tick has two independent phases: a
//! block is turned into one keyword and stored (a slot conflict is
//! absorbed), and, when today holds enough keywords and no poem yet, a
//! generation plan is produced. The caller performs the block fetch and the
//! generation call, then hands results back; a failure in either phase
//! never stops the next tick.

use vstd::prelude::*;

use crate::blockchain::BlockInfo;
use crate::consts::{BlockDataSource, MIN_KEYWORDS_FOR_POEM};
use crate::database::{
    count_date, has_date, insert_effect, keywords_for_day, upsert_effect, Database,
    InsertOutcome, StoredKeyword,
};
use crate::database::{
    lemma_count_date_le_one, lemma_count_date_pos, lemma_day_ids_ascending, lemma_upsert_sorted,
};
use crate::derivation::{derived_for, DerivationError, KeywordDerivation};
use crate::poem_generator::PoemGenerator;
use crate::words::WordDictionary;

verus! {

/// What one poem generation needs: today's words in ascending creation
/// order, and the ids of the rows they came from, in the same order.
pub struct PoemPlan {
    pub words: Vec<String>,
    pub keyword_ids: Vec<i64>,
}

/// The scheduler: owns the derivation engine, the store and the prompt
/// builder, and decides what each tick does.
pub struct KeywordCollector {
    derivation: KeywordDerivation,
    database: Database,
    poem_generator: PoemGenerator,
    interval_minutes: u64,
}

impl KeywordCollector {
    /// The derivation engine in use.
    pub closed spec fn spec_derivation(self) -> KeywordDerivation {
        self.derivation
    }

    /// The store in use.
    pub closed spec fn spec_database(self) -> Database {
        self.database
    }

    /// The prompt builder in use.
    pub closed spec fn spec_generator(self) -> PoemGenerator {
        self.poem_generator
    }

    /// Minutes between ticks.
    pub closed spec fn spec_interval(self) -> u64 {
        self.interval_minutes
    }

    /// The collector's invariants: a well-formed dictionary whose size fits
    /// a row's index column, and a well-formed store.
    pub open spec fn wf(self) -> bool {
        &&& self.spec_derivation().wf()
        &&& self.spec_derivation().dict().total() <= i64::MAX
        &&& self.spec_database().wf()
    }

    pub fn new(
        dictionary: WordDictionary,
        database: Database,
        api_key: String,
        model: String,
        interval_minutes: u64,
    ) -> (r: Self)
        requires
            dictionary.wf(),
            dictionary.total() <= i64::MAX,
            database.wf(),
        ensures
            r.wf(),
            r.spec_derivation().dict() == dictionary,
            r.spec_database() == database,
            r.spec_generator().spec_api_key() == api_key@,
            r.spec_generator().spec_model() == model@,
            r.spec_interval() == interval_minutes,
    {
        Self {
            derivation: KeywordDerivation::new(dictionary),
            database,
            poem_generator: PoemGenerator::new(api_key, model),
            interval_minutes,
        }
    }

    /// The store, for the read side.
    pub fn database(&self) -> (r: &Database)
        ensures
            *r == self.spec_database(),
    {
        &self.database
    }

    /// The prompt builder, for the caller performing generation requests.
    pub fn poem_generator(&self) -> (r: &PoemGenerator)
        ensures
            *r == self.spec_generator(),
    {
        &self.poem_generator
    }

    /// Minutes between ticks.
    pub fn interval_minutes(&self) -> (r: u64)
        ensures
            r == self.spec_interval(),
    {
        self.interval_minutes
    }

    /// The collection phase of a tick: derives today's keyword from the
    /// block's hash and stores it, absorbing a slot conflict. Fails exactly
    /// when the dictionary is empty, and then changes nothing.
    pub fn collect_keyword(&mut self, block: &BlockInfo, today: u64) -> (r: Result<
        InsertOutcome,
        DerivationError,
    >)
        requires
            old(self).wf(),
            block.slot <= i64::MAX,
            old(self).spec_database().keywords().len() + 1 <= i64::MAX,
        ensures
            final(self).wf(),
            final(self).spec_derivation() == old(self).spec_derivation(),
            final(self).spec_generator() == old(self).spec_generator(),
            final(self).spec_interval() == old(self).spec_interval(),
            final(self).spec_database().poem_rows() == old(self).spec_database().poem_rows(),
            match r {
                Ok(outcome) => {
                    &&& old(self).spec_derivation().dict().total() > 0
                    &&& insert_effect(
                        old(self).spec_database().keywords(),
                        final(self).spec_database().keywords(),
                        derived_for(
                            old(self).spec_derivation(),
                            *block,
                            BlockDataSource::Blockhash,
                        ),
                        today,
                        outcome,
                    )
                },
                Err(e) => {
                    &&& old(self).spec_derivation().dict().total() == 0
                    &&& e == DerivationError::InvalidDictionary
                    &&& final(self).spec_database().keywords() == old(
                        self,
                    ).spec_database().keywords()
                },
            },
    {
        let keyword = match self.derivation.derive_keyword(block) {
            Ok(k) => k,
            Err(e) => {
                return Err(e);
            },
        };
        let outcome = self.database.insert_keyword(&keyword, today);
        Ok(outcome)
    }

    /// The gating phase of a tick: a plan comes back exactly when today has
    /// no poem yet and at least the minimum number of keywords. The plan
    /// carries today's words and row ids, both in ascending creation order.
    pub fn poem_plan(&self, today: u64) -> (r: Option<PoemPlan>)
        ensures
            match r {
                Some(plan) => {
                    let kws = keywords_for_day(self.spec_database().keywords(), today);
                    &&& !has_date(self.spec_database().poem_rows(), today)
                    &&& kws.len() >= MIN_KEYWORDS_FOR_POEM
                    &&& plan.words@ == kws.map_values(|k: StoredKeyword| k.word)
                    &&& plan.keyword_ids@ == kws.map_values(|k: StoredKeyword| k.id)
                },
                None => has_date(self.spec_database().poem_rows(), today) || keywords_for_day(
                    self.spec_database().keywords(),
                    today,
                ).len() < MIN_KEYWORDS_FOR_POEM,
            },
    {
        match self.database.get_poem_by_date(today) {
            Some(_) => {
                return None;
            },
            None => {},
        }
        let keywords = self.database.get_keywords_for_date(today);
        if keywords.len() < MIN_KEYWORDS_FOR_POEM {
            return None;
        }
        let mut words: Vec<String> = Vec::new();
        let mut ids: Vec<i64> = Vec::new();
        let mut i: usize = 0;
        while i < keywords.len()
            invariant
                i <= keywords.len(),
                words@.len() == i,
                ids@.len() == i,
                forall|k: int| 0 <= k < i ==> words@[k] == keywords@[k].word,
                forall|k: int| 0 <= k < i ==> ids@[k] == keywords@[k].id,
            decreases keywords.len() - i,
        {
            words.push(keywords[i].word.clone());
            ids.push(keywords[i].id);
            i = i + 1;
        }
        assert(words@ =~= keywords@.map_values(|k: StoredKeyword| k.word));
        assert(ids@ =~= keywords@.map_values(|k: StoredKeyword| k.id));
        Some(PoemPlan { words, keyword_ids: ids })
    }

    /// The storing phase of a tick: writes the generated poem for today
    /// under the plan's keyword ids. Replaces today's row if one appeared
    /// meanwhile, never duplicating a date.
    pub fn record_poem(&mut self, today: u64, content: String, keyword_ids: &Vec<i64>) -> (r:
        i64)
        requires
            old(self).wf(),
            old(self).spec_database().poem_rows().len() + 1 <= i64::MAX,
        ensures
            final(self).wf(),
            final(self).spec_derivation() == old(self).spec_derivation(),
            final(self).spec_generator() == old(self).spec_generator(),
            final(self).spec_interval() == old(self).spec_interval(),
            final(self).spec_database().keywords() == old(self).spec_database().keywords(),
            upsert_effect(
                old(self).spec_database().poem_rows(),
                final(self).spec_database().poem_rows(),
                today,
                None,
                content@,
                keyword_ids@,
                r,
            ),
    {
        self.database.insert_poem(today, None, content, keyword_ids)
    }
}

/// One tick over a day that holds at least the minimum number of keywords
/// and no poem stores exactly one poem row for that day, and the row
/// references all of the day's keyword ids in ascending creation order.
pub proof fn lemma_tick_stores_single_poem(
    db0: Database,
    db1: Database,
    plan_ids: Seq<i64>,
    today: u64,
    content: Seq<char>,
    r_id: i64,
)
    requires
        db0.wf(),
        !has_date(db0.poem_rows(), today),
        keywords_for_day(db0.keywords(), today).len() >= MIN_KEYWORDS_FOR_POEM,
        plan_ids == keywords_for_day(db0.keywords(), today).map_values(
            |k: StoredKeyword| k.id,
        ),
        upsert_effect(db0.poem_rows(), db1.poem_rows(), today, None, content, plan_ids, r_id),
    ensures
        count_date(db1.poem_rows(), today) == 1,
        exists|i: int|
            {
                &&& 0 <= i < db1.poem_rows().len()
                &&& (#[trigger] db1.poem_rows()[i]).date == today
                &&& db1.poem_rows()[i].content == content
                &&& db1.poem_rows()[i].keyword_ids == plan_ids
            },
        forall|a: int, b: int| 0 <= a < b < plan_ids.len() ==> plan_ids[a] < plan_ids[b],
{
    lemma_upsert_sorted(db0.poem_rows(), db1.poem_rows(), today, None, content, plan_ids, r_id);
    lemma_count_date_pos(db1.poem_rows(), today);
    lemma_count_date_le_one(db1.poem_rows(), today);
    let kws = keywords_for_day(db0.keywords(), today);
    assert forall|i: int, j: int| 0 <= i < j < db0.keywords().len() implies db0.keywords()[i].id
        < db0.keywords()[j].id by {
        assert(db0.keywords()[i].id == i + 1);
        assert(db0.keywords()[j].id == j + 1);
    }
    lemma_day_ids_ascending(db0.keywords(), today);
    assert forall|a: int, b: int| 0 <= a < b < plan_ids.len() implies plan_ids[a]
        < plan_ids[b] by {
        assert(plan_ids[a] == kws[a].id);
        assert(plan_ids[b] == kws[b].id);
    }
}

} // verus!
