//! The persistence gateway: an in-memory table model with the store's two
//! invariants — at most one keyword row per slot and at most one poem row
//! per date. A duplicate keyword insert is absorbed as a no-op; a duplicate
//! poem insert replaces the row in place. Writing the store to disk, where
//! wanted, happens outside the library.

use vstd::prelude::*;

use crate::derivation::DerivedKeyword;

verus! {

/// A persisted keyword row. `created_at` is the day bucket the row belongs
/// to, counted in days since the Unix epoch.
#[derive(Debug)]
pub struct StoredKeyword {
    pub id: i64,
    pub word: String,
    pub slot: i64,
    pub blockhash: String,
    pub block_time: Option<i64>,
    pub word_index: i64,
    pub created_at: u64,
}

impl Clone for StoredKeyword {
    /// A clone is the same row, value for value.
    fn clone(&self) -> (r: Self)
        ensures
            r == *self,
    {
        StoredKeyword {
            id: self.id,
            word: self.word.clone(),
            slot: self.slot,
            blockhash: self.blockhash.clone(),
            block_time: self.block_time,
            word_index: self.word_index,
            created_at: self.created_at,
        }
    }
}

/// A persisted poem row. `date` and `created_at` are day numbers, days
/// since the Unix epoch.
#[derive(Debug)]
pub struct StoredPoem {
    pub id: i64,
    pub date: u64,
    pub title: Option<String>,
    pub content: String,
    pub keyword_ids: Vec<i64>,
    pub created_at: u64,
}

/// The mathematical value of a poem row.
pub ghost struct PoemRow {
    pub id: i64,
    pub date: u64,
    pub title: Option<Seq<char>>,
    pub content: Seq<char>,
    pub keyword_ids: Seq<i64>,
    pub created_at: u64,
}

impl StoredPoem {
    /// The row as a mathematical value.
    pub open spec fn model(self) -> PoemRow {
        PoemRow {
            id: self.id,
            date: self.date,
            title: match self.title {
                Some(t) => Some(t@),
                None => None,
            },
            content: self.content@,
            keyword_ids: self.keyword_ids@,
            created_at: self.created_at,
        }
    }
}

impl Clone for StoredPoem {
    /// A clone carries the same row value.
    fn clone(&self) -> (r: Self)
        ensures
            r.model() == self.model(),
    {
        let title = match &self.title {
            Some(t) => Some(t.clone()),
            None => None,
        };
        let mut ids: Vec<i64> = Vec::new();
        let mut i: usize = 0;
        while i < self.keyword_ids.len()
            invariant
                i <= self.keyword_ids.len(),
                ids@ == self.keyword_ids@.take(i as int),
            decreases self.keyword_ids.len() - i,
        {
            ids.push(self.keyword_ids[i]);
            assert(ids@ =~= self.keyword_ids@.take(i + 1));
            i = i + 1;
        }
        assert(ids@ =~= self.keyword_ids@);
        StoredPoem {
            id: self.id,
            date: self.date,
            title,
            content: self.content.clone(),
            keyword_ids: ids,
            created_at: self.created_at,
        }
    }
}

/// The outcome of an idempotent keyword insert: a new row with its id, or
/// an absorbed conflict on the slot.
#[derive(Debug, Clone, Copy, PartialEq, Eq, Structural)]
pub enum InsertOutcome {
    Inserted(i64),
    AlreadyExists,
}

/// Whether some keyword row carries this slot.
pub open spec fn has_slot(s: Seq<StoredKeyword>, slot: i64) -> bool {
    exists|i: int| 0 <= i < s.len() && s[i].slot == slot
}

/// How many keyword rows carry this slot.
pub open spec fn count_slot(s: Seq<StoredKeyword>, slot: i64) -> nat
    decreases s.len(),
{
    if s.len() == 0 {
        0
    } else {
        count_slot(s.drop_last(), slot) + if s.last().slot == slot {
            1nat
        } else {
            0nat
        }
    }
}

/// No two keyword rows share a slot.
pub open spec fn distinct_slots(s: Seq<StoredKeyword>) -> bool {
    forall|i: int, j: int| 0 <= i < j < s.len() ==> s[i].slot != s[j].slot
}

/// Row ids are the positions in insertion order, starting at one.
pub open spec fn sequential_ids(s: Seq<StoredKeyword>) -> bool {
    forall|i: int| 0 <= i < s.len() ==> s[i].id == i + 1
}

/// The keyword rows of one day bucket, in stored (creation) order.
pub open spec fn keywords_for_day(s: Seq<StoredKeyword>, date: u64) -> Seq<StoredKeyword>
    decreases s.len(),
{
    if s.len() == 0 {
        Seq::empty()
    } else {
        keywords_for_day(s.drop_last(), date) + if s.last().created_at == date {
            seq![s.last()]
        } else {
            Seq::empty()
        }
    }
}

/// The most recent rows, newest first, at most `limit` of them.
pub open spec fn recent_of(s: Seq<StoredKeyword>, limit: int) -> Seq<StoredKeyword> {
    let n: int = if s.len() <= limit {
        s.len() as int
    } else {
        limit
    };
    Seq::new(n as nat, |i: int| s[s.len() - 1 - i])
}

/// Whether some poem row carries this date.
pub open spec fn has_date(rows: Seq<PoemRow>, date: u64) -> bool {
    exists|i: int| 0 <= i < rows.len() && rows[i].date == date
}

/// How many poem rows carry this date.
pub open spec fn count_date(rows: Seq<PoemRow>, date: u64) -> nat
    decreases rows.len(),
{
    if rows.len() == 0 {
        0
    } else {
        count_date(rows.drop_last(), date) + if rows.last().date == date {
            1nat
        } else {
            0nat
        }
    }
}

/// Poem rows are ordered by date, newest first; dates are therefore unique.
pub open spec fn dates_sorted(rows: Seq<PoemRow>) -> bool {
    forall|i: int, j: int| 0 <= i < j < rows.len() ==> rows[i].date > rows[j].date
}

/// The keyword row that an insert writes.
pub open spec fn stored_keyword(kw: DerivedKeyword, id: i64, day: u64) -> StoredKeyword {
    StoredKeyword {
        id,
        word: kw.word,
        slot: kw.slot as i64,
        blockhash: kw.blockhash,
        block_time: kw.block_time,
        word_index: kw.word_index as i64,
        created_at: day,
    }
}

/// What an idempotent keyword insert does: a fresh slot appends one row
/// with the next id; a known slot leaves the table untouched.
pub open spec fn insert_effect(
    pre: Seq<StoredKeyword>,
    post: Seq<StoredKeyword>,
    kw: DerivedKeyword,
    day: u64,
    r: InsertOutcome,
) -> bool {
    match r {
        InsertOutcome::AlreadyExists => post == pre && has_slot(pre, kw.slot as i64),
        InsertOutcome::Inserted(id) => !has_slot(pre, kw.slot as i64) && id == pre.len() + 1
            && post == pre.push(stored_keyword(kw, id, day)),
    }
}

/// What a poem upsert does: a known date has its row replaced in place,
/// keeping id and creation day; a fresh date gets one new row with the next
/// id, placed so the date order is kept.
pub open spec fn upsert_effect(
    pre: Seq<PoemRow>,
    post: Seq<PoemRow>,
    date: u64,
    title: Option<Seq<char>>,
    content: Seq<char>,
    ids: Seq<i64>,
    r_id: i64,
) -> bool {
    if has_date(pre, date) {
        exists|i: int|
            0 <= i < pre.len() && pre[i].date == date && r_id == pre[i].id && post == pre.update(
                i,
                PoemRow {
                    id: pre[i].id,
                    date,
                    title,
                    content,
                    keyword_ids: ids,
                    created_at: pre[i].created_at,
                },
            )
    } else {
        &&& r_id == pre.len() + 1
        &&& exists|p: int|
            {
                &&& 0 <= p <= pre.len()
                &&& (forall|k: int| 0 <= k < p ==> pre[k].date > date)
                &&& (forall|k: int| p <= k < pre.len() ==> pre[k].date < date)
                &&& post == pre.insert(
                    p,
                    PoemRow {
                        id: r_id,
                        date,
                        title,
                        content,
                        keyword_ids: ids,
                        created_at: date,
                    },
                )
            }
    }
}

/// The state of one day, as the read side reports it: the keywords
/// collected so far, the threshold, and today's poem if it exists.
#[derive(Debug)]
pub struct TodayStatus {
    pub date: u64,
    pub keywords_collected: usize,
    pub keywords_needed: usize,
    pub poem_ready: bool,
    pub keywords: Vec<StoredKeyword>,
    pub poem: Option<StoredPoem>,
}

/// The keyword and poem tables, with their uniqueness invariants.
#[derive(Debug)]
pub struct Database {
    keywords: Vec<StoredKeyword>,
    poems: Vec<StoredPoem>,
}

impl Database {
    /// The keyword table, in insertion order.
    pub closed spec fn keywords(self) -> Seq<StoredKeyword> {
        self.keywords@
    }

    /// The poem table as mathematical rows, newest date first.
    pub closed spec fn poem_rows(self) -> Seq<PoemRow> {
        self.poems@.map_values(|p: StoredPoem| p.model())
    }

    /// The store's invariants: sequential keyword ids, unique slots, and
    /// poem rows strictly ordered by date.
    pub open spec fn wf(self) -> bool {
        &&& sequential_ids(self.keywords())
        &&& distinct_slots(self.keywords())
        &&& dates_sorted(self.poem_rows())
    }

    /// An empty store.
    pub fn new() -> (r: Self)
        ensures
            r.wf(),
            r.keywords() == Seq::<StoredKeyword>::empty(),
            r.poem_rows() == Seq::<PoemRow>::empty(),
    {
        let r = Database { keywords: Vec::new(), poems: Vec::new() };
        assert(r.poem_rows() =~= Seq::<PoemRow>::empty());
        r
    }

    /// Inserts a derived keyword under the day bucket `today`. A conflict
    /// on the slot is absorbed: the call succeeds without adding a row.
    pub fn insert_keyword(&mut self, keyword: &DerivedKeyword, today: u64) -> (r: InsertOutcome)
        requires
            old(self).wf(),
            old(self).keywords().len() + 1 <= i64::MAX,
            keyword.slot <= i64::MAX,
            keyword.word_index <= i64::MAX,
        ensures
            final(self).wf(),
            final(self).poem_rows() == old(self).poem_rows(),
            insert_effect(old(self).keywords(), final(self).keywords(), *keyword, today, r),
    {
        let slot = keyword.slot as i64;
        let mut i: usize = 0;
        while i < self.keywords.len()
            invariant
                i <= self.keywords.len(),
                slot == keyword.slot as i64,
                self.keywords@ == old(self).keywords@,
                self.poems@ == old(self).poems@,
                old(self).wf(),
                forall|k: int| 0 <= k < i ==> self.keywords@[k].slot != slot,
            decreases self.keywords.len() - i,
        {
            if self.keywords[i].slot == slot {
                proof {
                    assert(self.keywords@[i as int].slot == slot);
                    assert(has_slot(old(self).keywords(), slot));
                }
                return InsertOutcome::AlreadyExists;
            }
            i = i + 1;
        }
        let id = self.keywords.len() as i64 + 1;
        let row = StoredKeyword {
            id,
            word: keyword.word.clone(),
            slot,
            blockhash: keyword.blockhash.clone(),
            block_time: keyword.block_time,
            word_index: keyword.word_index as i64,
            created_at: today,
        };
        assert(row == stored_keyword(*keyword, id, today));
        self.keywords.push(row);
        InsertOutcome::Inserted(id)
    }

    /// Inserts a derived keyword under an explicitly supplied date (used
    /// when writing historical days); the same conflict absorption holds.
    pub fn insert_keyword_with_date(&mut self, keyword: &DerivedKeyword, date: u64) -> (r:
        InsertOutcome)
        requires
            old(self).wf(),
            old(self).keywords().len() + 1 <= i64::MAX,
            keyword.slot <= i64::MAX,
            keyword.word_index <= i64::MAX,
        ensures
            final(self).wf(),
            final(self).poem_rows() == old(self).poem_rows(),
            insert_effect(old(self).keywords(), final(self).keywords(), *keyword, date, r),
    {
        self.insert_keyword(keyword, date)
    }

    /// All keyword rows of one day bucket, ascending by creation time.
    pub fn get_keywords_for_date(&self, date: u64) -> (r: Vec<StoredKeyword>)
        ensures
            r@ == keywords_for_day(self.keywords(), date),
    {
        let mut out: Vec<StoredKeyword> = Vec::new();
        let mut i: usize = 0;
        while i < self.keywords.len()
            invariant
                i <= self.keywords.len(),
                out@ == keywords_for_day(self.keywords@.take(i as int), date),
            decreases self.keywords.len() - i,
        {
            proof {
                assert(self.keywords@.take(i + 1).drop_last() =~= self.keywords@.take(i as int));
                assert(self.keywords@.take(i + 1).last() == self.keywords@[i as int]);
            }
            if self.keywords[i].created_at == date {
                out.push(self.keywords[i].clone());
            }
            assert(out@ =~= keywords_for_day(self.keywords@.take(i + 1), date));
            i = i + 1;
        }
        assert(self.keywords@.take(self.keywords@.len() as int) =~= self.keywords@);
        out
    }

    /// The most recently created keyword rows, newest first, at most
    /// `limit` of them.
    pub fn get_recent_keywords(&self, limit: i64) -> (r: Vec<StoredKeyword>)
        requires
            limit >= 0,
        ensures
            r@ == recent_of(self.keywords(), limit as int),
    {
        let len = self.keywords.len();
        let n: usize = if (len as u64) <= (limit as u64) {
            len
        } else {
            limit as usize
        };
        let mut out: Vec<StoredKeyword> = Vec::new();
        let mut i: usize = 0;
        while i < n
            invariant
                i <= n,
                n <= len,
                len == self.keywords@.len(),
                out@.len() == i,
                forall|t: int| 0 <= t < i ==> out@[t] == self.keywords@[len - 1 - t],
            decreases n - i,
        {
            out.push(self.keywords[len - 1 - i].clone());
            i = i + 1;
        }
        assert(out@ =~= recent_of(self.keywords(), limit as int));
        out
    }

    /// Writes the poem for a date. A fresh date adds one row, keeping the
    /// newest-first order; a known date has title, content and keyword ids
    /// replaced in place. Returns the row's id.
    pub fn insert_poem(
        &mut self,
        date: u64,
        title: Option<String>,
        content: String,
        keyword_ids: &Vec<i64>,
    ) -> (r: i64)
        requires
            old(self).wf(),
            old(self).poem_rows().len() + 1 <= i64::MAX,
        ensures
            final(self).wf(),
            final(self).keywords() == old(self).keywords(),
            upsert_effect(
                old(self).poem_rows(),
                final(self).poem_rows(),
                date,
                match title {
                    Some(t) => Some(t@),
                    None => None,
                },
                content@,
                keyword_ids@,
                r,
            ),
    {
        let ghost pre = self.poem_rows();
        let mut ids: Vec<i64> = Vec::new();
        let mut t: usize = 0;
        while t < keyword_ids.len()
            invariant
                t <= keyword_ids.len(),
                ids@ == keyword_ids@.take(t as int),
            decreases keyword_ids.len() - t,
        {
            ids.push(keyword_ids[t]);
            assert(ids@ =~= keyword_ids@.take(t + 1));
            t = t + 1;
        }
        assert(ids@ =~= keyword_ids@);
        let mut i: usize = 0;
        while i < self.poems.len() && self.poems[i].date > date
            invariant
                i <= self.poems.len(),
                forall|k: int| 0 <= k < i ==> self.poems@[k].date > date,
            decreases self.poems.len() - i,
        {
            i = i + 1;
        }
        if i < self.poems.len() && self.poems[i].date == date {
            let id = self.poems[i].id;
            let created_at = self.poems[i].created_at;
            let row = StoredPoem { id, date, title, content, keyword_ids: ids, created_at };
            proof {
                assert(pre[i as int].date == date);
                assert(has_date(pre, date));
            }
            self.poems.remove(i);
            self.poems.insert(i, row);
            proof {
                assert(self.poem_rows() =~= pre.update(i as int, row.model()));
                let post = self.poem_rows();
                assert forall|a: int, b: int| 0 <= a < b < post.len() implies post[a].date
                    > post[b].date by {
                    assert(post[a].date == pre[a].date && post[b].date == pre[b].date);
                }
            }
            id
        } else {
            proof {
                assert forall|k: int| i <= k < pre.len() implies pre[k].date < date by {
                    if k == i {
                        assert(pre[k].date == self.poems@[k].date);
                    } else {
                        assert(pre[i as int].date > pre[k].date);
                        assert(pre[i as int].date == self.poems@[i as int].date);
                    }
                }
                assert forall|k: int| 0 <= k < pre.len() implies pre[k].date != date by {
                    if k < i {
                        assert(pre[k].date == self.poems@[k].date);
                    }
                }
                assert(!has_date(pre, date));
            }
            let id = self.poems.len() as i64 + 1;
            let row = StoredPoem { id, date, title, content, keyword_ids: ids, created_at: date };
            self.poems.insert(i, row);
            proof {
                assert(self.poem_rows() =~= pre.insert(i as int, row.model()));
                let post = self.poem_rows();
                assert forall|a: int, b: int| 0 <= a < b < post.len() implies post[a].date
                    > post[b].date by {
                    if b < i {
                        assert(post[a] == pre[a] && post[b] == pre[b]);
                    } else if a < i && b == i {
                        assert(post[a] == pre[a]);
                        assert(pre[a].date == self.poems@.map_values(
                            |q: StoredPoem| q.model(),
                        )[a].date);
                    } else if a < i && b > i {
                        assert(post[a] == pre[a] && post[b] == pre[b - 1]);
                    } else if a == i {
                        assert(post[b] == pre[b - 1]);
                    } else {
                        assert(post[a] == pre[a - 1] && post[b] == pre[b - 1]);
                    }
                }
            }
            id
        }
    }

    /// The poem stored for a date, if any.
    pub fn get_poem_by_date(&self, date: u64) -> (r: Option<StoredPoem>)
        ensures
            match r {
                Some(p) => exists|i: int|
                    0 <= i < self.poem_rows().len() && self.poem_rows()[i].date == date
                        && p.model() == self.poem_rows()[i],
                None => !has_date(self.poem_rows(), date),
            },
    {
        let mut i: usize = 0;
        while i < self.poems.len()
            invariant
                i <= self.poems.len(),
                forall|k: int| 0 <= k < i ==> self.poems@[k].date != date,
            decreases self.poems.len() - i,
        {
            if self.poems[i].date == date {
                let p = self.poems[i].clone();
                proof {
                    assert(self.poem_rows()[i as int] == self.poems@[i as int].model());
                    assert(p.model() == self.poem_rows()[i as int]);
                }
                return Some(p);
            }
            i = i + 1;
        }
        None
    }

    /// Number of keyword rows stored.
    pub fn keyword_count(&self) -> (r: usize)
        ensures
            r == self.keywords().len(),
    {
        self.keywords.len()
    }

    /// Number of poem rows stored.
    pub fn poem_count(&self) -> (r: usize)
        ensures
            r == self.poem_rows().len(),
    {
        self.poems.len()
    }

    /// The day summary served to readers: today's keyword rows with their
    /// count, the threshold handed in, and whether today's poem exists.
    pub fn today_status(&self, today: u64, keywords_needed: usize) -> (r: TodayStatus)
        ensures
            r.date == today,
            r.keywords_needed == keywords_needed,
            r.keywords@ == keywords_for_day(self.keywords(), today),
            r.keywords_collected == r.keywords@.len(),
            r.poem_ready == has_date(self.poem_rows(), today),
            match r.poem {
                Some(p) => exists|i: int|
                    0 <= i < self.poem_rows().len() && self.poem_rows()[i].date == today
                        && p.model() == self.poem_rows()[i],
                None => !has_date(self.poem_rows(), today),
            },
    {
        let keywords = self.get_keywords_for_date(today);
        let keywords_collected = keywords.len();
        let poem = self.get_poem_by_date(today);
        let poem_ready = match &poem {
            Some(_) => true,
            None => false,
        };
        TodayStatus { date: today, keywords_collected, keywords_needed, poem_ready, keywords, poem }
    }

    /// Every poem row, ordered by date descending.
    pub fn get_all_poems(&self) -> (r: Vec<StoredPoem>)
        ensures
            r@.map_values(|p: StoredPoem| p.model()) == self.poem_rows(),
    {
        let mut out: Vec<StoredPoem> = Vec::new();
        let mut i: usize = 0;
        while i < self.poems.len()
            invariant
                i <= self.poems.len(),
                out@.len() == i,
                forall|k: int| 0 <= k < i ==> out@[k].model() == self.poems@[k].model(),
            decreases self.poems.len() - i,
        {
            out.push(self.poems[i].clone());
            i = i + 1;
        }
        assert(out@.map_values(|p: StoredPoem| p.model()) =~= self.poem_rows());
        out
    }
}

/// A slot that no row carries is counted zero times.
pub proof fn lemma_count_slot_zero(s: Seq<StoredKeyword>, slot: i64)
    requires
        !has_slot(s, slot),
    ensures
        count_slot(s, slot) == 0,
    decreases s.len(),
{
    if s.len() > 0 {
        assert(!has_slot(s.drop_last(), slot)) by {
            if has_slot(s.drop_last(), slot) {
                let i = choose|i: int| 0 <= i < s.drop_last().len() && s.drop_last()[i].slot
                    == slot;
                assert(s[i].slot == slot);
            }
        }
        lemma_count_slot_zero(s.drop_last(), slot);
    }
}

/// A slot that some row carries is counted at least once.
pub proof fn lemma_count_slot_pos(s: Seq<StoredKeyword>, slot: i64)
    requires
        has_slot(s, slot),
    ensures
        count_slot(s, slot) >= 1,
    decreases s.len(),
{
    let i = choose|i: int| 0 <= i < s.len() && s[i].slot == slot;
    if i < s.len() - 1 {
        assert(s.drop_last()[i].slot == slot);
        lemma_count_slot_pos(s.drop_last(), slot);
    }
}

/// With distinct slots, no slot is counted more than once.
pub proof fn lemma_count_slot_le_one(s: Seq<StoredKeyword>, slot: i64)
    requires
        distinct_slots(s),
    ensures
        count_slot(s, slot) <= 1,
    decreases s.len(),
{
    if s.len() > 0 {
        assert(distinct_slots(s.drop_last()));
        if s.last().slot == slot {
            assert(!has_slot(s.drop_last(), slot)) by {
                if has_slot(s.drop_last(), slot) {
                    let i = choose|i: int|
                        0 <= i < s.drop_last().len() && s.drop_last()[i].slot == slot;
                    assert(s[i].slot == s[s.len() - 1].slot);
                }
            }
            lemma_count_slot_zero(s.drop_last(), slot);
        } else {
            lemma_count_slot_le_one(s.drop_last(), slot);
        }
    }
}

/// Inserting the same slot twice never raises and never adds a second row:
/// after the first insert the table holds exactly one row for the slot, the
/// second insert reports the conflict, and the table stands unchanged.
pub proof fn lemma_insert_same_slot_twice(
    s0: Seq<StoredKeyword>,
    s1: Seq<StoredKeyword>,
    s2: Seq<StoredKeyword>,
    kw: DerivedKeyword,
    d1: u64,
    d2: u64,
    r1: InsertOutcome,
    r2: InsertOutcome,
)
    requires
        distinct_slots(s0),
        insert_effect(s0, s1, kw, d1, r1),
        insert_effect(s1, s2, kw, d2, r2),
    ensures
        s2 == s1,
        r2 == InsertOutcome::AlreadyExists,
        count_slot(s1, kw.slot as i64) == 1,
        count_slot(s2, kw.slot as i64) == 1,
{
    let slot = kw.slot as i64;
    match r1 {
        InsertOutcome::Inserted(id) => {
            assert(s1.last().slot == slot);
            assert(has_slot(s1, slot));
            assert(s1.drop_last() =~= s0);
            lemma_count_slot_zero(s0, slot);
            assert(count_slot(s1, slot) == 1);
        },
        InsertOutcome::AlreadyExists => {
            assert(s1 == s0);
            lemma_count_slot_pos(s1, slot);
            lemma_count_slot_le_one(s1, slot);
        },
    }
    match r2 {
        InsertOutcome::Inserted(_) => {
            assert(!has_slot(s1, slot));
            assert(false);
        },
        InsertOutcome::AlreadyExists => {},
    }
}

/// A date that no poem row carries is counted zero times.
pub proof fn lemma_count_date_zero(rows: Seq<PoemRow>, date: u64)
    requires
        !has_date(rows, date),
    ensures
        count_date(rows, date) == 0,
    decreases rows.len(),
{
    if rows.len() > 0 {
        assert(!has_date(rows.drop_last(), date)) by {
            if has_date(rows.drop_last(), date) {
                let i = choose|i: int|
                    0 <= i < rows.drop_last().len() && rows.drop_last()[i].date == date;
                assert(rows[i].date == date);
            }
        }
        lemma_count_date_zero(rows.drop_last(), date);
    }
}

/// A date that some poem row carries is counted at least once.
pub proof fn lemma_count_date_pos(rows: Seq<PoemRow>, date: u64)
    requires
        has_date(rows, date),
    ensures
        count_date(rows, date) >= 1,
    decreases rows.len(),
{
    let i = choose|i: int| 0 <= i < rows.len() && rows[i].date == date;
    if i < rows.len() - 1 {
        assert(rows.drop_last()[i].date == date);
        lemma_count_date_pos(rows.drop_last(), date);
    }
}

/// With strictly ordered dates, no date is counted more than once.
pub proof fn lemma_count_date_le_one(rows: Seq<PoemRow>, date: u64)
    requires
        dates_sorted(rows),
    ensures
        count_date(rows, date) <= 1,
    decreases rows.len(),
{
    if rows.len() > 0 {
        assert(dates_sorted(rows.drop_last()));
        if rows.last().date == date {
            assert(!has_date(rows.drop_last(), date)) by {
                if has_date(rows.drop_last(), date) {
                    let i = choose|i: int|
                        0 <= i < rows.drop_last().len() && rows.drop_last()[i].date == date;
                    assert(rows[i].date > rows[rows.len() - 1].date);
                }
            }
            lemma_count_date_zero(rows.drop_last(), date);
        } else {
            lemma_count_date_le_one(rows.drop_last(), date);
        }
    }
}

/// A poem upsert keeps the rows strictly ordered by date and leaves a row
/// for the written date behind.
pub proof fn lemma_upsert_sorted(
    pre: Seq<PoemRow>,
    post: Seq<PoemRow>,
    date: u64,
    title: Option<Seq<char>>,
    content: Seq<char>,
    ids: Seq<i64>,
    r_id: i64,
)
    requires
        dates_sorted(pre),
        upsert_effect(pre, post, date, title, content, ids, r_id),
    ensures
        dates_sorted(post),
        has_date(post, date),
        exists|i: int|
            0 <= i < post.len() && post[i].date == date && post[i].content == content
                && post[i].keyword_ids == ids && post[i].title == title,
{
    if has_date(pre, date) {
        let i = choose|i: int|
            0 <= i < pre.len() && pre[i].date == date && r_id == pre[i].id && post == pre.update(
                i,
                PoemRow {
                    id: pre[i].id,
                    date,
                    title,
                    content,
                    keyword_ids: ids,
                    created_at: pre[i].created_at,
                },
            );
        assert forall|a: int, b: int| 0 <= a < b < post.len() implies post[a].date
            > post[b].date by {
            assert(post[a].date == pre[a].date && post[b].date == pre[b].date);
        }
        assert(post[i].date == date && post[i].content == content && post[i].keyword_ids == ids
            && post[i].title == title);
    } else {
        let p = choose|p: int|
            {
                &&& 0 <= p <= pre.len()
                &&& (forall|k: int| 0 <= k < p ==> pre[k].date > date)
                &&& (forall|k: int| p <= k < pre.len() ==> pre[k].date < date)
                &&& post == pre.insert(
                    p,
                    PoemRow {
                        id: r_id,
                        date,
                        title,
                        content,
                        keyword_ids: ids,
                        created_at: date,
                    },
                )
            };
        assert(post[p].date == date && post[p].content == content && post[p].keyword_ids == ids
            && post[p].title == title);
        assert forall|a: int, b: int| 0 <= a < b < post.len() implies post[a].date
            > post[b].date by {
            if b < p {
                assert(post[a] == pre[a] && post[b] == pre[b]);
            } else if a < p && b == p {
                assert(post[a] == pre[a]);
            } else if a < p && b > p {
                assert(post[a] == pre[a] && post[b] == pre[b - 1]);
            } else if a == p {
                assert(post[b] == pre[b - 1]);
            } else {
                assert(post[a] == pre[a - 1] && post[b] == pre[b - 1]);
            }
        }
    }
}

/// Upserting a poem for the same date twice replaces content rather than
/// duplicating: after each write the table holds exactly one row for the
/// date, and the second write does not grow the table.
pub proof fn lemma_upsert_same_date_twice(
    p0: Seq<PoemRow>,
    p1: Seq<PoemRow>,
    p2: Seq<PoemRow>,
    date: u64,
    title1: Option<Seq<char>>,
    content1: Seq<char>,
    ids1: Seq<i64>,
    id1: i64,
    title2: Option<Seq<char>>,
    content2: Seq<char>,
    ids2: Seq<i64>,
    id2: i64,
)
    requires
        dates_sorted(p0),
        upsert_effect(p0, p1, date, title1, content1, ids1, id1),
        upsert_effect(p1, p2, date, title2, content2, ids2, id2),
    ensures
        count_date(p1, date) == 1,
        count_date(p2, date) == 1,
        p2.len() == p1.len(),
{
    lemma_upsert_sorted(p0, p1, date, title1, content1, ids1, id1);
    lemma_count_date_pos(p1, date);
    lemma_count_date_le_one(p1, date);
    let j = choose|j: int|
        0 <= j < p1.len() && p1[j].date == date && id2 == p1[j].id && p2 == p1.update(
            j,
            PoemRow {
                id: p1[j].id,
                date,
                title: title2,
                content: content2,
                keyword_ids: ids2,
                created_at: p1[j].created_at,
            },
        );
    assert forall|a: int, b: int| 0 <= a < b < p2.len() implies p2[a].date > p2[b].date by {
        assert(p2[a].date == p1[a].date && p2[b].date == p1[b].date);
    }
    assert(p2[j].date == date);
    lemma_count_date_pos(p2, date);
    lemma_count_date_le_one(p2, date);
}

/// With keyword ids strictly ascending in the table, the rows of one day
/// bucket keep strictly ascending ids, and each comes from the table.
pub proof fn lemma_day_ids_ascending(s: Seq<StoredKeyword>, date: u64)
    requires
        forall|i: int, j: int| 0 <= i < j < s.len() ==> s[i].id < s[j].id,
    ensures
        forall|a: int, b: int|
            0 <= a < b < keywords_for_day(s, date).len() ==> keywords_for_day(s, date)[a].id
                < keywords_for_day(s, date)[b].id,
        forall|a: int|
            0 <= a < keywords_for_day(s, date).len() ==> exists|i: int|
                0 <= i < s.len() && #[trigger] keywords_for_day(s, date)[a] == #[trigger] s[i],
    decreases s.len(),
{
    if s.len() > 0 {
        let dl = s.drop_last();
        lemma_day_ids_ascending(dl, date);
        let f = keywords_for_day(s, date);
        let fd = keywords_for_day(dl, date);
        assert forall|a: int| 0 <= a < f.len() implies exists|i: int|
            0 <= i < s.len() && #[trigger] f[a] == #[trigger] s[i] by {
            if a < fd.len() {
                let i = choose|i: int| 0 <= i < dl.len() && fd[a] == dl[i];
                assert(f[a] == s[i]);
            } else {
                assert(f[a] == s[s.len() - 1]);
            }
        }
        assert forall|a: int, b: int| 0 <= a < b < f.len() implies f[a].id < f[b].id by {
            if b < fd.len() {
                assert(f[a] == fd[a] && f[b] == fd[b]);
            } else {
                assert(f[b] == s[s.len() - 1]);
                assert(f[a] == fd[a]);
                let i = choose|i: int| 0 <= i < dl.len() && fd[a] == dl[i];
                assert(s[i].id < s[s.len() - 1].id);
            }
        }
    }
}

} // verus!
