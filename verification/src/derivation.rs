//! Deterministic keyword derivation: an entropy string is hashed with
//! SHA-256, the first eight digest bytes are read as a little-endian 64-bit
//! integer, and that seed is reduced modulo the vocabulary size to pick a
//! word. The same entropy and dictionary always yield the same word.

use sha2::{Digest, Sha256};

use vstd::prelude::*;
use vstd::pervasive::unreached;
use vstd::string::StringExecFns;

use crate::blockchain::BlockInfo;
use crate::consts::BlockDataSource;
use crate::text::{dec_of, joined, u64_to_dec, usize_to_dec};
use crate::words::WordDictionary;

verus! {

/// The SHA-256 digest of the UTF-8 encoding of a string; a fixed function
/// of the characters alone.
pub uninterp spec fn sha256_of(s: Seq<char>) -> Seq<u8>;

/// Relies on sha2's `Sha256` (RustCrypto): a 32-byte digest computed from
/// the input bytes alone, identical on every machine and every run.
#[verifier::external_body]
fn sha256_digest(input: &str) -> (r: Vec<u8>)
    ensures
        r@ == sha256_of(input@),
        r@.len() == 32,
{
    Sha256::digest(input.as_bytes()).to_vec()
}

/// The unsigned 64-bit integer read little-endian from the first eight
/// bytes of `b`.
pub open spec fn le_u64_of(b: Seq<u8>) -> nat
    recommends
        b.len() >= 8,
{
    (b[0] + b[1] * 0x100 + b[2] * 0x1_0000 + b[3] * 0x100_0000 + b[4] * 0x1_0000_0000 + b[5]
        * 0x100_0000_0000 + b[6] * 0x1_0000_0000_0000 + b[7] * 0x100_0000_0000_0000) as nat
}

/// The derivation seed of an entropy string.
pub open spec fn seed_of(s: Seq<char>) -> nat {
    le_u64_of(sha256_of(s))
}

/// Derivation cannot proceed because the dictionary holds no words.
#[derive(Debug, Clone, Copy, PartialEq, Eq, Structural)]
pub enum DerivationError {
    InvalidDictionary,
}

/// A keyword derived from one block, together with where it came from.
#[derive(Debug)]
pub struct DerivedKeyword {
    pub word: String,
    pub slot: u64,
    pub blockhash: String,
    pub block_time: Option<i64>,
    pub word_index: usize,
    pub source: BlockDataSource,
}

impl Clone for DerivedKeyword {
    /// A clone is the same keyword, value for value.
    fn clone(&self) -> (r: Self)
        ensures
            r == *self,
    {
        DerivedKeyword {
            word: self.word.clone(),
            slot: self.slot,
            blockhash: self.blockhash.clone(),
            block_time: self.block_time,
            word_index: self.word_index,
            source: self.source,
        }
    }
}

/// The text of each data source's name.
pub open spec fn source_name_of(s: BlockDataSource) -> Seq<char> {
    match s {
        BlockDataSource::Blockhash => "blockhash"@,
        BlockDataSource::PreviousBlockhash => "previous_blockhash"@,
        BlockDataSource::TransactionRoot => "transaction"@,
        BlockDataSource::Rewards => "rewards"@,
        BlockDataSource::TransactionCount => "tx_count"@,
    }
}

/// A UTC timestamp rendered for display; a fixed function of the timestamp.
pub uninterp spec fn utc_display_of(ts: int) -> Seq<char>;

/// Relies on chrono's `DateTime::from_timestamp` and its formatting: the
/// rendered text depends on the timestamp alone, and `None` comes back only
/// for a timestamp outside chrono's representable range.
#[verifier::external_body]
fn format_timestamp(ts: i64) -> (r: Option<String>)
    ensures
        r matches Some(s) ==> s@ == utc_display_of(ts as int),
{
    chrono::DateTime::from_timestamp(ts, 0).map(
        |dt| dt.format("%Y-%m-%d %H:%M:%S UTC").to_string(),
    )
}

impl DerivedKeyword {
    /// Human-readable UTC rendering of the block time, when one is set and
    /// representable.
    pub fn formatted_time(&self) -> (r: Option<String>)
        ensures
            self.block_time is None ==> r is None,
            r matches Some(s) ==> self.block_time matches Some(t) && s@ == utc_display_of(
                t as int,
            ),
    {
        match self.block_time {
            Some(ts) => format_timestamp(ts),
            None => None,
        }
    }

    /// The data source's name as text.
    pub fn source_name(&self) -> (r: &'static str)
        ensures
            r@ == source_name_of(self.source),
    {
        match self.source {
            BlockDataSource::Blockhash => "blockhash",
            BlockDataSource::PreviousBlockhash => "previous_blockhash",
            BlockDataSource::TransactionRoot => "transaction",
            BlockDataSource::Rewards => "rewards",
            BlockDataSource::TransactionCount => "tx_count",
        }
    }
}

/// The block height used as entropy, zero when none is known.
pub open spec fn height_of(b: BlockInfo) -> nat {
    match b.block_height {
        Some(h) => h as nat,
        None => 0,
    }
}

/// The entropy string extracted from a block for each data source.
pub open spec fn entropy_of(b: BlockInfo, source: BlockDataSource) -> Seq<char> {
    match source {
        BlockDataSource::Blockhash => b.blockhash@,
        BlockDataSource::PreviousBlockhash => b.previous_blockhash@,
        BlockDataSource::TransactionRoot => joined(
            b.sample_signatures@.map_values(|s: String| s@),
            ":"@,
        ),
        BlockDataSource::Rewards => "rewards:"@ + dec_of(height_of(b)),
        BlockDataSource::TransactionCount => "txcount:"@ + dec_of(b.transaction_count as nat)
            + ":"@ + dec_of(b.slot as nat),
    }
}

/// Maps entropy strings to words of a fixed dictionary.
pub struct KeywordDerivation {
    dictionary: WordDictionary,
}

/// The keyword derived from one entropy string: the seed reduced modulo the
/// vocabulary size picks the word.
pub open spec fn derived_for_entropy(
    d: KeywordDerivation,
    b: BlockInfo,
    source: BlockDataSource,
    e: Seq<char>,
) -> DerivedKeyword
    recommends
        d.dict().total() > 0,
{
    let i = seed_of(e) % d.dict().total();
    DerivedKeyword {
        word: d.dict().vocab()[i as int],
        slot: b.slot,
        blockhash: b.blockhash,
        block_time: b.block_time,
        word_index: i as usize,
        source,
    }
}

/// The keyword derived from a block through one data source.
pub open spec fn derived_for(
    d: KeywordDerivation,
    b: BlockInfo,
    source: BlockDataSource,
) -> DerivedKeyword {
    derived_for_entropy(d, b, source, entropy_of(b, source))
}

/// Whether some keyword in `s` already carries the word `w`.
pub open spec fn has_word(s: Seq<DerivedKeyword>, w: Seq<char>) -> bool {
    exists|i: int| 0 <= i < s.len() && s[i].word@ == w
}

/// No two keywords in `s` carry the same word.
pub open spec fn distinct_words(s: Seq<DerivedKeyword>) -> bool {
    forall|i: int, j: int| 0 <= i < j < s.len() ==> s[i].word@ != s[j].word@
}

/// The entropy string for the sample signature at position `k`.
pub open spec fn sig_entropy(sig: Seq<char>, k: nat) -> Seq<char> {
    sig + ":"@ + dec_of(k)
}

/// The candidate keywords from a block's first three sample signatures.
pub open spec fn sig_candidates(d: KeywordDerivation, b: BlockInfo) -> Seq<DerivedKeyword> {
    let sigs = b.sample_signatures@.map_values(|s: String| s@);
    let n: int = if sigs.len() <= 3 {
        sigs.len() as int
    } else {
        3
    };
    Seq::new(
        n as nat,
        |k: int|
            derived_for_entropy(
                d,
                b,
                BlockDataSource::TransactionRoot,
                sig_entropy(sigs[k], k as nat),
            ),
    )
}

/// Folds the candidates from position `i` on into `acc`, keeping only those
/// whose word is new.
pub open spec fn dedup_words(
    acc: Seq<DerivedKeyword>,
    items: Seq<DerivedKeyword>,
    i: int,
) -> Seq<DerivedKeyword>
    decreases items.len() - i,
{
    if i < 0 || i >= items.len() {
        acc
    } else {
        let acc2 = if has_word(acc, items[i].word@) {
            acc
        } else {
            acc.push(items[i])
        };
        dedup_words(acc2, items, i + 1)
    }
}

/// The first one or two keywords of multi-source derivation: the blockhash
/// keyword, then the previous-blockhash keyword when its word differs.
pub open spec fn multi_base(d: KeywordDerivation, b: BlockInfo) -> Seq<DerivedKeyword> {
    let first = derived_for(d, b, BlockDataSource::Blockhash);
    let second = derived_for(d, b, BlockDataSource::PreviousBlockhash);
    if second.word@ == first.word@ {
        seq![first]
    } else {
        seq![first, second]
    }
}

/// Everything multi-source derivation yields for one block.
pub open spec fn multi_derived(d: KeywordDerivation, b: BlockInfo) -> Seq<DerivedKeyword> {
    if d.dict().total() == 0 {
        Seq::empty()
    } else {
        dedup_words(multi_base(d, b), sig_candidates(d, b), 0)
    }
}

/// Deduplicating preserves distinctness of words and adds at most one
/// keyword per remaining candidate.
pub proof fn lemma_dedup_words_props(
    acc: Seq<DerivedKeyword>,
    items: Seq<DerivedKeyword>,
    i: int,
)
    requires
        distinct_words(acc),
        0 <= i <= items.len(),
    ensures
        distinct_words(dedup_words(acc, items, i)),
        acc.len() <= dedup_words(acc, items, i).len() <= acc.len() + (items.len() - i),
    decreases items.len() - i,
{
    if i < items.len() {
        let w = items[i].word@;
        if has_word(acc, w) {
            lemma_dedup_words_props(acc, items, i + 1);
        } else {
            let acc2 = acc.push(items[i]);
            assert forall|p: int, q: int| 0 <= p < q < acc2.len() implies acc2[p].word@
                != acc2[q].word@ by {
                if q == acc.len() {
                    assert(acc2[p] == acc[p]);
                    if acc[p].word@ == w {
                        assert(has_word(acc, w));
                    }
                }
            }
            lemma_dedup_words_props(acc2, items, i + 1);
        }
    }
}

/// Keyword derivation is a pure function: any two keywords derived from the
/// same dictionary, block and source are the same keyword.
pub proof fn lemma_derivation_deterministic(
    d: KeywordDerivation,
    b: BlockInfo,
    source: BlockDataSource,
    k1: DerivedKeyword,
    k2: DerivedKeyword,
)
    requires
        k1 == derived_for(d, b, source),
        k2 == derived_for(d, b, source),
    ensures
        k1 == k2,
        k1.word == k2.word,
        k1.word_index == k2.word_index,
        k1.slot == k2.slot,
{
}

/// Multi-source derivation never repeats a word and yields between one and
/// five keywords once the dictionary has words.
pub proof fn lemma_multi_derived_bounds(d: KeywordDerivation, b: BlockInfo)
    requires
        d.dict().total() > 0,
    ensures
        distinct_words(multi_derived(d, b)),
        1 <= multi_derived(d, b).len() <= 5,
{
    let base = multi_base(d, b);
    assert(distinct_words(base));
    assert(1 <= base.len() <= 2);
    assert(sig_candidates(d, b).len() <= 3);
    lemma_dedup_words_props(base, sig_candidates(d, b), 0);
}

impl KeywordDerivation {
    /// The dictionary this derivation draws words from.
    pub closed spec fn dict(self) -> WordDictionary {
        self.dictionary
    }

    /// The dictionary's counting does not overflow.
    pub open spec fn wf(self) -> bool {
        self.dict().wf()
    }

    pub fn new(dictionary: WordDictionary) -> (r: Self)
        ensures
            r.dict() == dictionary,
    {
        Self { dictionary }
    }

    /// Converts any string to a numeric seed.
    fn hash_to_seed(&self, input: &str) -> (r: u64)
        ensures
            r as nat == seed_of(input@),
    {
        let d = sha256_digest(input);
        (d[0] as u64) + (d[1] as u64) * 0x100 + (d[2] as u64) * 0x1_0000 + (d[3] as u64)
            * 0x100_0000 + (d[4] as u64) * 0x1_0000_0000 + (d[5] as u64) * 0x100_0000_0000 + (
        d[6] as u64) * 0x1_0000_0000_0000 + (d[7] as u64) * 0x100_0000_0000_0000
    }

    /// The entropy string for a specific data source.
    fn get_entropy_for_source(&self, block: &BlockInfo, source: BlockDataSource) -> (r: String)
        ensures
            r@ == entropy_of(*block, source),
    {
        match source {
            BlockDataSource::Blockhash => block.blockhash.clone(),
            BlockDataSource::PreviousBlockhash => block.previous_blockhash.clone(),
            BlockDataSource::TransactionRoot => {
                crate::text::join_all(&block.sample_signatures, ":")
            },
            BlockDataSource::Rewards => {
                let h = match block.block_height {
                    Some(h) => h,
                    None => 0,
                };
                let mut s = String::from_str("rewards:");
                let hd = u64_to_dec(h);
                s.append(hd.as_str());
                assert(s@ =~= entropy_of(*block, source));
                s
            },
            BlockDataSource::TransactionCount => {
                let mut s = String::from_str("txcount:");
                let cd = usize_to_dec(block.transaction_count);
                s.append(cd.as_str());
                s.append(":");
                let sd = u64_to_dec(block.slot);
                s.append(sd.as_str());
                assert(s@ =~= entropy_of(*block, source));
                s
            },
        }
    }

    /// Derives the keyword for one already-built entropy string.
    fn derive_for_entropy(
        &self,
        block: &BlockInfo,
        source: BlockDataSource,
        entropy: &str,
    ) -> (kw: DerivedKeyword)
        requires
            self.wf(),
            self.dict().total() > 0,
        ensures
            kw == derived_for_entropy(*self, *block, source, entropy@),
    {
        let seed = self.hash_to_seed(entropy);
        let word_count = self.dictionary.total_count();
        let word_index = (seed % (word_count as u64)) as usize;
        let word = match self.dictionary.get_word(word_index) {
            Some(w) => w,
            None => unreached(),
        };
        DerivedKeyword {
            word,
            slot: block.slot,
            blockhash: block.blockhash.clone(),
            block_time: block.block_time,
            word_index,
            source,
        }
    }

    /// Derives a keyword from block information using the blockhash, the
    /// default source. Deterministic: the same block always produces the
    /// same word.
    pub fn derive_keyword(&self, block: &BlockInfo) -> (r: Result<
        DerivedKeyword,
        DerivationError,
    >)
        requires
            self.wf(),
        ensures
            match r {
                Ok(kw) => self.dict().total() > 0 && kw == derived_for(
                    *self,
                    *block,
                    BlockDataSource::Blockhash,
                ),
                Err(e) => self.dict().total() == 0 && e == DerivationError::InvalidDictionary,
            },
    {
        self.derive_keyword_from_source(block, BlockDataSource::Blockhash)
    }

    /// Derives a keyword using a specific data source. Fails exactly when
    /// the dictionary is empty.
    pub fn derive_keyword_from_source(
        &self,
        block: &BlockInfo,
        source: BlockDataSource,
    ) -> (r: Result<DerivedKeyword, DerivationError>)
        requires
            self.wf(),
        ensures
            match r {
                Ok(kw) => self.dict().total() > 0 && kw == derived_for(*self, *block, source),
                Err(e) => self.dict().total() == 0 && e == DerivationError::InvalidDictionary,
            },
    {
        if self.dictionary.total_count() == 0 {
            return Err(DerivationError::InvalidDictionary);
        }
        let entropy = self.get_entropy_for_source(block, source);
        Ok(self.derive_for_entropy(block, source, entropy.as_str()))
    }

    /// Derives up to five keywords from a single block using its different
    /// entropy sources, never repeating a word. Yields nothing when the
    /// dictionary is empty.
    pub fn derive_multiple_keywords(&self, block: &BlockInfo) -> (r: Vec<DerivedKeyword>)
        requires
            self.wf(),
        ensures
            r@ == multi_derived(*self, *block),
            distinct_words(r@),
            self.dict().total() > 0 ==> 1 <= r@.len(),
            r@.len() <= 5,
    {
        let mut keywords: Vec<DerivedKeyword> = Vec::new();
        if self.dictionary.total_count() == 0 {
            return keywords;
        }
        let e1 = self.get_entropy_for_source(block, BlockDataSource::Blockhash);
        let first = self.derive_for_entropy(block, BlockDataSource::Blockhash, e1.as_str());
        let e2 = self.get_entropy_for_source(block, BlockDataSource::PreviousBlockhash);
        let second = self.derive_for_entropy(
            block,
            BlockDataSource::PreviousBlockhash,
            e2.as_str(),
        );
        let second_is_new = !(second.word == first.word);
        keywords.push(first);
        if second_is_new {
            keywords.push(second);
        }
        assert(keywords@ == multi_base(*self, *block));
        assert(distinct_words(keywords@));
        let ghost cands = sig_candidates(*self, *block);
        let n = if block.sample_signatures.len() <= 3 {
            block.sample_signatures.len()
        } else {
            3
        };
        let mut k: usize = 0;
        while k < n
            invariant
                self.wf(),
                self.dict().total() > 0,
                k <= n,
                n == cands.len(),
                n <= block.sample_signatures.len(),
                cands == sig_candidates(*self, *block),
                dedup_words(multi_base(*self, *block), cands, 0) == dedup_words(
                    keywords@,
                    cands,
                    k as int,
                ),
                distinct_words(keywords@),
                1 <= keywords@.len() <= 2 + k,
            decreases n - k,
        {
            let sig = &block.sample_signatures[k];
            let mut e = sig.clone();
            e.append(":");
            let kd = u64_to_dec(k as u64);
            e.append(kd.as_str());
            assert(e@ =~= sig_entropy(
                block.sample_signatures@.map_values(|s: String| s@)[k as int],
                k as nat,
            ));
            let kw = self.derive_for_entropy(block, BlockDataSource::TransactionRoot, e.as_str());
            assert(kw == cands[k as int]);
            if !contains_word(&keywords, &kw.word) {
                keywords.push(kw);
            }
            k = k + 1;
        }
        assert(dedup_words(keywords@, cands, n as int) == keywords@);
        keywords
    }

    /// Derives keywords from many blocks, keeping the first keyword seen
    /// for each distinct word across the whole batch.
    pub fn derive_keywords_from_blocks(&self, blocks: &Vec<BlockInfo>) -> (r: Vec<
        DerivedKeyword,
    >)
        requires
            self.wf(),
        ensures
            r@ == blocks_derived(*self, blocks@, 0, Seq::empty()),
            distinct_words(r@),
    {
        let mut all: Vec<DerivedKeyword> = Vec::new();
        let mut j: usize = 0;
        while j < blocks.len()
            invariant
                self.wf(),
                j <= blocks.len(),
                blocks_derived(*self, blocks@, 0, Seq::empty()) == blocks_derived(
                    *self,
                    blocks@,
                    j as int,
                    all@,
                ),
                distinct_words(all@),
            decreases blocks.len() - j,
        {
            let kws = self.derive_multiple_keywords(&blocks[j]);
            let ghost pre = all@;
            let mut t: usize = 0;
            while t < kws.len()
                invariant
                    t <= kws.len(),
                    dedup_words(pre, kws@, 0) == dedup_words(all@, kws@, t as int),
                    distinct_words(all@),
                decreases kws.len() - t,
            {
                let kw = kws[t].clone();
                if !contains_word(&all, &kw.word) {
                    all.push(kw);
                }
                t = t + 1;
            }
            assert(dedup_words(all@, kws@, kws@.len() as int) == all@);
            j = j + 1;
        }
        all
    }
}

/// The keywords of many blocks folded together, block by block, keeping
/// only the first keyword per word.
pub open spec fn blocks_derived(
    d: KeywordDerivation,
    blocks: Seq<BlockInfo>,
    j: int,
    acc: Seq<DerivedKeyword>,
) -> Seq<DerivedKeyword>
    decreases blocks.len() - j,
{
    if j < 0 || j >= blocks.len() {
        acc
    } else {
        blocks_derived(d, blocks, j + 1, dedup_words(acc, multi_derived(d, blocks[j]), 0))
    }
}

/// Whether any keyword already collected carries the word `w`.
fn contains_word(v: &Vec<DerivedKeyword>, w: &String) -> (b: bool)
    ensures
        b == has_word(v@, w@),
{
    let mut i: usize = 0;
    while i < v.len()
        invariant
            i <= v.len(),
            forall|k: int| 0 <= k < i ==> v@[k].word@ != w@,
        decreases v.len() - i,
    {
        if v[i].word == *w {
            return true;
        }
        i = i + 1;
    }
    false
}

} // verus!
