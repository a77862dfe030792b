//! The fixed vocabulary: three ordered categories of words, addressed as one
//! concatenated list. Derivation correctness depends on the index-to-word
//! mapping being stable, which the contracts here pin down.

use vstd::prelude::*;

verus! {

/// An ordered vocabulary partitioned into three categories. The flat
/// vocabulary is the three categories concatenated, nouns first.
#[derive(Debug)]
pub struct WordDictionary {
    pub nouns: Vec<String>,
    pub verbs: Vec<String>,
    pub adjectives: Vec<String>,
}

/// Appends clones of all of `src` to `dst`.
fn extend_words(dst: &mut Vec<String>, src: &Vec<String>)
    ensures
        final(dst)@ == old(dst)@ + src@,
{
    let mut i: usize = 0;
    while i < src.len()
        invariant
            i <= src.len(),
            dst@ == old(dst)@ + src@.take(i as int),
        decreases src.len() - i,
    {
        dst.push(src[i].clone());
        assert(dst@ =~= old(dst)@ + src@.take(i + 1));
        i = i + 1;
    }
    assert(dst@ =~= old(dst)@ + src@);
}

impl WordDictionary {
    /// The flat vocabulary: every word, category by category.
    pub open spec fn vocab(self) -> Seq<String> {
        self.nouns@ + self.verbs@ + self.adjectives@
    }

    /// Total number of words over all categories.
    pub open spec fn total(self) -> nat {
        self.nouns@.len() + self.verbs@.len() + self.adjectives@.len()
    }

    /// The category lengths together fit the machine word, so counting the
    /// vocabulary cannot overflow.
    pub open spec fn wf(self) -> bool {
        self.total() <= usize::MAX
    }

    /// All words as a single flat list, in vocabulary order.
    pub fn all_words(&self) -> (r: Vec<String>)
        requires
            self.wf(),
        ensures
            r@ == self.vocab(),
    {
        let mut words: Vec<String> = Vec::new();
        extend_words(&mut words, &self.nouns);
        extend_words(&mut words, &self.verbs);
        extend_words(&mut words, &self.adjectives);
        assert(words@ =~= self.vocab());
        words
    }

    /// Total word count.
    pub fn total_count(&self) -> (r: usize)
        requires
            self.wf(),
        ensures
            r == self.total(),
    {
        self.nouns.len() + self.verbs.len() + self.adjectives.len()
    }

    /// The word at `index` in the flat vocabulary, if the index is in range.
    pub fn get_word(&self, index: usize) -> (r: Option<String>)
        requires
            self.wf(),
        ensures
            match r {
                Some(w) => index < self.total() && w == self.vocab()[index as int],
                None => index >= self.total(),
            },
    {
        if index < self.nouns.len() {
            Some(self.nouns[index].clone())
        } else if index - self.nouns.len() < self.verbs.len() {
            Some(self.verbs[index - self.nouns.len()].clone())
        } else if index - self.nouns.len() - self.verbs.len() < self.adjectives.len() {
            Some(self.adjectives[index - self.nouns.len() - self.verbs.len()].clone())
        } else {
            None
        }
    }
}

impl Clone for WordDictionary {
    /// A clone holds the same vocabulary, value for value.
    fn clone(&self) -> (r: Self)
        ensures
            r.nouns@ == self.nouns@,
            r.verbs@ == self.verbs@,
            r.adjectives@ == self.adjectives@,
            r.vocab() == self.vocab(),
            r.total() == self.total(),
    {
        let mut nouns: Vec<String> = Vec::new();
        extend_words(&mut nouns, &self.nouns);
        let mut verbs: Vec<String> = Vec::new();
        extend_words(&mut verbs, &self.verbs);
        let mut adjectives: Vec<String> = Vec::new();
        extend_words(&mut adjectives, &self.adjectives);
        let r = WordDictionary { nouns, verbs, adjectives };
        assert(r.nouns@ =~= self.nouns@);
        assert(r.verbs@ =~= self.verbs@);
        assert(r.adjectives@ =~= self.adjectives@);
        assert(r.vocab() =~= self.vocab());
        r
    }
}

} // verus!
