//! Poem generation: the deterministic prompt built from the keyword list,
//! and the retry schedule for calling the generation endpoint — up to a
//! fixed number of attempts, with pure exponential backoff between them.
//! Performing the network call itself happens outside the library; callers
//! drive the schedule and hand each attempt's outcome back.

use vstd::arithmetic::power2::{
    lemma2_to64, lemma2_to64_rest, lemma_pow2_strictly_increases, lemma_pow2_unfold, pow2,
};
use vstd::prelude::*;
use vstd::string::StringExecFns;

use crate::text::{dec_of, join_all, joined, u64_to_dec};

verus! {

/// Attempts made per generation call before giving up.
pub const MAX_GENERATION_ATTEMPTS: u32 = 3;

/// Poem generation failed on every attempt; carries the last error text
/// observed.
#[derive(Debug, Clone, PartialEq, Eq)]
pub enum GenerationError {
    ExhaustedRetries { last_error: String },
}

/// The full prompt handed to the generation endpoint for a keyword list:
/// a fixed template with the keywords joined by commas, in caller order.
pub open spec fn prompt_for(words: Seq<Seq<char>>) -> Seq<char> {
    "You are a poetic AI that creates beautiful, evocative poems.\n\nUsing ONLY the following keywords derived from the Solana blockchain, create a cohesive poem of 20-30 lines.\n\nKeywords: "@
        + joined(words, ", "@)
        + "\n\nInstructions:\n- Use all or most of these keywords naturally in the poem\n- Create a coherent narrative or emotional arc\n- The poem can be any mood - happy, sad, dark, light, mysterious, etc.\n- Let the words guide the tone naturally\n- Use vivid imagery and metaphor\n- Make it flow well and feel complete\n- Do NOT add a title\n- Do NOT explain or comment on the poem\n- ONLY output the poem itself\n\nWrite the poem now:"@
}

/// Seconds slept before an attempt: nothing before the first, then pure
/// exponential backoff — two seconds before the first retry, doubling for
/// each further retry.
pub open spec fn backoff_secs(attempt: nat) -> nat {
    if attempt == 0 {
        0
    } else {
        pow2(attempt)
    }
}

/// Builds prompts for the generation endpoint.
pub struct PoemGenerator {
    api_key: String,
    model: String,
}

impl PoemGenerator {
    /// The credential sent with each generation request.
    pub closed spec fn spec_api_key(self) -> Seq<char> {
        self.api_key@
    }

    /// The model identifier named in each generation request.
    pub closed spec fn spec_model(self) -> Seq<char> {
        self.model@
    }

    pub fn new(api_key: String, model: String) -> (r: Self)
        ensures
            r.spec_api_key() == api_key@,
            r.spec_model() == model@,
    {
        Self { api_key, model }
    }

    /// The credential, for the caller performing the request.
    pub fn api_key(&self) -> (r: &str)
        ensures
            r@ == self.spec_api_key(),
    {
        self.api_key.as_str()
    }

    /// The model identifier, for the caller performing the request.
    pub fn model(&self) -> (r: &str)
        ensures
            r@ == self.spec_model(),
    {
        self.model.as_str()
    }

    /// The prompt for one keyword list.
    pub fn create_prompt(&self, keywords: &Vec<String>) -> (r: String)
        ensures
            r@ == prompt_for(keywords@.map_values(|s: String| s@)),
    {
        let mut s = String::from_str(
            "You are a poetic AI that creates beautiful, evocative poems.\n\nUsing ONLY the following keywords derived from the Solana blockchain, create a cohesive poem of 20-30 lines.\n\nKeywords: ",
        );
        let words = join_all(keywords, ", ");
        s.append(words.as_str());
        s.append(
            "\n\nInstructions:\n- Use all or most of these keywords naturally in the poem\n- Create a coherent narrative or emotional arc\n- The poem can be any mood - happy, sad, dark, light, mysterious, etc.\n- Let the words guide the tone naturally\n- Use vivid imagery and metaphor\n- Make it flow well and feel complete\n- Do NOT add a title\n- Do NOT explain or comment on the poem\n- ONLY output the poem itself\n\nWrite the poem now:",
        );
        assert(s@ =~= prompt_for(keywords@.map_values(|s: String| s@)));
        s
    }
}

/// Two to the power `k`.
fn pow2_u64(k: u32) -> (r: u64)
    requires
        k <= 62,
    ensures
        r == pow2(k as nat),
{
    proof {
        lemma2_to64();
        lemma2_to64_rest();
    }
    let mut r: u64 = 1;
    let mut i: u32 = 0;
    while i < k
        invariant
            i <= k,
            k <= 62,
            r == pow2(i as nat),
            pow2(62) == 0x4000000000000000,
        decreases k - i,
    {
        proof {
            lemma_pow2_unfold(i as nat + 1);
            if i as nat + 1 < 62 {
                lemma_pow2_strictly_increases(i as nat + 1, 62);
            }
        }
        r = r * 2;
        i = i + 1;
    }
    r
}

/// The error text reported when every attempt failed and no attempt left
/// an error of its own behind.
pub open spec fn exhausted_text(max_attempts: nat) -> Seq<char> {
    "Failed after "@ + dec_of(max_attempts) + " attempts"@
}

/// The retry schedule of one generation call: counts the attempts made,
/// remembers the last error, and stops on success or after the maximum
/// number of attempts.
pub struct RetrySchedule {
    max_attempts: u32,
    attempts_done: u32,
    success: Option<String>,
    last_error: Option<String>,
}

impl RetrySchedule {
    /// Attempts this schedule will allow in all.
    pub closed spec fn max(self) -> u32 {
        self.max_attempts
    }

    /// Attempts made so far.
    pub closed spec fn attempts(self) -> u32 {
        self.attempts_done
    }

    /// The successful content, once an attempt succeeded.
    pub closed spec fn success(self) -> Option<String> {
        self.success
    }

    /// The last error text recorded by a failed attempt.
    pub closed spec fn last_error(self) -> Option<String> {
        self.last_error
    }

    /// Another attempt is still to be made: no success yet and attempts
    /// remain.
    pub open spec fn live(self) -> bool {
        self.success() is None && self.attempts() < self.max()
    }

    /// A fresh schedule allowing `max_attempts` attempts. The bound keeps
    /// every backoff delay within 64-bit seconds.
    pub fn new(max_attempts: u32) -> (r: Self)
        requires
            max_attempts <= 62,
        ensures
            r.max() == max_attempts,
            r.attempts() == 0,
            r.success() is None,
            r.last_error() is None,
    {
        Self { max_attempts, attempts_done: 0, success: None, last_error: None }
    }

    /// Decides the next step: `Some(delay)` asks the caller to sleep
    /// `delay` seconds and make one more attempt; `None` says the run is
    /// over. The delay is zero before the first attempt and doubles from
    /// two seconds for each retry.
    pub fn next_delay(&self) -> (r: Option<u64>)
        requires
            self.max() <= 62,
        ensures
            match r {
                Some(d) => self.live() && d == backoff_secs(self.attempts() as nat),
                None => !self.live(),
            },
    {
        match &self.success {
            Some(_) => None,
            None => {
                if self.attempts_done < self.max_attempts {
                    if self.attempts_done == 0 {
                        Some(0)
                    } else {
                        Some(pow2_u64(self.attempts_done))
                    }
                } else {
                    None
                }
            },
        }
    }

    /// Records a successful attempt; the run is over afterwards.
    pub fn record_success(&mut self, content: String)
        requires
            old(self).live(),
        ensures
            final(self).max() == old(self).max(),
            final(self).attempts() == old(self).attempts() + 1,
            final(self).success() == Some(content),
            final(self).last_error() == old(self).last_error(),
    {
        self.attempts_done = self.attempts_done + 1;
        self.success = Some(content);
    }

    /// Records a failed attempt and keeps its error text as the latest.
    pub fn record_failure(&mut self, error: String)
        requires
            old(self).live(),
        ensures
            final(self).max() == old(self).max(),
            final(self).attempts() == old(self).attempts() + 1,
            final(self).success() is None,
            final(self).last_error() == Some(error),
    {
        self.attempts_done = self.attempts_done + 1;
        self.last_error = Some(error);
    }

    /// Closes the run: the successful content when an attempt succeeded,
    /// otherwise the exhausted-retries failure carrying the last error
    /// observed (or a fixed text when no attempt ever ran).
    pub fn finish(self) -> (r: Result<String, GenerationError>)
        ensures
            self.success() matches Some(c) ==> r matches Ok(rc) && rc == c,
            self.success() is None ==> ({
                &&& r matches Err(e)
                &&& e matches GenerationError::ExhaustedRetries { last_error }
                &&& match self.last_error() {
                    Some(m) => last_error == m,
                    None => last_error@ == exhausted_text(self.max() as nat),
                }
            }),
    {
        match self.success {
            Some(c) => Ok(c),
            None => {
                match self.last_error {
                    Some(m) => Err(GenerationError::ExhaustedRetries { last_error: m }),
                    None => {
                        let mut m = String::from_str("Failed after ");
                        let n = u64_to_dec(self.max_attempts as u64);
                        m.append(n.as_str());
                        m.append(" attempts");
                        assert(m@ =~= exhausted_text(self.max() as nat));
                        Err(GenerationError::ExhaustedRetries { last_error: m })
                    },
                }
            },
        }
    }
}

/// The delays of the default three-attempt run: nothing before the first
/// attempt, two seconds before the second, four before the third — six
/// seconds of waiting in all.
pub proof fn lemma_backoff_values()
    ensures
        backoff_secs(0) == 0,
        backoff_secs(1) == 2,
        backoff_secs(2) == 4,
        backoff_secs(0) + backoff_secs(1) + backoff_secs(2) == 6,
{
    lemma2_to64();
}

} // verus!
