//! The score report that the decoder produces. A score is carried as the
//! decimal text of the number that the server sent ("0" where it sent
//! none); the library does not interpret it.

use vstd::prelude::*;

verus! {

/// A span of audio, in units of 10 milliseconds. `end >= start` is not
/// enforced: the values are passed through as received.
#[derive(Debug, Clone, Copy, PartialEq, Eq, Structural)]
pub struct TimeSpan {
    pub start: u32,
    pub end: u32,
}

/// The scores of one word.
#[derive(Debug, Clone)]
pub struct WordScores {
    pub overall: String,
    pub pronunciation: String,
    pub tone: Option<String>,
    pub prominence: Option<String>,
}

/// The score of one phoneme of a word.
#[derive(Debug, Clone)]
pub struct PhonemeScore {
    pub phoneme: String,
    pub pronunciation: String,
    pub span: Option<TimeSpan>,
    pub tone_index: Option<u8>,
    pub phone: Option<String>,
}

/// How a word was read against the reference text.
pub const READ_NORMAL: u8 = 0;
pub const READ_INSERTION: u8 = 1;
pub const READ_OMISSION: u8 = 2;

/// One scored word.
#[derive(Debug, Clone)]
pub struct WordScore {
    pub word: String,
    pub pinyin: Option<String>,
    pub tone: Option<String>,
    pub scores: WordScores,
    /// `READ_NORMAL`, `READ_INSERTION` or `READ_OMISSION` as the server sends them.
    pub read_type: u8,
    pub span: Option<TimeSpan>,
    pub phonemes: Option<Vec<PhonemeScore>>,
}

/// The reduction of all received messages.
#[derive(Debug)]
pub struct SpeechEvaluationResponse {
    /// Named overall scores, each name at most once.
    pub overall_scores: Vec<(String, String)>,
    /// Scored words in the order in which they arrived.
    pub words: Vec<WordScore>,
    /// The last error that the server reported, if any.
    pub error: Option<String>,
}

/// The value of the first pair named `key`.
pub open spec fn score_lookup(pairs: Seq<(String, String)>, key: Seq<char>) -> Option<Seq<char>>
    decreases pairs.len(),
{
    if pairs.len() == 0 {
        None
    } else if pairs[0].0@ == key {
        Some(pairs[0].1@)
    } else {
        score_lookup(pairs.drop_first(), key)
    }
}

/// No name occurs twice.
pub open spec fn names_unique(pairs: Seq<(String, String)>) -> bool {
    forall|i: int, j: int| 0 <= i < j < pairs.len() ==> (#[trigger] pairs[i]).0@ != (#[trigger] pairs[j]).0@
}

proof fn lemma_lookup_found(pairs: Seq<(String, String)>, i: int)
    requires
        names_unique(pairs),
        0 <= i < pairs.len(),
    ensures
        score_lookup(pairs, pairs[i].0@) == Some(pairs[i].1@),
    decreases i,
{
    if i > 0 {
        let rest = pairs.drop_first();
        assert(rest[i - 1] == pairs[i]);
        assert(pairs[0].0@ != pairs[i].0@);
        assert(names_unique(rest)) by {
            assert forall|a: int, b: int| 0 <= a < b < rest.len() implies (#[trigger] rest[a]).0@ != (#[trigger] rest[b]).0@ by {
                assert(rest[a] == pairs[a + 1] && rest[b] == pairs[b + 1]);
            }
        }
        lemma_lookup_found(rest, i - 1);
    }
}

proof fn lemma_lookup_index(pairs: Seq<(String, String)>, key: Seq<char>)
    requires
        names_unique(pairs),
    ensures
        score_lookup(pairs, key) is Some ==> exists|i: int| 0 <= i < pairs.len() && (#[trigger] pairs[i]).0@ == key,
    decreases pairs.len(),
{
    if pairs.len() > 0 && pairs[0].0@ != key {
        let rest = pairs.drop_first();
        assert(names_unique(rest)) by {
            assert forall|a: int, b: int| 0 <= a < b < rest.len() implies (#[trigger] rest[a]).0@ != (#[trigger] rest[b]).0@ by {
                assert(rest[a] == pairs[a + 1] && rest[b] == pairs[b + 1]);
            }
        }
        lemma_lookup_index(rest, key);
        if score_lookup(rest, key) is Some {
            let i = choose|i: int| 0 <= i < rest.len() && (#[trigger] rest[i]).0@ == key;
            assert(pairs[i + 1] == rest[i]);
        }
    } else if pairs.len() > 0 {
        assert(pairs[0].0@ == key);
    }
}

/// Sets the score named `key`: replaces its value where the name is
/// present, else appends it.
pub fn set_score(pairs: &mut Vec<(String, String)>, key: &str, value: String)
    requires
        names_unique(old(pairs)@),
    ensures
        names_unique(final(pairs)@),
        forall|k: Seq<char>| #[trigger] score_lookup(final(pairs)@, k)
            == if k == key@ { Some(value@) } else { score_lookup(old(pairs)@, k) },
{
    let ghost before = pairs@;
    let mut i: usize = 0;
    while i < pairs.len()
        invariant
            pairs@ == before,
            before == old(pairs)@,
            names_unique(before),
            i <= pairs@.len(),
            forall|j: int| 0 <= j < i ==> (#[trigger] pairs@[j]).0@ != key@,
        decreases pairs@.len() - i,
    {
        if crate::json::text_eq(pairs[i].0.as_str(), key) {
            let name = pairs[i].0.clone();
            pairs[i] = (name, value);
            proof {
                let after = pairs@;
                assert(after.len() == before.len());
                assert forall|a: int| 0 <= a < after.len() implies (#[trigger] after[a]).0@ == before[a].0@ by {}
                assert(names_unique(after)) by {
                    assert forall|a: int, b: int| 0 <= a < b < after.len() implies (#[trigger] after[a]).0@ != (#[trigger] after[b]).0@ by {
                        assert(after[a].0@ == before[a].0@ && after[b].0@ == before[b].0@);
                    }
                }
                assert forall|k: Seq<char>| #[trigger] score_lookup(after, k)
                    == if k == key@ { Some(value@) } else { score_lookup(before, k) } by {
                    if k == key@ {
                        assert(after[i as int].0@ == key@);
                        assert(after[i as int].1@ == value@);
                        lemma_lookup_found(after, i as int);
                    } else {
                        lemma_lookup_index(before, k);
                        lemma_lookup_index(after, k);
                        if score_lookup(before, k) is Some {
                            let j = choose|j: int| 0 <= j < before.len() && (#[trigger] before[j]).0@ == k;
                            lemma_lookup_found(before, j);
                            assert(after[j] == before[j]);
                            lemma_lookup_found(after, j);
                        } else if score_lookup(after, k) is Some {
                            let j = choose|j: int| 0 <= j < after.len() && (#[trigger] after[j]).0@ == k;
                            assert(j != i);
                            assert(after[j] == before[j]);
                            lemma_lookup_found(before, j);
                        }
                    }
                }
            }
            return;
        }
        i = i + 1;
    }
    pairs.push((String::from_str(key), value));
    proof {
        let after = pairs@;
        assert forall|a: int| 0 <= a < before.len() implies (#[trigger] after[a]) == before[a] by {}
        assert(names_unique(after)) by {
            assert forall|a: int, b: int| 0 <= a < b < after.len() implies (#[trigger] after[a]).0@ != (#[trigger] after[b]).0@ by {
                if b == before.len() {
                    assert(after[a] == before[a]);
                } else {
                    assert(after[a] == before[a] && after[b] == before[b]);
                }
            }
        }
        assert forall|k: Seq<char>| #[trigger] score_lookup(after, k)
            == if k == key@ { Some(value@) } else { score_lookup(before, k) } by {
            if k == key@ {
                lemma_lookup_found(after, before.len() as int);
            } else {
                lemma_lookup_index(before, k);
                lemma_lookup_index(after, k);
                if score_lookup(before, k) is Some {
                    let j = choose|j: int| 0 <= j < before.len() && (#[trigger] before[j]).0@ == k;
                    lemma_lookup_found(before, j);
                    lemma_lookup_found(after, j);
                } else if score_lookup(after, k) is Some {
                    let j = choose|j: int| 0 <= j < after.len() && (#[trigger] after[j]).0@ == k;
                    assert(j < before.len());
                    assert(after[j] == before[j]);
                    lemma_lookup_found(before, j);
                }
            }
        }
    }
}

impl SpeechEvaluationResponse {
    /// The overall score named `key`.
    pub fn overall_score(&self, key: &str) -> (r: Option<&String>)
        ensures
            match r {
                Some(v) => score_lookup(self.overall_scores@, key@) == Some(v@),
                None => score_lookup(self.overall_scores@, key@) is None,
            },
    {
        let mut i: usize = 0;
        assert(self.overall_scores@.subrange(0, self.overall_scores@.len() as int) =~= self.overall_scores@);
        while i < self.overall_scores.len()
            invariant
                i <= self.overall_scores@.len(),
                score_lookup(self.overall_scores@, key@)
                    == score_lookup(self.overall_scores@.subrange(i as int, self.overall_scores@.len() as int), key@),
            decreases self.overall_scores@.len() - i,
        {
            let ghost rest = self.overall_scores@.subrange(i as int, self.overall_scores@.len() as int);
            assert(rest.drop_first() =~= self.overall_scores@.subrange(i + 1, self.overall_scores@.len() as int));
            assert(rest[0] == self.overall_scores@[i as int]);
            if crate::json::text_eq(self.overall_scores[i].0.as_str(), key) {
                return Some(&self.overall_scores[i].1);
            }
            i = i + 1;
        }
        None
    }
}

} // verus!
