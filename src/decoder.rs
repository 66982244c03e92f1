//! Reduces the messages received from the server, in arrival order, into
//! a `SpeechEvaluationResponse`. A message that cannot be read contributes
//! nothing; it never makes the whole reduction fail.

use vstd::prelude::*;
use crate::json::Json;
use crate::json::field;
use crate::json::field_of;
use crate::json::text_of;
use crate::json::number_text_of;
use crate::json::u64_of;
use crate::json::text_eq;
use crate::primitives::json_parse;
use crate::primitives::base64_decoded;
use vstd::utf8::valid_utf8;
use vstd::utf8::decode_utf8;
use crate::primitives::opt_text;
use crate::primitives::decode_base64;
use crate::primitives::string_from_utf8;
use crate::scores::TimeSpan;
use crate::scores::WordScores;
use crate::scores::PhonemeScore;
use crate::scores::WordScore;
use crate::scores::SpeechEvaluationResponse;
use crate::scores::score_lookup;
use crate::scores::names_unique;
use crate::scores::set_score;

verus! {

/// A score as passed on: the number's text, or "0" where the value is
/// absent or not a number.
pub open spec fn score_or_zero(o: Option<Json>) -> Seq<char> {
    match number_text_of(o) {
        Some(t) => t,
        None => seq!['0'],
    }
}

pub open spec fn u32_truncated(v: u64) -> u32 {
    (v % 0x1_0000_0000) as u32
}

pub open spec fn u8_truncated(v: u64) -> u8 {
    (v % 256) as u8
}

pub open spec fn u64_or_zero(o: Option<u64>) -> u64 {
    match o {
        Some(v) => v,
        None => 0,
    }
}

/// A time span read from an optional `{"start", "end"}` value: present
/// exactly when the value is, each end 0 where it is missing.
pub open spec fn span_matches(s: Option<TimeSpan>, o: Option<Json>) -> bool {
    match o {
        None => s is None,
        Some(sp) => s == Some(TimeSpan {
            start: u32_truncated(u64_or_zero(u64_of(field(sp, "start"@)))),
            end: u32_truncated(u64_or_zero(u64_of(field(sp, "end"@)))),
        }),
    }
}

/// `p` is what a phoneme entry `j` reads as.
pub open spec fn phoneme_matches(p: PhonemeScore, j: Json) -> bool {
    &&& p.phoneme@ == match text_of(field(j, "phoneme"@)) {
        Some(t) => t,
        None => Seq::<char>::empty(),
    }
    &&& p.pronunciation@ == score_or_zero(field(j, "pronunciation"@))
    &&& span_matches(p.span, field(j, "span"@))
    &&& p.tone_index == match u64_of(field(j, "tone_index"@)) {
        Some(v) => Some(u8_truncated(v)),
        None => None,
    }
    &&& opt_text(p.phone) == text_of(field(j, "phone"@))
}

/// `w` is what an optional `scores` object reads as: all defaults where it
/// is absent.
pub open spec fn word_scores_match(w: WordScores, o: Option<Json>) -> bool {
    match o {
        None => {
            &&& w.overall@ == seq!['0']
            &&& w.pronunciation@ == seq!['0']
            &&& w.tone is None
            &&& w.prominence is None
        },
        Some(sc) => {
            &&& w.overall@ == score_or_zero(field(sc, "overall"@))
            &&& w.pronunciation@ == score_or_zero(field(sc, "pronunciation"@))
            &&& opt_text(w.tone) == number_text_of(field(sc, "tone"@))
            &&& opt_text(w.prominence) == number_text_of(field(sc, "prominence"@))
        },
    }
}

/// The phoneme list of a word: one score per entry of a non-empty array,
/// in order; absent for anything else, an empty array included.
pub open spec fn phonemes_match(ps: Option<Vec<PhonemeScore>>, o: Option<Json>) -> bool {
    match o {
        Some(Json::Array(items)) if items@.len() > 0 => {
            &&& ps is Some
            &&& ps->Some_0@.len() == items@.len()
            &&& forall|i: int| 0 <= i < items@.len() ==> phoneme_matches(#[trigger] ps->Some_0@[i], items@[i])
        },
        _ => ps is None,
    }
}

/// `w` is what a word entry `j` reads as.
pub open spec fn word_matches(w: WordScore, j: Json) -> bool {
    &&& w.word@ == match text_of(field(j, "word"@)) {
        Some(t) => t,
        None => Seq::<char>::empty(),
    }
    &&& opt_text(w.pinyin) == text_of(field(j, "pinyin"@))
    &&& opt_text(w.tone) == text_of(field(j, "tone"@))
    &&& word_scores_match(w.scores, field(j, "scores"@))
    &&& w.read_type == u8_truncated(u64_or_zero(u64_of(field(j, "readType"@))))
    &&& span_matches(w.span, field(j, "span"@))
    &&& phonemes_match(w.phonemes, field(j, "phonemes"@))
}

fn text_at(j: &Json, key: &str) -> (r: Option<String>)
    ensures
        opt_text(r) == text_of(field(*j, key@)),
{
    match j.get(key) {
        Some(v) => match v.as_text() {
            Some(s) => Some(s.clone()),
            None => None,
        },
        None => None,
    }
}

fn number_text_at(j: &Json, key: &str) -> (r: Option<String>)
    ensures
        opt_text(r) == number_text_of(field(*j, key@)),
{
    match j.get(key) {
        Some(v) => match v.as_number_text() {
            Some(s) => Some(s.clone()),
            None => None,
        },
        None => None,
    }
}

fn u64_at(j: &Json, key: &str) -> (r: Option<u64>)
    ensures
        r == u64_of(field(*j, key@)),
{
    match j.get(key) {
        Some(v) => v.as_u64(),
        None => None,
    }
}

fn score_at(j: &Json, key: &str) -> (r: String)
    ensures
        r@ == score_or_zero(field(*j, key@)),
{
    match number_text_at(j, key) {
        Some(t) => t,
        None => zero_score(),
    }
}

fn zero_score() -> (r: String)
    ensures
        r@ == seq!['0'],
{
    proof {
        reveal_strlit("0");
    }
    String::from_str("0")
}

fn span_at(j: &Json, key: &str) -> (r: Option<TimeSpan>)
    ensures
        span_matches(r, field(*j, key@)),
{
    match j.get(key) {
        Some(sp) => {
            let start = match u64_at(sp, "start") {
                Some(v) => v,
                None => 0,
            };
            let end = match u64_at(sp, "end") {
                Some(v) => v,
                None => 0,
            };
            Some(TimeSpan { start: (start % 0x1_0000_0000) as u32, end: (end % 0x1_0000_0000) as u32 })
        },
        None => None,
    }
}

/// Reads one phoneme entry; a missing field takes its default.
pub fn parse_phoneme_score(j: &Json) -> (r: PhonemeScore)
    ensures
        phoneme_matches(r, *j),
{
    let phoneme = match text_at(j, "phoneme") {
        Some(t) => t,
        None => String::new(),
    };
    let tone_index = match u64_at(j, "tone_index") {
        Some(v) => Some((v % 256) as u8),
        None => None,
    };
    PhonemeScore {
        phoneme,
        pronunciation: score_at(j, "pronunciation"),
        span: span_at(j, "span"),
        tone_index,
        phone: text_at(j, "phone"),
    }
}

fn word_scores_at(j: &Json, key: &str) -> (r: WordScores)
    ensures
        word_scores_match(r, field(*j, key@)),
{
    match j.get(key) {
        Some(sc) => WordScores {
            overall: score_at(sc, "overall"),
            pronunciation: score_at(sc, "pronunciation"),
            tone: number_text_at(sc, "tone"),
            prominence: number_text_at(sc, "prominence"),
        },
        None => WordScores {
            overall: zero_score(),
            pronunciation: zero_score(),
            tone: None,
            prominence: None,
        },
    }
}

fn phonemes_at(j: &Json, key: &str) -> (r: Option<Vec<PhonemeScore>>)
    ensures
        phonemes_match(r, field(*j, key@)),
{
    match j.get(key) {
        Some(Json::Array(items)) => {
            let mut out: Vec<PhonemeScore> = Vec::new();
            let mut i: usize = 0;
            while i < items.len()
                invariant
                    i <= items@.len(),
                    out@.len() == i,
                    forall|k: int| 0 <= k < i ==> phoneme_matches(#[trigger] out@[k], items@[k]),
                decreases items@.len() - i,
            {
                out.push(parse_phoneme_score(&items[i]));
                i = i + 1;
            }
            if out.len() == 0 {
                None
            } else {
                Some(out)
            }
        },
        _ => None,
    }
}

/// Reads one word entry; a missing field takes its default.
pub fn parse_word_score(j: &Json) -> (r: WordScore)
    ensures
        word_matches(r, *j),
{
    let word = match text_at(j, "word") {
        Some(t) => t,
        None => String::new(),
    };
    let read_type = match u64_at(j, "readType") {
        Some(v) => (v % 256) as u8,
        None => 0,
    };
    WordScore {
        word,
        pinyin: text_at(j, "pinyin"),
        tone: text_at(j, "tone"),
        scores: word_scores_at(j, "scores"),
        read_type,
        span: span_at(j, "span"),
        phonemes: phonemes_at(j, "phonemes"),
    }
}

/// A parsed message whose header carries a code other than 0: the server
/// rejected the request, and nothing more is read from the message.
pub open spec fn code_rejects(j: Json) -> bool {
    let code = field_of(field(j, "header"@), "code"@);
    code is Some && number_text_of(code) != Some(seq!['0'])
}

/// The error that a parsed message reports: its code rejects and its
/// header has a message (a message that is not a string reads as
/// "Unknown error").
pub open spec fn tree_error(j: Json) -> Option<Seq<char>> {
    let message = field_of(field(j, "header"@), "message"@);
    if code_rejects(j) && message is Some {
        Some(match text_of(message) {
            Some(t) => t,
            None => "Unknown error"@,
        })
    } else {
        None
    }
}

/// The result object of a parsed message: `payload.result.data`, base64
/// decoded, read as UTF-8, parsed as JSON.
pub open spec fn tree_result(j: Json) -> Option<Json> {
    match text_of(field_of(field_of(field(j, "payload"@), "result"@), "data"@)) {
        Some(d) => match base64_decoded(d) {
            Some(b) => if valid_utf8(b) {
                json_parse(decode_utf8(b))
            } else {
                None
            },
            None => None,
        },
        None => None,
    }
}

/// The error that a received message reports.
pub open spec fn message_error(m: Seq<char>) -> Option<Seq<char>> {
    match json_parse(m) {
        Some(j) => tree_error(j),
        None => None,
    }
}

/// The result object of a received message; a message whose code rejects
/// contributes none, whether or not it says why.
pub open spec fn message_result(m: Seq<char>) -> Option<Json> {
    match json_parse(m) {
        Some(j) => if code_rejects(j) {
            None
        } else {
            tree_result(j)
        },
        None => None,
    }
}

/// The word entries of a result object.
pub open spec fn result_words(r: Json) -> Seq<Json> {
    match field(r, "words"@) {
        Some(Json::Array(items)) => items@,
        _ => Seq::<Json>::empty(),
    }
}

pub open spec fn message_words(m: Seq<char>) -> Seq<Json> {
    match message_result(m) {
        Some(r) => result_words(r),
        None => Seq::<Json>::empty(),
    }
}

/// The four overall scores that a result object may carry.
pub open spec fn is_overall_key(k: Seq<char>) -> bool {
    k == "overall"@ || k == "pronunciation"@ || k == "fluency"@ || k == "tone"@
}

/// The overall score named `key` that a message carries.
pub open spec fn message_score(m: Seq<char>, key: Seq<char>) -> Option<Seq<char>> {
    match message_result(m) {
        Some(r) => match field(r, key) {
            Some(v) => Some(score_or_zero(Some(v))),
            None => None,
        },
        None => None,
    }
}

/// All word entries of all messages, in arrival order.
pub open spec fn decoded_words(msgs: Seq<String>) -> Seq<Json>
    decreases msgs.len(),
{
    if msgs.len() == 0 {
        Seq::<Json>::empty()
    } else {
        decoded_words(msgs.drop_last()) + message_words(msgs.last()@)
    }
}

/// The error of the last message that reports one.
pub open spec fn decoded_error(msgs: Seq<String>) -> Option<Seq<char>>
    decreases msgs.len(),
{
    if msgs.len() == 0 {
        None
    } else {
        match message_error(msgs.last()@) {
            Some(e) => Some(e),
            None => decoded_error(msgs.drop_last()),
        }
    }
}

/// The overall score named `key` from the last message that carries it.
pub open spec fn decoded_score(msgs: Seq<String>, key: Seq<char>) -> Option<Seq<char>>
    decreases msgs.len(),
{
    if !is_overall_key(key) || msgs.len() == 0 {
        None
    } else {
        match message_score(msgs.last()@, key) {
            Some(v) => Some(v),
            None => decoded_score(msgs.drop_last(), key),
        }
    }
}

/// `r` is the reduction of `msgs`.
pub open spec fn decodes_to(msgs: Seq<String>, r: SpeechEvaluationResponse) -> bool {
    &&& opt_text(r.error) == decoded_error(msgs)
    &&& names_unique(r.overall_scores@)
    &&& forall|k: Seq<char>| #[trigger] score_lookup(r.overall_scores@, k) == decoded_score(msgs, k)
    &&& r.words@.len() == decoded_words(msgs).len()
    &&& forall|i: int| 0 <= i < r.words@.len() ==> word_matches(#[trigger] r.words@[i], decoded_words(msgs)[i])
}

/// The error a message reports, and whether its code rejects.
fn error_of(j: &Json) -> (r: (Option<String>, bool))
    ensures
        opt_text(r.0) == tree_error(*j),
        r.1 == code_rejects(*j),
{
    proof {
        reveal_strlit("Unknown error");
    }
    match j.get("header") {
        Some(header) => match header.get("code") {
            Some(code) => {
                let is_zero = match code.as_number_text() {
                    Some(t) => text_eq(t.as_str(), "0"),
                    None => false,
                };
                proof {
                    reveal_strlit("0");
                    assert("0"@ =~= seq!['0']);
                }
                if is_zero {
                    (None, false)
                } else {
                    let message = match header.get("message") {
                        Some(m) => match m.as_text() {
                            Some(t) => Some(t.clone()),
                            None => Some(String::from_str("Unknown error")),
                        },
                        None => None,
                    };
                    (message, true)
                }
            },
            None => (None, false),
        },
        None => (None, false),
    }
}

fn result_of(j: &Json) -> (r: Option<Json>)
    ensures
        r == tree_result(*j),
{
    let data = match j.get("payload") {
        Some(payload) => match payload.get("result") {
            Some(result) => match result.get("data") {
                Some(d) => d.as_text(),
                None => None,
            },
            None => None,
        },
        None => None,
    };
    match data {
        Some(d) => match decode_base64(d.as_str()) {
            Some(bytes) => match string_from_utf8(bytes) {
                Some(text) => Json::parse(text.as_str()),
                None => None,
            },
            None => None,
        },
        None => None,
    }
}

fn merge_score(scores: &mut Vec<(String, String)>, result: &Json, key: &str)
    requires
        names_unique(old(scores)@),
    ensures
        names_unique(final(scores)@),
        forall|k: Seq<char>| #[trigger] score_lookup(final(scores)@, k) == if k == key@ && field(*result, key@) is Some {
            Some(score_or_zero(field(*result, key@)))
        } else {
            score_lookup(old(scores)@, k)
        },
{
    match result.get(key) {
        Some(_) => {
            let value = score_at(result, key);
            set_score(scores, key, value);
        },
        None => {},
    }
}

fn merge_words(words: &mut Vec<WordScore>, result: &Json)
    ensures
        final(words)@.len() == old(words)@.len() + result_words(*result).len(),
        forall|i: int| 0 <= i < old(words)@.len() ==> #[trigger] final(words)@[i] == old(words)@[i],
        forall|i: int| 0 <= i < result_words(*result).len() ==> word_matches(
            #[trigger] final(words)@[old(words)@.len() + i],
            result_words(*result)[i],
        ),
{
    match result.get("words") {
        Some(Json::Array(items)) => {
            let ghost start = words@;
            let mut i: usize = 0;
            while i < items.len()
                invariant
                    i <= items@.len(),
                    result_words(*result) == items@,
                    words@.len() == start.len() + i,
                    forall|k: int| 0 <= k < start.len() ==> #[trigger] words@[k] == start[k],
                    forall|k: int| 0 <= k < i ==> word_matches(#[trigger] words@[start.len() + k], items@[k]),
                decreases items@.len() - i,
            {
                let w = parse_word_score(&items[i]);
                words.push(w);
                proof {
                    assert forall|k: int| 0 <= k < i + 1 implies word_matches(#[trigger] words@[start.len() + k], items@[k]) by {
                        if k == i {
                            assert(words@[start.len() + k] == w);
                        }
                    }
                }
                i = i + 1;
            }
        },
        _ => {
            proof {
                reveal_strlit("words");
            }
        },
    }
}

/// Reduces the received messages, in order: the last reported error, the
/// last value of each overall score, and every word in arrival order.
pub fn decode_messages(msgs: &Vec<String>) -> (r: SpeechEvaluationResponse)
    ensures
        decodes_to(msgs@, r),
{
    let mut scores: Vec<(String, String)> = Vec::new();
    let mut words: Vec<WordScore> = Vec::new();
    let mut error: Option<String> = None;
    let mut i: usize = 0;
    proof {
        reveal_strlit("overall");
        reveal_strlit("pronunciation");
        reveal_strlit("fluency");
        reveal_strlit("tone");
        assert(msgs@.subrange(0, 0) =~= Seq::<String>::empty());
    }
    while i < msgs.len()
        invariant
            i <= msgs@.len(),
            opt_text(error) == decoded_error(msgs@.subrange(0, i as int)),
            names_unique(scores@),
            forall|k: Seq<char>| #[trigger] score_lookup(scores@, k) == decoded_score(msgs@.subrange(0, i as int), k),
            words@.len() == decoded_words(msgs@.subrange(0, i as int)).len(),
            forall|w: int| 0 <= w < words@.len() ==> word_matches(#[trigger] words@[w], decoded_words(msgs@.subrange(0, i as int))[w]),
        decreases msgs@.len() - i,
    {
        let ghost done = msgs@.subrange(0, i as int);
        let ghost next = msgs@.subrange(0, i + 1);
        let ghost m = msgs@[i as int]@;
        let ghost old_words = words@;
        let ghost old_scores = scores@;
        proof {
            assert(next.drop_last() =~= done);
            assert(next.last() == msgs@[i as int]);
        }
        match Json::parse(msgs[i].as_str()) {
            Some(j) => {
                let (reported, rejected) = error_of(&j);
                match reported {
                    Some(e) => {
                        error = Some(e);
                    },
                    None => {},
                }
                let result = if rejected {
                    None
                } else {
                    result_of(&j)
                };
                match result {
                    Some(result) => {
                        merge_score(&mut scores, &result, "overall");
                        merge_score(&mut scores, &result, "pronunciation");
                        merge_score(&mut scores, &result, "fluency");
                        merge_score(&mut scores, &result, "tone");
                        merge_words(&mut words, &result);
                        proof {
                            assert(message_result(m) == Some(result));
                            assert forall|w: int| 0 <= w < words@.len() implies word_matches(
                                #[trigger] words@[w],
                                decoded_words(next)[w],
                            ) by {
                                if w >= old_words.len() {
                                    let k = w - old_words.len();
                                    assert(words@[old_words.len() + k] == words@[w]);
                                }
                            }
                        }
                    },
                    None => {
                        proof {
                            assert(message_result(m) is None);
                            assert(decoded_words(next) =~= decoded_words(done));
                        }
                    },
                }
            },
            None => {
                proof {
                    assert(decoded_words(next) =~= decoded_words(done));
                }
            },
        }
        proof {
            assert forall|k: Seq<char>| #[trigger] score_lookup(scores@, k) == decoded_score(next, k) by {
                if is_overall_key(k) {
                    assert(decoded_score(next, k) == match message_score(m, k) {
                        Some(v) => Some(v),
                        None => decoded_score(done, k),
                    });
                }
            }
        }
        i = i + 1;
    }
    proof {
        assert(msgs@.subrange(0, msgs@.len() as int) =~= msgs@);
    }
    SpeechEvaluationResponse { overall_scores: scores, words, error }
}

/// A message that is not JSON changes nothing: wherever it stands in the
/// sequence, the words, the error and every overall score decode as if it
/// were not there.
pub proof fn lemma_unparsable_message_ignored(before: Seq<String>, bad: String, after: Seq<String>)
    requires
        json_parse(bad@) is None,
    ensures
        decoded_words(before + seq![bad] + after) == decoded_words(before + after),
        decoded_error(before + seq![bad] + after) == decoded_error(before + after),
        forall|k: Seq<char>| #[trigger] decoded_score(before + seq![bad] + after, k) == decoded_score(before + after, k),
    decreases after.len(),
{
    let with = before + seq![bad] + after;
    let without = before + after;
    if after.len() == 0 {
        assert(with.drop_last() =~= before);
        assert(without =~= before);
        assert(with.last() == bad);
        assert(decoded_words(with) =~= decoded_words(before));
        assert forall|k: Seq<char>| #[trigger] decoded_score(with, k) == decoded_score(without, k) by {}
    } else {
        let shorter = after.drop_last();
        lemma_unparsable_message_ignored(before, bad, shorter);
        assert(with.drop_last() =~= before + seq![bad] + shorter);
        assert(without.drop_last() =~= before + shorter);
        assert(with.last() == after.last());
        assert(without.last() == after.last());
        assert forall|k: Seq<char>| #[trigger] decoded_score(with, k) == decoded_score(without, k) by {
            assert(decoded_score(before + seq![bad] + shorter, k) == decoded_score(before + shorter, k));
        }
    }
}

/// A word entry without a scores object reads with overall and
/// pronunciation "0" and no tone or prominence score.
pub proof fn lemma_missing_scores_default(w: WordScore, j: Json)
    requires
        word_matches(w, j),
        field(j, "scores"@) is None,
    ensures
        w.scores.overall@ == seq!['0'],
        w.scores.pronunciation@ == seq!['0'],
        w.scores.tone is None,
        w.scores.prominence is None,
{
}

} // verus!
