//! The calls into serde_json, base64, hmac/sha2, chrono, url and std on
//! which the rest of the library builds. Each result that takes more than
//! a few lines to state is given a name here; the wrappers say which
//! outside function produces it.

use vstd::prelude::*;
use base64::Engine;
use hmac::Mac;
use rand::Rng;
use std::fmt::Write;
use crate::json::Json;
use vstd::utf8::valid_utf8;
use vstd::utf8::decode_utf8;

verus! {

/// The tree that serde_json parses from a text, or `None` where the text is
/// not JSON.
pub uninterp spec fn json_parse(text: Seq<char>) -> Option<Json>;

/// The compact text that serde_json writes for the value a tree stands
/// for (object members sorted by name).
pub uninterp spec fn json_text(j: Json) -> Seq<char>;

/// The standard, padded base64 text of some bytes.
pub uninterp spec fn base64_encoded(bytes: Seq<u8>) -> Seq<char>;

/// The bytes that a standard, padded base64 text denotes, or `None`.
pub uninterp spec fn base64_decoded(text: Seq<char>) -> Option<Seq<u8>>;

/// The HMAC-SHA256 tag of `message` under `key`.
pub uninterp spec fn hmac_sha256(key: Seq<u8>, message: Seq<u8>) -> Seq<u8>;

/// A UTC instant, given in whole seconds since the Unix epoch, written
/// with a strftime pattern; `None` where chrono cannot represent the
/// instant or write the pattern.
pub uninterp spec fn utc_formatted(secs: int, pattern: Seq<char>) -> Option<Seq<char>>;

/// The host (if the URL has one) and the path of a URL, or `None` where the
/// text does not parse as a URL.
pub uninterp spec fn url_host_path(text: Seq<char>) -> Option<(Option<Seq<char>>, Seq<char>)>;

/// A URL with name/value pairs appended to its query, form-urlencoded.
pub uninterp spec fn url_with_query(text: Seq<char>, pairs: Seq<(Seq<char>, Seq<char>)>) -> Seq<char>;

/// The tree of a parsed serde_json value; it only moves each node into the
/// matching `Json` variant, a number as its printed text.
#[verifier::external_body]
fn tree_of(v: serde_json::Value) -> Json {
    match v {
        serde_json::Value::Null => Json::Null,
        serde_json::Value::Bool(b) => Json::Bool(b),
        serde_json::Value::Number(n) => Json::Number(n.to_string()),
        serde_json::Value::String(s) => Json::Str(s),
        serde_json::Value::Array(a) => Json::Array(a.into_iter().map(tree_of).collect()),
        serde_json::Value::Object(m) => Json::Object(m.into_iter().map(|(k, v)| (k, tree_of(v))).collect()),
    }
}

/// serde_json's value type, opaque here: it is only handed to `tree_of`.
#[verifier::external_type_specification]
#[verifier::external_body]
pub struct ExJsonValue(serde_json::Value);

/// Relies on serde_json::from_str into a `serde_json::Value`: the tree
/// depends on the text alone.
#[verifier::external_body]
pub(crate) fn parse_json(text: &str) -> (r: Option<Json>)
    ensures
        r == json_parse(text@),
{
    serde_json::from_str::<serde_json::Value>(text).ok().map(tree_of)
}

/// The serde_json value a tree stands for; it only moves each node into
/// the matching `serde_json::Value` variant, a number parsed from its text
/// (a text that is no JSON number, which the library never builds, becomes
/// null).
#[verifier::external_body]
fn value_of(j: &Json) -> serde_json::Value {
    match j {
        Json::Null => serde_json::Value::Null,
        Json::Bool(b) => serde_json::Value::Bool(*b),
        Json::Number(t) => t.parse::<serde_json::Number>().map(serde_json::Value::Number).unwrap_or(serde_json::Value::Null),
        Json::Str(s) => serde_json::Value::String(s.clone()),
        Json::Array(a) => serde_json::Value::Array(a.iter().map(value_of).collect()),
        Json::Object(m) => serde_json::Value::Object(m.iter().map(|(k, v)| (k.clone(), value_of(v))).collect()),
    }
}

/// Relies on the `Display` of `serde_json::Value`, which writes compact
/// JSON and cannot fail.
#[verifier::external_body]
pub(crate) fn write_json(j: &Json) -> (r: String)
    ensures
        r@ == json_text(*j),
{
    value_of(j).to_string()
}

/// Relies on base64's `STANDARD.encode`: four characters for each started
/// group of three bytes. It panics where that length overflows `usize`,
/// which `requires` rules out.
#[verifier::external_body]
pub(crate) fn encode_base64(bytes: &[u8]) -> (r: String)
    requires
        bytes@.len() <= usize::MAX / 2,
    ensures
        r@ == base64_encoded(bytes@),
        r@.len() == (bytes@.len() + 2) / 3 * 4,
{
    base64::engine::general_purpose::STANDARD.encode(bytes)
}

/// Relies on base64's `STANDARD.decode`, which fails on text that is not
/// standard padded base64.
#[verifier::external_body]
pub(crate) fn decode_base64(text: &str) -> (r: Option<Vec<u8>>)
    ensures
        match r {
            Some(b) => base64_decoded(text@) == Some(b@),
            None => base64_decoded(text@) is None,
        },
{
    base64::engine::general_purpose::STANDARD.decode(text).ok()
}

/// Relies on `String::from_utf8`: the text the bytes encode, failing
/// exactly on bytes that are not valid UTF-8.
#[verifier::external_body]
pub(crate) fn string_from_utf8(bytes: Vec<u8>) -> (r: Option<String>)
    ensures
        r is Some <==> valid_utf8(bytes@),
        r is Some ==> r->Some_0@ == decode_utf8(bytes@),
{
    String::from_utf8(bytes).ok()
}

/// Relies on hmac's `Hmac<Sha256>`: `new_from_slice` takes a key of any
/// length (longer ones are hashed first), then `update` and `finalize`,
/// whose tag has SHA-256's 32 bytes.
#[verifier::external_body]
pub(crate) fn sign_hmac_sha256(key: &[u8], message: &[u8]) -> (r: Option<Vec<u8>>)
    ensures
        r is Some,
        r->Some_0@ == hmac_sha256(key@, message@),
        r->Some_0@.len() == 32,
{
    let mut mac = hmac::Hmac::<sha2::Sha256>::new_from_slice(key).ok()?;
    mac.update(message);
    Some(mac.finalize().into_bytes().to_vec())
}

/// Relies on chrono's `DateTime::from_timestamp(secs, 0)` and `format`;
/// a pattern that chrono cannot write gives `None`.
#[verifier::external_body]
pub(crate) fn format_utc(secs: i64, pattern: &str) -> (r: Option<String>)
    ensures
        match r {
            Some(s) => utc_formatted(secs as int, pattern@) == Some(s@),
            None => utc_formatted(secs as int, pattern@) is None,
        },
{
    let instant = chrono::DateTime::from_timestamp(secs, 0)?;
    let mut out = String::new();
    write!(out, "{}", instant.format(pattern)).ok()?;
    Some(out)
}

/// The longest endpoint text, in characters, that the URL calls accept.
pub const MAX_ENDPOINT_LEN: usize = 4096;

/// The most characters, names and values together, appended as a query.
pub const MAX_QUERY_CHARS: usize = 0x1000_0000;

/// The most name/value pairs appended as a query.
pub const MAX_QUERY_PAIRS: usize = 16;

/// The characters of name/value pairs, names and values together.
pub open spec fn query_chars(pairs: Seq<(Seq<char>, Seq<char>)>) -> nat
    decreases pairs.len(),
{
    if pairs.len() == 0 {
        0
    } else {
        query_chars(pairs.drop_last()) + pairs.last().0.len() + pairs.last().1.len()
    }
}

/// Relies on url's `Url::parse`, `host_str` and `path`. The host is a slice
/// of the parsed URL's serialization, which takes at most 4096 bytes per
/// character of the text, plus 16: percent-encoding writes at most 12
/// bytes for a character, and IDNA maps a host character to at most 18
/// code points, each written in at most a dozen punycode characters.
#[verifier::external_body]
pub(crate) fn split_url(text: &str) -> (r: Option<(Option<String>, String)>)
    ensures
        match r {
            Some((h, p)) => url_host_path(text@) == Some((opt_text(h), p@)),
            None => url_host_path(text@) is None,
        },
        r matches Some((Some(h), _)) ==> h@.len() <= 4096 * text@.len() + 16,
{
    url::Url::parse(text).ok().map(|u| (u.host_str().map(|h| h.to_string()), u.path().to_string()))
}

/// Relies on url's `Url::parse`, `query_pairs_mut().extend_pairs` and the
/// URL's `Display`. It parses the same text as `split_url`, so it fails
/// exactly where that does. url panics where the offset of the query or of
/// a fragment after it does not fit in a `u32`. The serialization takes at
/// most 4096 bytes per character of the text plus 16 (see `split_url`),
/// and the query at most 12 bytes per pair character (form-urlencoding of
/// up to four UTF-8 bytes) plus 2 per pair and the `?`; `requires` keeps
/// the sum below `u32::MAX`.
#[verifier::external_body]
pub(crate) fn append_query(text: &str, pairs: &Vec<(String, String)>) -> (r: Option<String>)
    requires
        text@.len() <= MAX_ENDPOINT_LEN,
        query_chars(pair_texts(pairs@)) <= MAX_QUERY_CHARS,
        pairs@.len() <= MAX_QUERY_PAIRS,
    ensures
        r is Some <==> url_host_path(text@) is Some,
        r is Some ==> r->Some_0@ == url_with_query(text@, pair_texts(pairs@)),
{
    let mut u = url::Url::parse(text).ok()?;
    u.query_pairs_mut().extend_pairs(pairs.iter().map(|(k, v)| (k.as_str(), v.as_str())));
    Some(u.to_string())
}

/// Relies on rand's `thread_rng().gen_range(0..bound)`: an index below
/// `bound`, drawn afresh on each call. It panics on an empty range, which
/// `requires` rules out.
#[verifier::external_body]
pub(crate) fn random_below(bound: usize) -> (r: usize)
    requires
        bound > 0,
    ensures
        r < bound,
{
    rand::thread_rng().gen_range(0..bound)
}

/// The text of an optional string.
pub open spec fn opt_text(o: Option<String>) -> Option<Seq<char>> {
    match o {
        Some(s) => Some(s@),
        None => None,
    }
}

/// The texts of name/value pairs.
pub open spec fn pair_texts(pairs: Seq<(String, String)>) -> Seq<(Seq<char>, Seq<char>)> {
    pairs.map_values(|p: (String, String)| (p.0@, p.1@))
}

} // verus!
