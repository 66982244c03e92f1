//! Builds the signed connection URL: an RFC 1123 date, an HMAC-SHA256
//! signature over host, date and request line, and an authorization
//! descriptor, appended to the endpoint as query parameters.

use vstd::prelude::*;
use vstd::string::*;
use vstd::utf8::encode_utf8;
use crate::primitives::base64_encoded;
use crate::primitives::hmac_sha256;
use crate::primitives::utc_formatted;
use crate::primitives::url_host_path;
use crate::primitives::url_with_query;
use crate::primitives::pair_texts;
use crate::primitives::encode_base64;
use crate::primitives::sign_hmac_sha256;
use crate::primitives::format_utc;
use crate::primitives::split_url;
use crate::primitives::append_query;
use crate::primitives::query_chars;
use crate::primitives::MAX_ENDPOINT_LEN;

verus! {

/// Why a signed URL could not be built.
#[derive(Debug, Clone, Copy, PartialEq, Eq, Structural)]
pub enum SignError {
    /// The endpoint URL does not parse.
    Config,
    /// The clock reading cannot be written as a date.
    Clock,
}

/// A bound on the API key's length, in characters, under which the
/// authorization descriptor can be base64 encoded on any target.
pub const MAX_KEY_LEN: usize = 0x0100_0000;

/// The strftime pattern of an RFC 1123 date in GMT.
pub open spec fn date_pattern() -> Seq<char> {
    "%a, %d %b %Y %H:%M:%S GMT"@
}

/// The text that is signed: host, date and request line.
pub open spec fn canonical_text(host: Seq<char>, date: Seq<char>, path: Seq<char>) -> Seq<char> {
    "host: "@ + host + "\ndate: "@ + date + "\nGET "@ + path + " HTTP/1.1"@
}

/// The base64 HMAC-SHA256 signature of the canonical text under the secret.
pub open spec fn signature_text(secret: Seq<char>, host: Seq<char>, date: Seq<char>, path: Seq<char>) -> Seq<char> {
    base64_encoded(hmac_sha256(encode_utf8(secret), encode_utf8(canonical_text(host, date, path))))
}

/// The authorization descriptor before it is base64 encoded.
pub open spec fn authorization_text(api_key: Seq<char>, signature: Seq<char>) -> Seq<char> {
    "api_key=\""@ + api_key
        + "\", algorithm=\"hmac-sha256\", headers=\"host date request-line\", signature=\""@
        + signature + "\""@
}

/// The query parameters appended to the endpoint.
pub open spec fn query_pairs(host: Seq<char>, date: Seq<char>, authorization: Seq<char>) -> Seq<(Seq<char>, Seq<char>)> {
    seq![("host"@, host), ("date"@, date), ("authorization"@, authorization)]
}

/// An endpoint that parses as a URL.
pub open spec fn endpoint_ok(base: Seq<char>) -> bool {
    url_host_path(base) is Some
}

/// The longest date text that is signed.
pub const MAX_DATE_LEN: usize = 4096;

/// The date written for a clock reading, where chrono can write it within
/// `MAX_DATE_LEN` characters.
pub open spec fn clock_date(now_secs: int) -> Option<Seq<char>> {
    match utc_formatted(now_secs, date_pattern()) {
        Some(d) => if d.len() <= MAX_DATE_LEN {
            Some(d)
        } else {
            None
        },
        None => None,
    }
}

/// The query parameters signed for an endpoint, credentials and a date:
/// host, date and authorization; `None` where the endpoint is not usable.
pub open spec fn signed_pairs(base: Seq<char>, api_key: Seq<char>, secret: Seq<char>, date: Seq<char>) -> Option<Seq<(Seq<char>, Seq<char>)>> {
    if !endpoint_ok(base) {
        None
    } else {
        match url_host_path(base) {
            Some((h, path)) => {
                let host = match h {
                    Some(t) => t,
                    None => Seq::<char>::empty(),
                };
                let authorization = base64_encoded(
                    encode_utf8(authorization_text(api_key, signature_text(secret, host, date, path))),
                );
                Some(query_pairs(host, date, authorization))
            },
            None => None,
        }
    }
}

/// The signed URL for an endpoint, credentials and a date: `None` where the
/// endpoint is not usable.
pub open spec fn signed_url(base: Seq<char>, api_key: Seq<char>, secret: Seq<char>, date: Seq<char>) -> Option<Seq<char>> {
    match signed_pairs(base, api_key, secret, date) {
        Some(pairs) => Some(url_with_query(base, pairs)),
        None => None,
    }
}

/// A text's UTF-8 encoding takes at most four bytes per character.
proof fn lemma_utf8_length(text: Seq<char>)
    ensures
        encode_utf8(text).len() <= 4 * text.len(),
    decreases text.len(),
{
    if text.len() > 0 {
        lemma_utf8_length(text.drop_first());
    }
}

/// The canonical text that is signed.
pub fn canonical_string(host: &str, date: &str, path: &str) -> (r: String)
    ensures
        r@ == canonical_text(host@, date@, path@),
{
    let mut s = String::from_str("host: ");
    s.append(host);
    s.append("\ndate: ");
    s.append(date);
    s.append("\nGET ");
    s.append(path);
    s.append(" HTTP/1.1");
    s
}

/// Signs host, date and request line with the secret.
pub fn sign(secret: &str, host: &str, date: &str, path: &str) -> (r: String)
    ensures
        r@ == signature_text(secret@, host@, date@, path@),
        r@.len() == 44,
{
    let key = secret.as_bytes();
    let text = canonical_string(host, date, path);
    let message = text.as_str().as_bytes();
    match sign_hmac_sha256(key, message) {
        Some(tag) => encode_base64(tag.as_slice()),
        None => String::new(),
    }
}

/// The authorization descriptor for a key and a signature.
pub fn authorization(api_key: &str, signature: &str) -> (r: String)
    ensures
        r@ == authorization_text(api_key@, signature@),
        r@.len() == api_key@.len() + signature@.len() + 83,
{
    proof {
        reveal_strlit("api_key=\"");
        reveal_strlit("\", algorithm=\"hmac-sha256\", headers=\"host date request-line\", signature=\"");
        reveal_strlit("\"");
    }
    let mut s = String::from_str("api_key=\"");
    s.append(api_key);
    s.append("\", algorithm=\"hmac-sha256\", headers=\"host date request-line\", signature=\"");
    s.append(signature);
    s.append("\"");
    s
}

/// The signed URL for an endpoint, credentials and a date already written
/// out.
pub fn sign_url_with_date(base: &str, api_key: &str, secret: &str, date: &str) -> (r: Result<String, SignError>)
    requires
        api_key@.len() <= MAX_KEY_LEN,
        base@.len() <= MAX_ENDPOINT_LEN,
        date@.len() <= MAX_DATE_LEN,
    ensures
        match r {
            Ok(u) => signed_url(base@, api_key@, secret@, date@) == Some(u@),
            Err(e) => e == SignError::Config && signed_url(base@, api_key@, secret@, date@) is None,
        },
{
    match split_url(base) {
        Some((h, path)) => {
            let host = match h {
                Some(t) => t,
                None => String::new(),
            };
            let signature = sign(secret, host.as_str(), date, path.as_str());
            let descriptor = authorization(api_key, signature.as_str());
            let descriptor_bytes = descriptor.as_str().as_bytes();
            proof {
                lemma_utf8_length(descriptor@);
            }
            let encoded = encode_base64(descriptor_bytes);
            let pairs = vec![
                (String::from_str("host"), host),
                (String::from_str("date"), String::from_str(date)),
                (String::from_str("authorization"), encoded),
            ];
            proof {
                reveal_strlit("host");
                reveal_strlit("date");
                reveal_strlit("authorization");
                let texts = pair_texts(pairs@);
                assert(texts =~= query_pairs(host@, date@, encoded@));
                assert(texts.drop_last().drop_last().drop_last() =~= Seq::<(Seq<char>, Seq<char>)>::empty());
                assert(query_chars(texts) == 4 + host@.len() + 4 + date@.len() + 13 + encoded@.len()) by {
                    reveal_with_fuel(query_chars, 4);
                }
            }
            match append_query(base, &pairs) {
                Some(u) => Ok(u),
                None => Err(SignError::Config),
            }
        },
        None => Err(SignError::Config),
    }
}

/// The signed URL for an endpoint and credentials at a clock reading, in
/// whole seconds since the Unix epoch.
pub fn sign_url(base: &str, api_key: &str, secret: &str, now_secs: i64) -> (r: Result<String, SignError>)
    requires
        api_key@.len() <= MAX_KEY_LEN,
        base@.len() <= MAX_ENDPOINT_LEN,
    ensures
        !endpoint_ok(base@) ==> r == Err::<String, SignError>(SignError::Config),
        endpoint_ok(base@) && clock_date(now_secs as int) is None
            ==> r == Err::<String, SignError>(SignError::Clock),
        endpoint_ok(base@) && clock_date(now_secs as int) is Some ==> r is Ok
            && Some(r->Ok_0@) == signed_url(base@, api_key@, secret@, clock_date(now_secs as int)->Some_0),
{
    match split_url(base) {
        None => Err(SignError::Config),
        Some(_) => match format_utc(now_secs, "%a, %d %b %Y %H:%M:%S GMT") {
            Some(date) => if date.as_str().unicode_len() <= MAX_DATE_LEN {
                sign_url_with_date(base, api_key, secret, date.as_str())
            } else {
                Err(SignError::Clock)
            },
            None => Err(SignError::Clock),
        },
    }
}

/// Signing is a function of its inputs: the same secret, host, date and
/// path give byte-identical signatures, and with the same key
/// byte-identical authorization descriptors.
pub proof fn lemma_signing_deterministic(
    secret: Seq<char>,
    api_key: Seq<char>,
    host: Seq<char>,
    date: Seq<char>,
    path: Seq<char>,
    first: String,
    second: String,
    first_auth: String,
    second_auth: String,
)
    requires
        first@ == signature_text(secret, host, date, path),
        second@ == signature_text(secret, host, date, path),
        first_auth@ == authorization_text(api_key, first@),
        second_auth@ == authorization_text(api_key, second@),
    ensures
        first@ == second@,
        first_auth@ == second_auth@,
{
}

/// Two usable endpoints with the same host and path, signed with the same
/// key and secret at the same date, get byte-identical query parameters:
/// the same signature inside the same authorization value. With the same
/// endpoint text the whole URLs are equal.
pub proof fn lemma_signed_pairs_deterministic(
    first_base: Seq<char>,
    second_base: Seq<char>,
    api_key: Seq<char>,
    secret: Seq<char>,
    date: Seq<char>,
)
    requires
        endpoint_ok(first_base),
        endpoint_ok(second_base),
        url_host_path(first_base) == url_host_path(second_base),
    ensures
        signed_pairs(first_base, api_key, secret, date) is Some,
        signed_pairs(first_base, api_key, secret, date) == signed_pairs(second_base, api_key, secret, date),
        first_base == second_base ==> signed_url(first_base, api_key, secret, date) == signed_url(second_base, api_key, secret, date),
{
}

} // verus!
