//! The three messages that the client sends: start, audio and end. Each is
//! built as a `Json` tree whose shape is stated exactly, then written out.

use vstd::prelude::*;
use crate::json::Json;
use crate::json::names_are;
use crate::json::member_at;
use crate::json::is_text;
use crate::json::is_number;
use crate::json::text_eq;
use crate::json::field;
use crate::json::field_of;
use crate::json::text_of;
use crate::json::u64_of;
use crate::json::decimal;
use crate::json::lemma_field_at;
use crate::json::lemma_field_absent;
use crate::json::lemma_decimal_round_trip;
use crate::primitives::base64_encoded;
use crate::primitives::encode_base64;
use crate::request::SpeechEvaluationRequest;

verus! {

pub open spec fn header_names() -> Seq<Seq<char>> {
    seq!["app_id"@, "status"@]
}

pub open spec fn data_names() -> Seq<Seq<char>> {
    seq!["encoding"@, "sample_rate"@, "channels"@, "bit_depth"@, "status"@, "seq"@, "audio"@]
}

pub open spec fn result_names() -> Seq<Seq<char>> {
    seq!["encoding"@, "compress"@, "format"@]
}

/// The members of the start frame's parameter block: the reference
/// phonetics only when given, the dictionary type only for English.
pub open spec fn st_names(req: SpeechEvaluationRequest) -> Seq<Seq<char>> {
    let base = seq!["lang"@, "core"@, "refText"@, "phoneme_output"@, "result"@];
    let with_pinyin = if req.ref_pinyin is Some {
        base.push("refPinyin"@)
    } else {
        base
    };
    if req.lang@ == "en"@ {
        with_pinyin.push("dict_type"@)
    } else {
        with_pinyin
    }
}

/// `{"app_id": app_id, "status": status}`
pub open spec fn header_shape(t: Json, app_id: Seq<char>, status: nat) -> bool {
    &&& names_are(t, header_names())
    &&& is_text(member_at(t, 0), app_id)
    &&& is_number(member_at(t, 1), status)
}

/// The audio description shared by all three frames, with the frame's
/// status, a sequence number equal to it, and the audio text.
pub open spec fn data_shape(t: Json, req: SpeechEvaluationRequest, status: nat, audio: Seq<char>) -> bool {
    &&& names_are(t, data_names())
    &&& is_text(member_at(t, 0), req.audio_encoding@)
    &&& is_number(member_at(t, 1), req.sample_rate as nat)
    &&& is_number(member_at(t, 2), req.channels as nat)
    &&& is_number(member_at(t, 3), req.bit_depth as nat)
    &&& is_number(member_at(t, 4), status)
    &&& is_number(member_at(t, 5), status)
    &&& is_text(member_at(t, 6), audio)
}

/// `{"data": ...}`
pub open spec fn payload_shape(t: Json, req: SpeechEvaluationRequest, status: nat, audio: Seq<char>) -> bool {
    &&& names_are(t, seq!["data"@])
    &&& data_shape(member_at(t, 0), req, status, audio)
}

/// The fixed result-format block.
pub open spec fn result_shape(t: Json) -> bool {
    &&& names_are(t, result_names())
    &&& is_text(member_at(t, 0), "utf8"@)
    &&& is_text(member_at(t, 1), "raw"@)
    &&& is_text(member_at(t, 2), "plain"@)
}

/// The start frame's parameter block.
pub open spec fn st_shape(t: Json, req: SpeechEvaluationRequest) -> bool {
    &&& names_are(t, st_names(req))
    &&& is_text(member_at(t, 0), req.lang@)
    &&& is_text(member_at(t, 1), req.core@)
    &&& is_text(member_at(t, 2), req.ref_text@)
    &&& is_number(member_at(t, 3), if req.phoneme_output { 1 } else { 0 })
    &&& result_shape(member_at(t, 4))
    &&& req.ref_pinyin is Some ==> is_text(member_at(t, 5), req.ref_pinyin->Some_0@)
    &&& req.lang@ == "en"@ ==> is_text(member_at(t, st_names(req).len() - 1), "IPA88"@)
}

pub open spec fn start_frame_shape(t: Json, app_id: Seq<char>, req: SpeechEvaluationRequest) -> bool {
    &&& names_are(t, seq!["header"@, "parameter"@, "payload"@])
    &&& header_shape(member_at(t, 0), app_id, 0)
    &&& names_are(member_at(t, 1), seq!["st"@])
    &&& st_shape(member_at(member_at(t, 1), 0), req)
    &&& payload_shape(member_at(t, 2), req, 0, ""@)
}

pub open spec fn audio_frame_shape(t: Json, app_id: Seq<char>, req: SpeechEvaluationRequest) -> bool {
    &&& names_are(t, seq!["header"@, "payload"@])
    &&& header_shape(member_at(t, 0), app_id, 1)
    &&& payload_shape(member_at(t, 1), req, 1, base64_encoded(req.audio_data@))
}

pub open spec fn end_frame_shape(t: Json, app_id: Seq<char>, req: SpeechEvaluationRequest) -> bool {
    &&& names_are(t, seq!["header"@, "payload"@])
    &&& header_shape(member_at(t, 0), app_id, 2)
    &&& payload_shape(member_at(t, 1), req, 2, ""@)
}

fn header(app_id: &str, status: u64) -> (r: Json)
    ensures
        header_shape(r, app_id@, status as nat),
{
    let r = Json::Object(vec![
        (String::from_str("app_id"), Json::text(app_id)),
        (String::from_str("status"), Json::number(status)),
    ]);
    proof {
        reveal_strlit("app_id");
        reveal_strlit("status");
    }
    r
}

fn payload(req: &SpeechEvaluationRequest, status: u64, audio: &str) -> (r: Json)
    ensures
        payload_shape(r, *req, status as nat, audio@),
{
    let data = Json::Object(vec![
        (String::from_str("encoding"), Json::text(req.audio_encoding.as_str())),
        (String::from_str("sample_rate"), Json::number(req.sample_rate as u64)),
        (String::from_str("channels"), Json::number(req.channels as u64)),
        (String::from_str("bit_depth"), Json::number(req.bit_depth as u64)),
        (String::from_str("status"), Json::number(status)),
        (String::from_str("seq"), Json::number(status)),
        (String::from_str("audio"), Json::text(audio)),
    ]);
    let r = Json::Object(vec![(String::from_str("data"), data)]);
    proof {
        reveal_strlit("data");
        reveal_strlit("encoding");
        reveal_strlit("sample_rate");
        reveal_strlit("channels");
        reveal_strlit("bit_depth");
        reveal_strlit("status");
        reveal_strlit("seq");
        reveal_strlit("audio");
    }
    r
}

fn result_block() -> (r: Json)
    ensures
        result_shape(r),
{
    let r = Json::Object(vec![
        (String::from_str("encoding"), Json::text("utf8")),
        (String::from_str("compress"), Json::text("raw")),
        (String::from_str("format"), Json::text("plain")),
    ]);
    proof {
        reveal_strlit("encoding");
        reveal_strlit("compress");
        reveal_strlit("format");
    }
    r
}

/// The start frame's parameter block.
fn st_block(req: &SpeechEvaluationRequest) -> (r: Json)
    ensures
        st_shape(r, *req),
{
    let mut members: Vec<(String, Json)> = vec![
        (String::from_str("lang"), Json::text(req.lang.as_str())),
        (String::from_str("core"), Json::text(req.core.as_str())),
        (String::from_str("refText"), Json::text(req.ref_text.as_str())),
        (String::from_str("phoneme_output"), Json::number(if req.phoneme_output { 1 } else { 0 })),
        (String::from_str("result"), result_block()),
    ];
    proof {
        reveal_strlit("lang");
        reveal_strlit("core");
        reveal_strlit("refText");
        reveal_strlit("phoneme_output");
        reveal_strlit("result");
        reveal_strlit("refPinyin");
        reveal_strlit("dict_type");
        reveal_strlit("IPA88");
        reveal_strlit("en");
    }
    let ghost base = members@;
    match &req.ref_pinyin {
        Some(p) => {
            members.push((String::from_str("refPinyin"), Json::text(p.as_str())));
        },
        None => {},
    }
    let ghost with_pinyin = members@;
    if text_eq(req.lang.as_str(), "en") {
        members.push((String::from_str("dict_type"), Json::text("IPA88")));
    }
    let r = Json::Object(members);
    proof {
        assert(forall|i: int| 0 <= i < base.len() ==> with_pinyin[i] == base[i]);
        assert(forall|i: int| 0 <= i < with_pinyin.len() ==> members@[i] == with_pinyin[i]);
        assert(names_are(r, st_names(*req)));
    }
    r
}

/// The start frame: header status 0, the parameter block, and the audio
/// description with status 0, sequence 0 and no audio.
pub fn start_frame(app_id: &str, req: &SpeechEvaluationRequest) -> (r: Json)
    ensures
        start_frame_shape(r, app_id@, *req),
{
    let st = st_block(req);
    let parameter = Json::Object(vec![(String::from_str("st"), st)]);
    let r = Json::Object(vec![
        (String::from_str("header"), header(app_id, 0)),
        (String::from_str("parameter"), parameter),
        (String::from_str("payload"), payload(req, 0, "")),
    ]);
    proof {
        reveal_strlit("st");
        reveal_strlit("header");
        reveal_strlit("parameter");
        reveal_strlit("payload");
        reveal_strlit("");
    }
    r
}

/// The audio frame: header status 1, and the audio description with status
/// 1, sequence 1 and the whole audio in base64.
pub fn audio_frame(app_id: &str, req: &SpeechEvaluationRequest) -> (r: Json)
    requires
        req.audio_data@.len() <= usize::MAX / 2,
    ensures
        audio_frame_shape(r, app_id@, *req),
{
    let audio = encode_base64(req.audio_data.as_slice());
    let r = Json::Object(vec![
        (String::from_str("header"), header(app_id, 1)),
        (String::from_str("payload"), payload(req, 1, audio.as_str())),
    ]);
    proof {
        reveal_strlit("header");
        reveal_strlit("payload");
    }
    r
}

/// The end frame: header status 2, and the audio description with status
/// 2, sequence 2 and no audio.
pub fn end_frame(app_id: &str, req: &SpeechEvaluationRequest) -> (r: Json)
    ensures
        end_frame_shape(r, app_id@, *req),
{
    let r = Json::Object(vec![
        (String::from_str("header"), header(app_id, 2)),
        (String::from_str("payload"), payload(req, 2, "")),
    ]);
    proof {
        reveal_strlit("header");
        reveal_strlit("payload");
        reveal_strlit("");
    }
    r
}

/// The status in a frame's header, read as the server reads it.
pub open spec fn header_status(t: Json) -> Option<u64> {
    u64_of(field_of(field(t, "header"@), "status"@))
}

/// The audio description of a frame, read back: encoding, sample rate,
/// channels and bit depth.
pub open spec fn audio_params(t: Json) -> Option<(Seq<char>, u64, u64, u64)> {
    let data = field_of(field(t, "payload"@), "data"@);
    match (
        text_of(field_of(data, "encoding"@)),
        u64_of(field_of(data, "sample_rate"@)),
        u64_of(field_of(data, "channels"@)),
        u64_of(field_of(data, "bit_depth"@)),
    ) {
        (Some(e), Some(r), Some(c), Some(b)) => Some((e, r, c, b)),
        _ => None,
    }
}

/// The start frame's parameter block, read back.
pub open spec fn st_of(t: Json) -> Option<Json> {
    field_of(field(t, "parameter"@), "st"@)
}

proof fn lemma_number_reads(t: Json, n: nat)
    requires
        is_number(t, n),
        n <= u64::MAX,
    ensures
        u64_of(Some(t)) == Some(n as u64),
{
    lemma_decimal_round_trip(n);
}

proof fn lemma_header_status(h: Json, app_id: Seq<char>, status: nat)
    requires
        header_shape(h, app_id, status),
        status <= u64::MAX,
    ensures
        u64_of(field(h, "status"@)) == Some(status as u64),
{
    reveal_strlit("app_id");
    reveal_strlit("status");
    assert(header_names()[0] != header_names()[1]) by {
        assert(header_names()[0][0] != header_names()[1][0]);
    }
    lemma_field_at(h, header_names(), 1);
    lemma_number_reads(member_at(h, 1), status);
}

proof fn lemma_data_params(d: Json, req: SpeechEvaluationRequest, status: nat, audio: Seq<char>)
    requires
        data_shape(d, req, status, audio),
    ensures
        text_of(field(d, "encoding"@)) == Some(req.audio_encoding@),
        u64_of(field(d, "sample_rate"@)) == Some(req.sample_rate as u64),
        u64_of(field(d, "channels"@)) == Some(req.channels as u64),
        u64_of(field(d, "bit_depth"@)) == Some(req.bit_depth as u64),
{
    reveal_strlit("encoding");
    reveal_strlit("sample_rate");
    reveal_strlit("channels");
    reveal_strlit("bit_depth");
    let n = data_names();
    assert(n[0] != n[1] && n[0] != n[2] && n[1] != n[2] && n[0] != n[3] && n[1] != n[3] && n[2] != n[3]) by {
        assert(n[0].len() == 8 && n[1].len() == 11 && n[2].len() == 8 && n[3].len() == 9);
        assert(n[0][0] != n[2][0]);
    }
    lemma_field_at(d, n, 0);
    lemma_field_at(d, n, 1);
    lemma_field_at(d, n, 2);
    lemma_field_at(d, n, 3);
    lemma_number_reads(member_at(d, 1), req.sample_rate as nat);
    lemma_number_reads(member_at(d, 2), req.channels as nat);
    lemma_number_reads(member_at(d, 3), req.bit_depth as nat);
}

proof fn lemma_payload_params(t: Json, req: SpeechEvaluationRequest, status: nat, audio: Seq<char>, at: int, names: Seq<Seq<char>>)
    requires
        names_are(t, names),
        0 <= at < names.len(),
        names[at] == "payload"@,
        forall|j: int| 0 <= j < at ==> #[trigger] names[j] != names[at],
        payload_shape(member_at(t, at), req, status, audio),
    ensures
        audio_params(t) == Some((req.audio_encoding@, req.sample_rate as u64, req.channels as u64, req.bit_depth as u64)),
{
    reveal_strlit("data");
    lemma_field_at(t, names, at);
    let p = member_at(t, at);
    lemma_field_at(p, seq!["data"@], 0);
    lemma_data_params(member_at(p, 0), req, status, audio);
}

/// The three frames of one request carry the header statuses 0, 1 and 2,
/// in the order in which they are sent.
pub proof fn lemma_frame_status_sequence(
    start: Json,
    audio: Json,
    end: Json,
    app_id: Seq<char>,
    req: SpeechEvaluationRequest,
)
    requires
        start_frame_shape(start, app_id, req),
        audio_frame_shape(audio, app_id, req),
        end_frame_shape(end, app_id, req),
    ensures
        seq![header_status(start), header_status(audio), header_status(end)]
            == seq![Some(0u64), Some(1u64), Some(2u64)],
{
    reveal_strlit("header");
    lemma_field_at(start, seq!["header"@, "parameter"@, "payload"@], 0);
    lemma_field_at(audio, seq!["header"@, "payload"@], 0);
    lemma_field_at(end, seq!["header"@, "payload"@], 0);
    lemma_header_status(member_at(start, 0), app_id, 0);
    lemma_header_status(member_at(audio, 0), app_id, 1);
    lemma_header_status(member_at(end, 0), app_id, 2);
}

/// Reading a frame back with the same schema gives the request's
/// encoding, sample rate, channels and bit depth, for each of the three
/// frames.
pub proof fn lemma_audio_params_read_back(
    start: Json,
    audio: Json,
    end: Json,
    app_id: Seq<char>,
    req: SpeechEvaluationRequest,
)
    requires
        start_frame_shape(start, app_id, req),
        audio_frame_shape(audio, app_id, req),
        end_frame_shape(end, app_id, req),
    ensures
        audio_params(start) == Some((req.audio_encoding@, req.sample_rate as u64, req.channels as u64, req.bit_depth as u64)),
        audio_params(audio) == audio_params(start),
        audio_params(end) == audio_params(start),
{
    reveal_strlit("header");
    reveal_strlit("parameter");
    reveal_strlit("payload");
    let three = seq!["header"@, "parameter"@, "payload"@];
    let two = seq!["header"@, "payload"@];
    assert(three[0] != three[2] && three[1] != three[2]) by {
        assert(three[0].len() == 6 && three[1].len() == 9 && three[2].len() == 7);
    }
    assert(two[0] != two[1]) by {
        assert(two[0].len() == 6 && two[1].len() == 7);
    }
    lemma_payload_params(start, req, 0, ""@, 2, three);
    lemma_payload_params(audio, req, 1, base64_encoded(req.audio_data@), 1, two);
    lemma_payload_params(end, req, 2, ""@, 1, two);
}

/// The dictionary type is present, with its fixed value, exactly for
/// English; an English request without reference phonetics carries no
/// reference-phonetics field.
pub proof fn lemma_language_fields(start: Json, app_id: Seq<char>, req: SpeechEvaluationRequest)
    requires
        start_frame_shape(start, app_id, req),
    ensures
        req.lang@ == "en"@ ==> text_of(field_of(st_of(start), "dict_type"@)) == Some("IPA88"@),
        req.lang@ != "en"@ ==> field_of(st_of(start), "dict_type"@) is None,
        req.lang@ == "en"@ && req.ref_pinyin is None ==> field_of(st_of(start), "refPinyin"@) is None,
        req.ref_pinyin is Some ==> text_of(field_of(st_of(start), "refPinyin"@)) == Some(req.ref_pinyin->Some_0@),
{
    reveal_strlit("header");
    reveal_strlit("parameter");
    reveal_strlit("payload");
    reveal_strlit("st");
    reveal_strlit("lang");
    reveal_strlit("core");
    reveal_strlit("refText");
    reveal_strlit("phoneme_output");
    reveal_strlit("result");
    reveal_strlit("refPinyin");
    reveal_strlit("dict_type");
    reveal_strlit("en");
    let three = seq!["header"@, "parameter"@, "payload"@];
    assert(three[0] != three[1]) by {
        assert(three[0].len() == 6 && three[1].len() == 9);
    }
    lemma_field_at(start, three, 1);
    let param = member_at(start, 1);
    lemma_field_at(param, seq!["st"@], 0);
    let st = member_at(param, 0);
    let names = st_names(req);
    assert(st_of(start) == Some(st));
    let k = names.len() - 1;
    if req.lang@ == "en"@ {
        assert forall|j: int| 0 <= j < k implies #[trigger] names[j] != names[k] by {
            assert(names[k] == "dict_type"@);
            assert(names[j].len() != 9 || names[j][0] != 'd');
        }
        lemma_field_at(st, names, k);
    } else {
        assert(!names.contains("dict_type"@)) by {
            if names.contains("dict_type"@) {
                let j = choose|j: int| 0 <= j < names.len() && names[j] == "dict_type"@;
                assert(names[j].len() != 9 || names[j][0] != 'd');
            }
        }
        lemma_field_absent(st, names, "dict_type"@);
    }
    if req.ref_pinyin is None {
        assert(!names.contains("refPinyin"@)) by {
            if names.contains("refPinyin"@) {
                let j = choose|j: int| 0 <= j < names.len() && names[j] == "refPinyin"@;
                assert(names[j].len() != 9 || names[j][3] != 'P');
            }
        }
        lemma_field_absent(st, names, "refPinyin"@);
    } else {
        assert forall|j: int| 0 <= j < 5 implies #[trigger] names[j] != names[5] by {
            assert(names[5] == "refPinyin"@);
            assert(names[j].len() != 9 || names[j][3] != 'P');
        }
        lemma_field_at(st, names, 5);
    }
}

} // verus!
