use base64::Engine;
use speech_eval::decoder::{decode_messages, parse_word_score};
use speech_eval::json::Json;
use speech_eval::request::SpeechEvaluationRequest;
use speech_eval::service::{
    finish, EvaluateSpeechParams, EvaluationError, IFlytekConfig, IFlytekService, DEFAULT_WS_URL,
};
use speech_eval::session::{Action, Event, Outcome, Phase, Session, SessionState};
use speech_eval::signer::{authorization, canonical_string, sign, sign_url, sign_url_with_date, SignError};

fn request(lang: &str, pinyin: Option<&str>, audio: Vec<u8>) -> SpeechEvaluationRequest {
    SpeechEvaluationRequest {
        audio_data: audio,
        ref_text: "你好".to_string(),
        lang: lang.to_string(),
        core: "sent".to_string(),
        ref_pinyin: pinyin.map(|p| p.to_string()),
        phoneme_output: true,
        audio_encoding: "lame".to_string(),
        sample_rate: 16000,
        channels: 1,
        bit_depth: 16,
    }
}

fn service(url: &str) -> IFlytekService {
    IFlytekService::new(IFlytekConfig {
        app_id: "app".to_string(),
        api_key: "mykey".to_string(),
        api_secret: "secretkey".to_string(),
        ws_url: url.to_string(),
    })
}

fn at<'a>(j: &'a Json, path: &[&str]) -> Option<&'a Json> {
    let mut cur = j;
    for key in path {
        cur = cur.get(key)?;
    }
    Some(cur)
}

fn text_at(j: &Json, path: &[&str]) -> Option<String> {
    at(j, path).and_then(|v| v.as_text()).cloned()
}

fn u64_at(j: &Json, path: &[&str]) -> Option<u64> {
    at(j, path).and_then(|v| v.as_u64())
}

fn b64(s: &str) -> String {
    base64::engine::general_purpose::STANDARD.encode(s.as_bytes())
}

fn final_message(result: &str) -> String {
    format!(
        "{{\"header\":{{\"code\":0,\"status\":2}},\"payload\":{{\"result\":{{\"data\":\"{}\"}}}}}}",
        b64(result)
    )
}

#[test]
fn frames_carry_statuses_zero_one_two() {
    let s = service("wss://example.com/v1/chat");
    let req = request("cn", Some("nǐ hǎo"), vec![1, 2, 3, 4, 5]);
    let mut statuses = Vec::new();
    for phase in [Phase::Start, Phase::Audio, Phase::End] {
        let frame = Json::parse(&s.frame_text(&req, phase)).unwrap();
        statuses.push(u64_at(&frame, &["header", "status"]).unwrap());
        assert_eq!(u64_at(&frame, &["payload", "data", "status"]), Some(statuses[statuses.len() - 1]));
        assert_eq!(u64_at(&frame, &["payload", "data", "seq"]), Some(statuses[statuses.len() - 1]));
    }
    assert_eq!(statuses, vec![0, 1, 2]);
}

#[test]
fn end_frame_exact_text() {
    let s = service("wss://example.com/v1/chat");
    let req = request("cn", None, vec![1]);
    assert_eq!(
        s.create_end_frame(&req),
        "{\"header\":{\"app_id\":\"app\",\"status\":2},\"payload\":{\"data\":{\"audio\":\"\",\"bit_depth\":16,\"channels\":1,\"encoding\":\"lame\",\"sample_rate\":16000,\"seq\":2,\"status\":2}}}"
    );
}

#[test]
fn english_start_frame_has_dictionary_type_and_no_pinyin() {
    let s = service("wss://example.com/v1/chat");
    let req = request("en", None, vec![1]);
    let frame = Json::parse(&s.create_start_frame(&req)).unwrap();
    assert_eq!(text_at(&frame, &["parameter", "st", "dict_type"]), Some("IPA88".to_string()));
    assert!(at(&frame, &["parameter", "st", "refPinyin"]).is_none());
}

#[test]
fn chinese_start_frame_has_no_dictionary_type() {
    let s = service("wss://example.com/v1/chat");
    let req = request("cn", Some("nǐ hǎo"), vec![1]);
    let frame = Json::parse(&s.create_start_frame(&req)).unwrap();
    assert!(at(&frame, &["parameter", "st", "dict_type"]).is_none());
    assert_eq!(text_at(&frame, &["parameter", "st", "refPinyin"]), Some("nǐ hǎo".to_string()));
    assert_eq!(u64_at(&frame, &["parameter", "st", "phoneme_output"]), Some(1));
    assert_eq!(text_at(&frame, &["parameter", "st", "result", "format"]), Some("plain".to_string()));
    assert_eq!(text_at(&frame, &["payload", "data", "audio"]), Some(String::new()));
}

#[test]
fn frames_read_back_audio_parameters() {
    let s = service("wss://example.com/v1/chat");
    let mut req = request("cn", None, vec![9, 9]);
    req.audio_encoding = "speex-wb".to_string();
    req.sample_rate = 8000;
    req.channels = 2;
    req.bit_depth = 8;
    for phase in [Phase::Start, Phase::Audio, Phase::End] {
        let frame = Json::parse(&s.frame_text(&req, phase)).unwrap();
        assert_eq!(text_at(&frame, &["payload", "data", "encoding"]), Some("speex-wb".to_string()));
        assert_eq!(u64_at(&frame, &["payload", "data", "sample_rate"]), Some(8000));
        assert_eq!(u64_at(&frame, &["payload", "data", "channels"]), Some(2));
        assert_eq!(u64_at(&frame, &["payload", "data", "bit_depth"]), Some(8));
    }
}

#[test]
fn end_to_end_example() {
    let s = service("wss://example.com/v1/chat");
    let req = request("cn", Some("nǐ hǎo"), vec![1, 2, 3, 4, 5]);
    let start = Json::parse(&s.create_start_frame(&req)).unwrap();
    assert_eq!(text_at(&start, &["parameter", "st", "refText"]), Some("你好".to_string()));
    assert_eq!(text_at(&start, &["parameter", "st", "refPinyin"]), Some("nǐ hǎo".to_string()));
    let audio = Json::parse(&s.create_audio_frame(&req)).unwrap();
    assert_eq!(text_at(&audio, &["payload", "data", "audio"]), Some("AQIDBAU=".to_string()));

    let reply = final_message(
        "{\"overall\":90,\"pronunciation\":88,\"words\":[{\"word\":\"你好\",\"readType\":0,\"scores\":{\"overall\":90,\"pronunciation\":88}}]}",
    );
    let response = s.parse_response(vec![reply]);
    assert_eq!(response.overall_scores.len(), 2);
    assert_eq!(response.overall_score("overall").map(|t| t.parse::<f32>().unwrap()), Some(90.0));
    assert_eq!(response.overall_score("pronunciation").map(|t| t.parse::<f32>().unwrap()), Some(88.0));
    assert_eq!(response.words[0].word, "你好");
    assert_eq!(response.words[0].read_type, speech_eval::scores::READ_NORMAL);
    assert!(response.error.is_none());
}

#[test]
fn garbage_message_is_skipped() {
    let good = final_message("{\"fluency\":70.5,\"words\":[{\"word\":\"好\"}]}");
    let response = decode_messages(&vec!["not json at all".to_string(), good.clone()]);
    assert_eq!(response.overall_score("fluency"), Some(&"70.5".to_string()));
    assert_eq!(response.words.len(), 1);
    let response = decode_messages(&vec![good, "{broken".to_string()]);
    assert_eq!(response.words.len(), 1);
    assert_eq!(response.words[0].word, "好");
}

#[test]
fn word_without_scores_takes_defaults() {
    let entry = Json::parse("{\"word\":\"你\",\"readType\":2}").unwrap();
    let word = parse_word_score(&entry);
    assert_eq!(word.scores.overall, "0");
    assert_eq!(word.scores.pronunciation, "0");
    assert_eq!(word.scores.tone, None);
    assert_eq!(word.scores.prominence, None);
    assert_eq!(word.read_type, speech_eval::scores::READ_OMISSION);
    assert_eq!(word.span, None);
    assert!(word.phonemes.is_none());
}

#[test]
fn word_fields_and_phonemes() {
    let entry = Json::parse(
        "{\"word\":\"你\",\"pinyin\":\"nǐ\",\"tone\":\"tone3\",\"scores\":{\"overall\":\"x\",\"tone\":92.5},\"span\":{\"start\":10},\"phonemes\":[{\"phoneme\":\"n\",\"pronunciation\":80,\"tone_index\":259,\"phone\":\"n\",\"span\":{\"start\":1,\"end\":4}}]}",
    )
    .unwrap();
    let word = parse_word_score(&entry);
    assert_eq!(word.pinyin.as_deref(), Some("nǐ"));
    assert_eq!(word.tone.as_deref(), Some("tone3"));
    assert_eq!(word.scores.overall, "0");
    assert_eq!(word.scores.pronunciation, "0");
    assert_eq!(word.scores.tone.as_deref(), Some("92.5"));
    assert_eq!(word.read_type, 0);
    assert_eq!(word.span, Some(speech_eval::scores::TimeSpan { start: 10, end: 0 }));
    let phonemes = word.phonemes.unwrap();
    assert_eq!(phonemes.len(), 1);
    assert_eq!(phonemes[0].phoneme, "n");
    assert_eq!(phonemes[0].pronunciation, "80");
    assert_eq!(phonemes[0].tone_index, Some(3));
    assert_eq!(phonemes[0].span, Some(speech_eval::scores::TimeSpan { start: 1, end: 4 }));
}

#[test]
fn empty_phoneme_list_is_absent() {
    let entry = Json::parse("{\"word\":\"你\",\"phonemes\":[]}").unwrap();
    assert!(parse_word_score(&entry).phonemes.is_none());
}

#[test]
fn later_scores_overwrite_and_words_append() {
    let first = final_message("{\"overall\":50,\"tone\":10,\"words\":[{\"word\":\"a\"}]}");
    let second = final_message("{\"overall\":60,\"words\":[{\"word\":\"b\"},{\"word\":\"c\"}]}");
    let response = decode_messages(&vec![first, second]);
    assert_eq!(response.overall_score("overall"), Some(&"60".to_string()));
    assert_eq!(response.overall_score("tone"), Some(&"10".to_string()));
    assert_eq!(response.overall_scores.len(), 2);
    let words: Vec<&str> = response.words.iter().map(|w| w.word.as_str()).collect();
    assert_eq!(words, vec!["a", "b", "c"]);
}

#[test]
fn remote_error_is_recorded_last_wins() {
    let e1 = "{\"header\":{\"code\":10105,\"message\":\"bad key\"}}".to_string();
    let e2 = "{\"header\":{\"code\":1,\"message\":7}}".to_string();
    let ok = "{\"header\":{\"code\":0,\"message\":\"success\"}}".to_string();
    let response = decode_messages(&vec![e1.clone(), ok.clone()]);
    assert_eq!(response.error.as_deref(), Some("bad key"));
    let response = decode_messages(&vec![e1, e2, ok]);
    assert_eq!(response.error.as_deref(), Some("Unknown error"));
}

#[test]
fn error_message_suppresses_its_result() {
    let msg = format!(
        "{{\"header\":{{\"code\":5,\"message\":\"oops\"}},\"payload\":{{\"result\":{{\"data\":\"{}\"}}}}}}",
        b64("{\"overall\":1}")
    );
    let response = decode_messages(&vec![msg]);
    assert_eq!(response.error.as_deref(), Some("oops"));
    assert!(response.overall_scores.is_empty());
}

#[test]
fn bad_base64_result_is_skipped() {
    let msg = "{\"header\":{\"code\":0},\"payload\":{\"result\":{\"data\":\"***\"}}}".to_string();
    let response = decode_messages(&vec![msg]);
    assert!(response.overall_scores.is_empty());
    assert!(response.words.is_empty());
    assert!(response.error.is_none());
}

#[test]
fn signature_matches_known_value() {
    let date = "Tue, 14 Nov 2023 22:13:20 GMT";
    assert_eq!(
        canonical_string("example.com", date, "/v1/chat"),
        "host: example.com\ndate: Tue, 14 Nov 2023 22:13:20 GMT\nGET /v1/chat HTTP/1.1"
    );
    let first = sign("secretkey", "example.com", date, "/v1/chat");
    let second = sign("secretkey", "example.com", date, "/v1/chat");
    assert_eq!(first, "7URirac74r6j1vpBuaxCItL3aEA6NuYQt1cB1lM+BB8=");
    assert_eq!(first, second);
    assert_eq!(authorization("mykey", &first), authorization("mykey", &second));
}

#[test]
fn signed_url_matches_known_value() {
    let url = sign_url("wss://example.com/v1/chat", "mykey", "secretkey", 1700000000).unwrap();
    let expected = "wss://example.com/v1/chat?host=example.com&date=Tue%2C+14+Nov+2023+22%3A13%3A20+GMT&authorization=YXBpX2tleT0ibXlrZXkiLCBhbGdvcml0aG09ImhtYWMtc2hhMjU2IiwgaGVhZGVycz0iaG9zdCBkYXRlIHJlcXVlc3QtbGluZSIsIHNpZ25hdHVyZT0iN1VSaXJhYzc0cjZqMXZwQnVheENJdEwzYUVBNk51WVF0MWNCMWxNK0JCOD0i";
    assert_eq!(url, expected);
    assert_eq!(
        sign_url_with_date("wss://example.com/v1/chat", "mykey", "secretkey", "Tue, 14 Nov 2023 22:13:20 GMT").unwrap(),
        expected
    );
    assert_eq!(service("wss://example.com/v1/chat").generate_auth_url(1700000000).unwrap(), expected);
}

#[test]
fn unparsable_endpoint_is_a_config_error() {
    assert_eq!(sign_url("not a url", "k", "s", 1700000000), Err(SignError::Config));
    assert!(matches!(
        service("::bad").begin(&request("cn", None, vec![1]), 1700000000),
        Err(EvaluationError::Config)
    ));
}

#[test]
fn unrepresentable_clock_is_a_clock_error() {
    assert_eq!(sign_url("wss://example.com/x", "k", "s", i64::MAX), Err(SignError::Clock));
}

#[test]
fn empty_audio_fails_before_signing() {
    assert!(matches!(
        service("::bad").begin(&request("cn", None, Vec::new()), 1700000000),
        Err(EvaluationError::EmptyAudio)
    ));
}

#[test]
fn session_runs_to_success() {
    let s = service("wss://example.com/v1/chat");
    let (mut session, url) = s.begin(&request("cn", None, vec![1]), 1700000000).ok().unwrap();
    assert!(url.starts_with("wss://example.com/v1/chat?host=example.com&date="));
    assert!(matches!(session.step(Event::Connected), Action::Send(Phase::Start)));
    assert!(matches!(session.step(Event::Sent), Action::Send(Phase::Audio)));
    assert!(matches!(session.step(Event::Sent), Action::Send(Phase::End)));
    assert!(matches!(session.step(Event::Sent), Action::Receive));
    let partial = "{\"header\":{\"code\":0,\"status\":1}}".to_string();
    assert!(matches!(session.step(Event::Text(partial)), Action::Receive));
    assert!(matches!(session.step(Event::Other), Action::Receive));
    let last = final_message("{\"overall\":77}");
    assert!(matches!(session.step(Event::Text(last)), Action::Close));
    assert_eq!(session.state, SessionState::Done(Outcome::Success));
    assert!(matches!(session.step(Event::Closed), Action::Idle));
    assert_eq!(session.received.len(), 2);
    let response = finish(&session, Outcome::Success).ok().unwrap();
    assert_eq!(response.overall_score("overall"), Some(&"77".to_string()));
}

#[test]
fn session_failures_close_once() {
    let mut session = Session::new();
    assert!(matches!(session.step(Event::ConnectFailed), Action::Close));
    assert_eq!(session.state, SessionState::Done(Outcome::ConnectFailed));
    assert!(matches!(session.step(Event::TimedOut), Action::Idle));
    assert!(matches!(finish(&session, Outcome::ConnectFailed), Err(EvaluationError::Connect)));

    let mut session = Session::new();
    session.step(Event::Connected);
    session.step(Event::Sent);
    assert!(matches!(session.step(Event::SendFailed), Action::Close));
    assert_eq!(session.state, SessionState::Done(Outcome::SendFailed(Phase::Audio)));

    let mut session = Session::new();
    session.step(Event::Connected);
    session.step(Event::Sent);
    session.step(Event::Sent);
    session.step(Event::Sent);
    let err = "{\"header\":{\"code\":11200,\"message\":\"licence\",\"status\":1}}".to_string();
    session.step(Event::Text(err));
    assert!(matches!(session.step(Event::ReadFailed), Action::Close));
    match finish(&session, Outcome::ProtocolAbort) {
        Err(EvaluationError::ProtocolAbort(partial)) => assert_eq!(partial.error.as_deref(), Some("licence")),
        _ => panic!("expected a protocol abort"),
    }

    let mut session = Session::new();
    session.step(Event::Connected);
    session.step(Event::Sent);
    session.step(Event::Sent);
    session.step(Event::Sent);
    assert!(matches!(session.step(Event::Closed), Action::Close));
    assert_eq!(session.state, SessionState::Done(Outcome::ConnectionClosedEarly));
    assert!(finish(&session, Outcome::ConnectionClosedEarly).is_ok());

    let mut session = Session::new();
    session.step(Event::Connected);
    assert!(matches!(session.step(Event::TimedOut), Action::Close));
    assert!(matches!(finish(&session, Outcome::Timeout), Err(EvaluationError::Timeout(_))));
}

#[test]
fn final_status_detection() {
    assert!(Session::message_is_final("{\"header\":{\"status\":2}}"));
    assert!(!Session::message_is_final("{\"header\":{\"status\":1}}"));
    assert!(!Session::message_is_final("{\"header\":{\"status\":\"2\"}}"));
    assert!(!Session::message_is_final("garbage"));
}

#[test]
fn params_fill_defaults() {
    let params = EvaluateSpeechParams {
        ref_text: "你好".to_string(),
        lang: None,
        core: None,
        ref_pinyin: None,
        phoneme_output: None,
    };
    let req = params.into_request(vec![1], "lame".to_string(), 16000, 1, 16);
    assert_eq!(req.lang, "cn");
    assert_eq!(req.core, "sent");
    assert!(req.phoneme_output);
    let params = EvaluateSpeechParams {
        ref_text: "hi".to_string(),
        lang: Some("en".to_string()),
        core: Some("word".to_string()),
        ref_pinyin: None,
        phoneme_output: Some(false),
    };
    let req = params.into_request(vec![1], "speex".to_string(), 8000, 2, 8);
    assert_eq!(req.lang, "en");
    assert_eq!(req.core, "word");
    assert!(!req.phoneme_output);
    assert_eq!(req.sample_rate, 8000);
}

#[test]
fn speech_tests_test_iflytek_config_default() {
    let config = IFlytekConfig::with_credentials(String::new(), String::new(), String::new());
    assert!(!config.ws_url.is_empty());
    assert_eq!(
        config.ws_url,
        "wss://cn-east-1.ws-api.xf-yun.com/v1/private/s8e098720"
    );
}

#[test]
fn default_endpoint() {
    let config = IFlytekConfig::with_credentials("a".to_string(), "b".to_string(), "c".to_string());
    assert_eq!(config.ws_url, DEFAULT_WS_URL);
    assert_eq!(config.ws_url, "wss://cn-east-1.ws-api.xf-yun.com/v1/private/s8e098720");
}

#[test]
fn json_text_round_trip() {
    let j = Json::parse("{\"a\":[1,true,null,\"x\\\"y\"],\"b\":{\"c\":-2.5}}").unwrap();
    assert_eq!(j.to_text(), "{\"a\":[1,true,null,\"x\\\"y\"],\"b\":{\"c\":-2.5}}");
    assert_eq!(Json::number(18446744073709551615).as_u64(), Some(u64::MAX));
    assert_eq!(Json::parse("18446744073709551616").unwrap().as_u64(), None);
    assert_eq!(Json::parse("3.0").unwrap().as_u64(), None);
}

#[test]
fn params_take_default_audio_description() {
    let params = EvaluateSpeechParams {
        ref_text: "你好".to_string(),
        lang: None,
        core: None,
        ref_pinyin: Some("nǐ hǎo".to_string()),
        phoneme_output: None,
    };
    let req = params.into_default_request(vec![1, 2]);
    assert_eq!(req.audio_encoding, "lame");
    assert_eq!(req.sample_rate, 16000);
    assert_eq!(req.channels, 1);
    assert_eq!(req.bit_depth, 16);
    assert_eq!(req.ref_pinyin.as_deref(), Some("nǐ hǎo"));
}

#[test]
fn rejecting_code_without_message_contributes_nothing() {
    let silent = format!(
        "{{\"header\":{{\"code\":10160}},\"payload\":{{\"result\":{{\"data\":\"{}\"}}}}}}",
        b64("{\"overall\":40,\"words\":[{\"word\":\"x\"}]}")
    );
    let said = "{\"header\":{\"code\":10161,\"message\":\"bad audio\"}}".to_string();
    let response = decode_messages(&vec![silent.clone(), said]);
    assert!(response.words.is_empty());
    assert!(response.overall_scores.is_empty());
    assert_eq!(response.error.as_deref(), Some("bad audio"));
    let response = decode_messages(&vec![silent]);
    assert!(response.words.is_empty());
    assert!(response.error.is_none());
}

#[test]
fn endpoint_with_fragment_is_signed() {
    let url = sign_url("wss://example.com/v1/chat#part", "mykey", "secretkey", 1700000000).unwrap();
    assert!(url.starts_with("wss://example.com/v1/chat?host=example.com&date=Tue%2C+14+Nov+2023+22%3A13%3A20+GMT&authorization="));
    assert!(url.ends_with("#part"));
    let plain = sign_url("wss://example.com/v1/chat", "mykey", "secretkey", 1700000000).unwrap();
    assert_eq!(format!("{}#part", plain), url);
}

#[test]
fn same_host_and_path_sign_alike() {
    let a = sign_url("wss://example.com/v1/chat", "mykey", "secretkey", 1700000000).unwrap();
    let b = sign_url("wss://example.com/v1/chat?x=1", "mykey", "secretkey", 1700000000).unwrap();
    let query = |u: &str| u[u.find("host=").unwrap()..].to_string();
    assert_eq!(query(&a), query(&b));
}
