use speech_eval::request::SpeechEvaluationRequest;
use speech_eval::scores::{SpeechEvaluationResponse, WordScore, WordScores};
use speech_eval::service::{IFlytekConfig, IFlytekService};

fn create_test_request() -> SpeechEvaluationRequest {
    SpeechEvaluationRequest {
        audio_data: b"test audio data".to_vec(),
        ref_text: "你好".to_string(),
        lang: "cn".to_string(),
        core: "sent".to_string(),
        ref_pinyin: Some("nǐ hǎo".to_string()),
        phoneme_output: true,
        audio_encoding: "lame".to_string(),
        sample_rate: 16000,
        channels: 1,
        bit_depth: 16,
    }
}

fn create_test_service() -> IFlytekService {
    let config = IFlytekConfig {
        app_id: "test_app_id".to_string(),
        api_key: "test_api_key".to_string(),
        api_secret: "test_api_secret".to_string(),
        ws_url: "wss://cn-east-1.ws-api.xf-yun.com/v1/private/s8e098720".to_string(),
    };
    IFlytekService::new(config)
}

fn create_test_audio_data() -> Vec<u8> {
    vec![0; 1024]
}

fn create_chinese_evaluation_request() -> SpeechEvaluationRequest {
    SpeechEvaluationRequest {
        audio_data: create_test_audio_data(),
        ref_text: "你好世界".to_string(),
        lang: "cn".to_string(),
        core: "sent".to_string(),
        ref_pinyin: Some("nǐ hǎo shì jiè".to_string()),
        phoneme_output: true,
        audio_encoding: "lame".to_string(),
        sample_rate: 16000,
        channels: 1,
        bit_depth: 16,
    }
}

fn create_english_evaluation_request() -> SpeechEvaluationRequest {
    SpeechEvaluationRequest {
        audio_data: create_test_audio_data(),
        ref_text: "Hello world".to_string(),
        lang: "en".to_string(),
        core: "sent".to_string(),
        ref_pinyin: None,
        phoneme_output: true,
        audio_encoding: "lame".to_string(),
        sample_rate: 16000,
        channels: 1,
        bit_depth: 16,
    }
}

fn score_value(text: &String) -> f32 {
    text.parse::<f32>().unwrap()
}

#[test]
fn mod_test_speech_evaluation_request_creation() {
    let audio_data = vec![1u8, 2, 3, 4, 5];
    let request = SpeechEvaluationRequest {
        audio_data: audio_data.clone(),
        ref_text: "你好".to_string(),
        lang: "cn".to_string(),
        core: "sent".to_string(),
        ref_pinyin: Some("nǐ hǎo".to_string()),
        phoneme_output: true,
        audio_encoding: "lame".to_string(),
        sample_rate: 16000,
        channels: 1,
        bit_depth: 16,
    };

    assert_eq!(request.audio_data, audio_data);
    assert_eq!(request.ref_text, "你好");
    assert_eq!(request.lang, "cn");
    assert_eq!(request.core, "sent");
    assert_eq!(request.ref_pinyin, Some("nǐ hǎo".to_string()));
    assert!(request.phoneme_output);
    assert_eq!(request.audio_encoding, "lame");
    assert_eq!(request.sample_rate, 16000);
    assert_eq!(request.channels, 1);
    assert_eq!(request.bit_depth, 16);
}

#[test]
fn test_iflytek_service_creation() {
    let config = IFlytekConfig {
        app_id: "test_app".to_string(),
        api_key: "test_key".to_string(),
        api_secret: "test_secret".to_string(),
        ws_url: "wss://test.example.com".to_string(),
    };

    let service = IFlytekService::new(config.clone());
    assert_eq!(service.config().app_id, config.app_id);
    assert_eq!(service.config().api_key, config.api_key);
}

#[test]
fn test_speech_evaluation_response_structure() {
    let overall_scores = vec![
        ("pronunciation".to_string(), "85.5".to_string()),
        ("fluency".to_string(), "78.0".to_string()),
    ];

    let word_score = WordScore {
        word: "你好".to_string(),
        pinyin: Some("nǐ hǎo".to_string()),
        tone: Some("tone3_tone3".to_string()),
        scores: WordScores {
            overall: "90.0".to_string(),
            pronunciation: "88.0".to_string(),
            tone: Some("92.0".to_string()),
            prominence: Some("85.0".to_string()),
        },
        read_type: 0,
        span: None,
        phonemes: None,
    };

    let response = SpeechEvaluationResponse {
        overall_scores,
        words: vec![word_score.clone()],
        error: None,
    };

    assert_eq!(response.overall_scores.len(), 2);
    assert_eq!(response.overall_score("pronunciation").map(score_value), Some(85.5));
    assert_eq!(response.words.len(), 1);
    assert_eq!(response.words[0].word, "你好");
    assert_eq!(score_value(&response.words[0].scores.pronunciation), 88.0);
    assert!(response.error.is_none());
}

#[test]
fn test_word_score_read_types() {
    let normal_word = WordScore {
        word: "你好".to_string(),
        pinyin: None,
        tone: None,
        scores: WordScores {
            overall: "85.0".to_string(),
            pronunciation: "85.0".to_string(),
            tone: None,
            prominence: None,
        },
        read_type: 0,
        span: None,
        phonemes: None,
    };
    assert_eq!(normal_word.read_type, 0);

    let insertion_word = WordScore {
        word: "额外".to_string(),
        pinyin: None,
        tone: None,
        scores: WordScores {
            overall: "0.0".to_string(),
            pronunciation: "0.0".to_string(),
            tone: None,
            prominence: None,
        },
        read_type: 1,
        span: None,
        phonemes: None,
    };
    assert_eq!(insertion_word.read_type, 1);

    let omission_word = WordScore {
        word: "遗漏".to_string(),
        pinyin: None,
        tone: None,
        scores: WordScores {
            overall: "0.0".to_string(),
            pronunciation: "0.0".to_string(),
            tone: None,
            prominence: None,
        },
        read_type: 2,
        span: None,
        phonemes: None,
    };
    assert_eq!(omission_word.read_type, 2);
}

#[test]
fn test_service_clone() {
    let config = IFlytekConfig {
        app_id: "test_app".to_string(),
        api_key: "test_key".to_string(),
        api_secret: "test_secret".to_string(),
        ws_url: "wss://test.example.com".to_string(),
    };

    let service1 = IFlytekService::new(config);
    let service2 = service1.clone();

    assert_eq!(service1.config().app_id, service2.config().app_id);
    assert_eq!(service1.config().api_key, service2.config().api_key);
}

#[test]
fn test_iflytek_config_creation() {
    let config = IFlytekConfig {
        app_id: "test_app_id".to_string(),
        api_key: "test_api_key".to_string(),
        api_secret: "test_api_secret".to_string(),
        ws_url: "wss://example.com/test".to_string(),
    };

    let service = IFlytekService::new(config.clone());

    assert!(!service.config().app_id.is_empty());
    assert!(!service.config().api_key.is_empty());
    assert!(!service.config().api_secret.is_empty());
    assert!(!service.config().ws_url.is_empty());
}

#[test]
fn speech_tests_test_speech_evaluation_request_creation() {
    let audio_data = b"test audio data".to_vec();
    let request = SpeechEvaluationRequest {
        audio_data: audio_data.clone(),
        ref_text: "你好".to_string(),
        lang: "cn".to_string(),
        core: "sent".to_string(),
        ref_pinyin: Some("nǐ hǎo".to_string()),
        phoneme_output: true,
        audio_encoding: "lame".to_string(),
        sample_rate: 16000,
        channels: 1,
        bit_depth: 16,
    };

    assert_eq!(request.audio_data, audio_data);
    assert_eq!(request.ref_text, "你好");
    assert_eq!(request.lang, "cn");
    assert_eq!(request.core, "sent");
    assert_eq!(request.ref_pinyin, Some("nǐ hǎo".to_string()));
    assert!(request.phoneme_output);
    assert_eq!(request.audio_encoding, "lame");
    assert_eq!(request.sample_rate, 16000);
    assert_eq!(request.channels, 1);
    assert_eq!(request.bit_depth, 16);
}

#[test]
fn test_iflytek_service_clone() {
    let config = IFlytekConfig {
        app_id: "test_app_id".to_string(),
        api_key: "test_api_key".to_string(),
        api_secret: "test_api_secret".to_string(),
        ws_url: "wss://example.com/test".to_string(),
    };

    let service1 = IFlytekService::new(config);
    let service2 = service1.clone();

    assert_eq!(service1.config().app_id, service2.config().app_id);
    assert_eq!(service1.config().api_key, service2.config().api_key);
    assert_eq!(service1.config().api_secret, service2.config().api_secret);
    assert_eq!(service1.config().ws_url, service2.config().ws_url);
}

#[test]
fn test_request_parameters() {
    let request = create_test_request();

    assert_eq!(request.lang, "cn");
    assert_eq!(request.core, "sent");
    assert!(request.phoneme_output);

    assert_eq!(request.audio_encoding, "lame");
    assert_eq!(request.sample_rate, 16000);
    assert_eq!(request.channels, 1);
    assert_eq!(request.bit_depth, 16);

    assert_eq!(request.ref_text, "你好");
    assert_eq!(request.ref_pinyin, Some("nǐ hǎo".to_string()));
}

#[test]
fn test_english_request_parameters() {
    let mut request = create_test_request();
    request.lang = "en".to_string();
    request.ref_text = "Hello".to_string();
    request.ref_pinyin = None;

    assert_eq!(request.lang, "en");
    assert_eq!(request.ref_text, "Hello");
    assert_eq!(request.ref_pinyin, None);
}

#[test]
fn test_speech_evaluation_request_validation() {
    let service = create_test_service();
    let chinese_request = create_chinese_evaluation_request();
    let english_request = create_english_evaluation_request();

    assert!(!chinese_request.audio_data.is_empty());
    assert!(!chinese_request.ref_text.is_empty());
    assert_eq!(chinese_request.lang, "cn");

    assert!(!english_request.audio_data.is_empty());
    assert!(!english_request.ref_text.is_empty());
    assert_eq!(english_request.lang, "en");

    assert_eq!(service.config().app_id, "test_app_id");
}

#[test]
fn test_audio_encoding_support() {
    let encodings = ["lame", "speex", "speex-wb"];

    for encoding in encodings.iter() {
        let request = SpeechEvaluationRequest {
            audio_data: b"test data".to_vec(),
            ref_text: "test".to_string(),
            lang: "cn".to_string(),
            core: "sent".to_string(),
            ref_pinyin: None,
            phoneme_output: false,
            audio_encoding: encoding.to_string(),
            sample_rate: 16000,
            channels: 1,
            bit_depth: 16,
        };

        assert_eq!(request.audio_encoding, *encoding);
    }
}

#[test]
fn test_core_modes() {
    let modes = ["word", "sent", "para"];

    for mode in modes.iter() {
        let request = SpeechEvaluationRequest {
            audio_data: b"test data".to_vec(),
            ref_text: "test".to_string(),
            lang: "cn".to_string(),
            core: mode.to_string(),
            ref_pinyin: None,
            phoneme_output: false,
            audio_encoding: "lame".to_string(),
            sample_rate: 16000,
            channels: 1,
            bit_depth: 16,
        };

        assert_eq!(request.core, *mode);
    }
}
