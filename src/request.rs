//! What a caller asks to have scored.

use vstd::prelude::*;

verus! {

/// One scoring request: the audio, the text it should match, and how the
/// audio is encoded.
#[derive(Debug)]
pub struct SpeechEvaluationRequest {
    /// The recorded audio; must be non-empty before any connection is made.
    pub audio_data: Vec<u8>,
    pub ref_text: String,
    /// Language tag: "cn", "en", ...
    pub lang: String,
    /// Granularity: "word", "sent" or "para".
    pub core: String,
    /// Reference phonetic transcription.
    pub ref_pinyin: Option<String>,
    pub phoneme_output: bool,
    /// Audio encoding tag: "lame", "speex", "speex-wb".
    pub audio_encoding: String,
    pub sample_rate: u32,
    pub channels: u8,
    pub bit_depth: u8,
}

} // verus!
