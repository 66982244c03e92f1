//! The scoring service client: configuration, the signed URL, the three
//! frame texts, and turning a finished session into the caller's result.

use vstd::prelude::*;
use crate::primitives::json_text;
use crate::json::Json;
use crate::frames::start_frame;
use crate::frames::audio_frame;
use crate::frames::end_frame;
use crate::frames::start_frame_shape;
use crate::frames::audio_frame_shape;
use crate::frames::end_frame_shape;
use crate::request::SpeechEvaluationRequest;
use crate::scores::SpeechEvaluationResponse;
use crate::decoder::decode_messages;
use crate::decoder::decodes_to;
use crate::signer::SignError;
use crate::signer::sign_url;
use crate::signer::signed_url;
use crate::signer::MAX_KEY_LEN;
use crate::signer::endpoint_ok;
use crate::signer::clock_date;
use crate::primitives::MAX_ENDPOINT_LEN;
use crate::session::Session;
use crate::session::SessionState;
use crate::session::Outcome;
use crate::session::Phase;

verus! {

/// The endpoint used when none is configured.
pub const DEFAULT_WS_URL: &'static str = "wss://cn-east-1.ws-api.xf-yun.com/v1/private/s8e098720";

/// The audio description assumed where the caller gives none: MP3 ("lame"),
/// 16 kHz, mono, 16-bit.
pub const DEFAULT_AUDIO_ENCODING: &'static str = "lame";
pub const DEFAULT_SAMPLE_RATE: u32 = 16000;
pub const DEFAULT_CHANNELS: u8 = 1;
pub const DEFAULT_BIT_DEPTH: u8 = 16;

/// Credentials and endpoint of the scoring service.
#[derive(Debug, Clone)]
pub struct IFlytekConfig {
    pub app_id: String,
    pub api_key: String,
    pub api_secret: String,
    pub ws_url: String,
}

impl IFlytekConfig {
    /// Credentials with the default endpoint.
    pub fn with_credentials(app_id: String, api_key: String, api_secret: String) -> (r: IFlytekConfig)
        ensures
            r.app_id == app_id,
            r.api_key == api_key,
            r.api_secret == api_secret,
            r.ws_url@ == DEFAULT_WS_URL@,
    {
        IFlytekConfig { app_id, api_key, api_secret, ws_url: String::from_str(DEFAULT_WS_URL) }
    }
}

/// Parameters of a scoring request as a caller supplies them; absent ones
/// take their defaults.
#[derive(Debug)]
pub struct EvaluateSpeechParams {
    pub ref_text: String,
    pub lang: Option<String>,
    pub core: Option<String>,
    pub ref_pinyin: Option<String>,
    pub phoneme_output: Option<bool>,
}

impl EvaluateSpeechParams {
    /// The request for some audio: language "cn", granularity "sent" and
    /// phoneme output on, unless the parameters say otherwise.
    pub fn into_request(
        self,
        audio_data: Vec<u8>,
        audio_encoding: String,
        sample_rate: u32,
        channels: u8,
        bit_depth: u8,
    ) -> (r: SpeechEvaluationRequest)
        ensures
            r.audio_data == audio_data,
            r.ref_text == self.ref_text,
            r.lang@ == match self.lang {
                Some(l) => l@,
                None => "cn"@,
            },
            r.core@ == match self.core {
                Some(c) => c@,
                None => "sent"@,
            },
            r.ref_pinyin == self.ref_pinyin,
            r.phoneme_output == match self.phoneme_output {
                Some(b) => b,
                None => true,
            },
            r.audio_encoding == audio_encoding,
            r.sample_rate == sample_rate,
            r.channels == channels,
            r.bit_depth == bit_depth,
    {
        let lang = match self.lang {
            Some(l) => l,
            None => String::from_str("cn"),
        };
        let core = match self.core {
            Some(c) => c,
            None => String::from_str("sent"),
        };
        let phoneme_output = match self.phoneme_output {
            Some(b) => b,
            None => true,
        };
        SpeechEvaluationRequest {
            audio_data,
            ref_text: self.ref_text,
            lang,
            core,
            ref_pinyin: self.ref_pinyin,
            phoneme_output,
            audio_encoding,
            sample_rate,
            channels,
            bit_depth,
        }
    }
}

impl EvaluateSpeechParams {
    /// The request for some audio in the default audio description.
    pub fn into_default_request(self, audio_data: Vec<u8>) -> (r: SpeechEvaluationRequest)
        ensures
            r.audio_data == audio_data,
            r.ref_text == self.ref_text,
            r.lang@ == match self.lang {
                Some(l) => l@,
                None => "cn"@,
            },
            r.core@ == match self.core {
                Some(c) => c@,
                None => "sent"@,
            },
            r.ref_pinyin == self.ref_pinyin,
            r.phoneme_output == match self.phoneme_output {
                Some(b) => b,
                None => true,
            },
            r.audio_encoding@ == DEFAULT_AUDIO_ENCODING@,
            r.sample_rate == DEFAULT_SAMPLE_RATE,
            r.channels == DEFAULT_CHANNELS,
            r.bit_depth == DEFAULT_BIT_DEPTH,
    {
        self.into_request(
            audio_data,
            String::from_str(DEFAULT_AUDIO_ENCODING),
            DEFAULT_SAMPLE_RATE,
            DEFAULT_CHANNELS,
            DEFAULT_BIT_DEPTH,
        )
    }
}

/// Why an evaluation call failed outright. A call that fails once the
/// connection is up still carries what was received before the failure.
#[derive(Debug)]
pub enum EvaluationError {
    /// The request holds no audio; nothing was sent.
    EmptyAudio,
    /// The endpoint URL does not parse.
    Config,
    /// The clock reading cannot be written as a date.
    Clock,
    Connect,
    Send(Phase),
    ProtocolAbort(SpeechEvaluationResponse),
    Timeout(SpeechEvaluationResponse),
}

/// The scoring service client.
#[derive(Clone)]
pub struct IFlytekService {
    config: IFlytekConfig,
}

impl IFlytekService {
    /// The configuration the client was made with.
    pub closed spec fn spec_config(&self) -> IFlytekConfig {
        self.config
    }

    pub fn new(config: IFlytekConfig) -> (r: IFlytekService)
        ensures
            r.spec_config() == config,
    {
        IFlytekService { config }
    }

    pub fn config(&self) -> (r: &IFlytekConfig)
        ensures
            *r == self.spec_config(),
    {
        &self.config
    }

    /// The signed connection URL at a clock reading, in whole seconds since
    /// the Unix epoch.
    pub fn generate_auth_url(&self, now_secs: i64) -> (r: Result<String, SignError>)
        requires
            self.spec_config().api_key@.len() <= MAX_KEY_LEN,
            self.spec_config().ws_url@.len() <= MAX_ENDPOINT_LEN,
        ensures
            ({
                let c = self.spec_config();
                let date = clock_date(now_secs as int);
                &&& !endpoint_ok(c.ws_url@) ==> r == Err::<String, SignError>(SignError::Config)
                &&& endpoint_ok(c.ws_url@) && date is None ==> r == Err::<String, SignError>(SignError::Clock)
                &&& endpoint_ok(c.ws_url@) && date is Some ==> r is Ok
                    && Some(r->Ok_0@) == signed_url(c.ws_url@, c.api_key@, c.api_secret@, date->Some_0)
            }),
    {
        sign_url(self.config.ws_url.as_str(), self.config.api_key.as_str(), self.config.api_secret.as_str(), now_secs)
    }

    /// The start frame's text.
    pub fn create_start_frame(&self, request: &SpeechEvaluationRequest) -> (r: String)
        ensures
            exists|t: Json| start_frame_shape(t, self.spec_config().app_id@, *request) && r@ == json_text(t),
    {
        start_frame(self.config.app_id.as_str(), request).to_text()
    }

    /// The audio frame's text.
    pub fn create_audio_frame(&self, request: &SpeechEvaluationRequest) -> (r: String)
        requires
            request.audio_data@.len() <= usize::MAX / 2,
        ensures
            exists|t: Json| audio_frame_shape(t, self.spec_config().app_id@, *request) && r@ == json_text(t),
    {
        audio_frame(self.config.app_id.as_str(), request).to_text()
    }

    /// The end frame's text.
    pub fn create_end_frame(&self, request: &SpeechEvaluationRequest) -> (r: String)
        ensures
            exists|t: Json| end_frame_shape(t, self.spec_config().app_id@, *request) && r@ == json_text(t),
    {
        end_frame(self.config.app_id.as_str(), request).to_text()
    }

    /// The text of the frame of a phase.
    pub fn frame_text(&self, request: &SpeechEvaluationRequest, phase: Phase) -> (r: String)
        requires
            phase == Phase::Audio ==> request.audio_data@.len() <= usize::MAX / 2,
        ensures
            phase == Phase::Start ==> exists|t: Json| start_frame_shape(t, self.spec_config().app_id@, *request) && r@ == json_text(t),
            phase == Phase::Audio ==> exists|t: Json| audio_frame_shape(t, self.spec_config().app_id@, *request) && r@ == json_text(t),
            phase == Phase::End ==> exists|t: Json| end_frame_shape(t, self.spec_config().app_id@, *request) && r@ == json_text(t),
    {
        match phase {
            Phase::Start => self.create_start_frame(request),
            Phase::Audio => self.create_audio_frame(request),
            Phase::End => self.create_end_frame(request),
        }
    }

    /// Reduces the received messages into the response.
    pub fn parse_response(&self, response_data: Vec<String>) -> (r: SpeechEvaluationResponse)
        ensures
            decodes_to(response_data@, r),
    {
        decode_messages(&response_data)
    }

    /// Checks a request and signs the URL for a fresh call: a request
    /// without audio fails before anything else.
    pub fn begin(&self, request: &SpeechEvaluationRequest, now_secs: i64) -> (r: Result<(Session, String), EvaluationError>)
        requires
            self.spec_config().api_key@.len() <= MAX_KEY_LEN,
            self.spec_config().ws_url@.len() <= MAX_ENDPOINT_LEN,
        ensures
            ({
                let c = self.spec_config();
                let date = clock_date(now_secs as int);
                &&& request.audio_data@.len() == 0 ==> r is Err && r->Err_0 is EmptyAudio
                &&& request.audio_data@.len() > 0 && !endpoint_ok(c.ws_url@) ==> r is Err && r->Err_0 is Config
                &&& request.audio_data@.len() > 0 && endpoint_ok(c.ws_url@) && date is None
                    ==> r is Err && r->Err_0 is Clock
                &&& request.audio_data@.len() > 0 && endpoint_ok(c.ws_url@) && date is Some ==> r is Ok
                    && r->Ok_0.0.state == SessionState::Connecting && r->Ok_0.0.received@.len() == 0
                    && Some(r->Ok_0.1@) == signed_url(c.ws_url@, c.api_key@, c.api_secret@, date->Some_0)
            }),
    {
        if request.audio_data.len() == 0 {
            return Err(EvaluationError::EmptyAudio);
        }
        match self.generate_auth_url(now_secs) {
            Ok(url) => Ok((Session::new(), url)),
            Err(SignError::Config) => Err(EvaluationError::Config),
            Err(SignError::Clock) => Err(EvaluationError::Clock),
        }
    }
}

/// What a call returns once its session is over: the response where the
/// server finished or closed the connection, else the failure, carrying
/// whatever was received.
pub open spec fn result_matches(outcome: Outcome, msgs: Seq<String>, r: Result<SpeechEvaluationResponse, EvaluationError>) -> bool {
    match outcome {
        Outcome::Success | Outcome::ConnectionClosedEarly => r is Ok && decodes_to(msgs, r->Ok_0),
        Outcome::ConnectFailed => r is Err && r->Err_0 is Connect,
        Outcome::SendFailed(p) => r is Err && r->Err_0 == EvaluationError::Send(p),
        Outcome::ProtocolAbort => r is Err && r->Err_0 is ProtocolAbort && decodes_to(msgs, r->Err_0->ProtocolAbort_0),
        Outcome::Timeout => r is Err && r->Err_0 is Timeout && decodes_to(msgs, r->Err_0->Timeout_0),
    }
}

/// The result of a finished call.
pub fn finish(session: &Session, outcome: Outcome) -> (r: Result<SpeechEvaluationResponse, EvaluationError>)
    requires
        session.state == SessionState::Done(outcome),
    ensures
        result_matches(outcome, session.received@, r),
{
    match outcome {
        Outcome::Success | Outcome::ConnectionClosedEarly => Ok(session.decode()),
        Outcome::ConnectFailed => Err(EvaluationError::Connect),
        Outcome::SendFailed(p) => Err(EvaluationError::Send(p)),
        Outcome::ProtocolAbort => Err(EvaluationError::ProtocolAbort(session.decode())),
        Outcome::Timeout => Err(EvaluationError::Timeout(session.decode())),
    }
}

} // verus!
