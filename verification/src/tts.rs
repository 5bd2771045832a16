//! Requests to, and answers of, an OpenAI-compatible `/audio/speech` endpoint.

use vstd::prelude::*;
use vstd::string::*;
use crate::bytes;
use crate::text;

verus! {

/// Hard ceiling for a single synthesized response. It keeps a provider or proxy from exhausting
/// the bot's memory with an unexpectedly large body.
pub const MAX_TTS_AUDIO_BYTES: usize = 10_485_760;

/// How much of an error response is read.
pub const MAX_TTS_ERROR_BYTES: usize = 16_384;

/// Text-to-speech settings.
#[derive(Debug, Clone, PartialEq, Eq)]
pub struct TtsConfig {
    pub enabled: bool,
    pub api_key: String,
    pub model: String,
    pub voice: String,
    pub base_url: String,
    pub instructions: Option<String>,
    pub request_timeout_seconds: u64,
}

impl Default for TtsConfig {
    /// Speech synthesis is off until it is set up.
    fn default() -> (r: Self)
        ensures
            !r.enabled,
            r.api_key@.len() == 0,
            r.model@ == "gpt-4o-mini-tts"@,
            r.voice@ == "marin"@,
            r.base_url@ == "https://api.openai.com/v1"@,
            r.instructions is None,
            r.request_timeout_seconds == 30,
    {
        TtsConfig {
            enabled: false,
            api_key: String::new(),
            model: String::from_str("gpt-4o-mini-tts"),
            voice: String::from_str("marin"),
            base_url: String::from_str("https://api.openai.com/v1"),
            instructions: None,
            request_timeout_seconds: 30,
        }
    }
}

/// Why speech was not synthesized.
#[derive(Debug, Clone, Copy, PartialEq, Eq, Structural)]
pub enum TtsError {
    Disabled,
    EmptyApiKey,
    EmptyModel,
    EmptyVoice,
    EmptyInput,
    ZeroTimeout,
    LimitTooSmall,
    EmptyBaseUrl,
    TooLarge { limit: usize },
    NotWav,
}

impl TtsError {
    /// The text that describes the error.
    pub open spec fn text(self) -> Seq<char> {
        match self {
            TtsError::Disabled => "TTS is disabled"@,
            TtsError::EmptyApiKey => "TTS API key is empty"@,
            TtsError::EmptyModel => "TTS model is empty"@,
            TtsError::EmptyVoice => "TTS voice is empty"@,
            TtsError::EmptyInput => "TTS input is empty"@,
            TtsError::ZeroTimeout => "TTS request timeout must be greater than zero"@,
            TtsError::LimitTooSmall => "TTS response limit is too small"@,
            TtsError::EmptyBaseUrl => "TTS base URL is empty"@,
            TtsError::TooLarge { limit } => "TTS response exceeds "@ + text::decimal(limit as nat)
                + " byte limit"@,
            TtsError::NotWav => "TTS response is not a valid RIFF/WAVE payload"@,
        }
    }

    /// Describes the error.
    pub fn message(&self) -> (s: String)
        ensures
            s@ == self.text(),
    {
        let fixed = match self {
            TtsError::Disabled => "TTS is disabled",
            TtsError::EmptyApiKey => "TTS API key is empty",
            TtsError::EmptyModel => "TTS model is empty",
            TtsError::EmptyVoice => "TTS voice is empty",
            TtsError::EmptyInput => "TTS input is empty",
            TtsError::ZeroTimeout => "TTS request timeout must be greater than zero",
            TtsError::LimitTooSmall => "TTS response limit is too small",
            TtsError::EmptyBaseUrl => "TTS base URL is empty",
            TtsError::TooLarge { limit } => {
                let mut s = String::from_str("TTS response exceeds ");
                text::push_decimal(&mut s, *limit as u64);
                s.append(" byte limit");
                return s;
            },
            TtsError::NotWav => "TTS response is not a valid RIFF/WAVE payload",
        };
        String::from_str(fixed)
    }
}

/// A request for speech, ready to be sent.
#[derive(Debug, Clone, PartialEq, Eq)]
pub struct SpeechRequest {
    pub url: String,
    pub bearer_token: String,
    pub timeout_seconds: u64,
    pub model: String,
    pub voice: String,
    pub input: String,
    pub response_format: String,
    pub instructions: Option<String>,
}

/// A base URL without white space around it and without slashes at its end.
pub open spec fn base_url_of(url: Seq<char>) -> Seq<char> {
    text::trimmed_end(text::trimmed_white(url), text::CharClass::Slash)
}

/// Instructions without white space around them; none if nothing is left.
pub open spec fn instructions_of(instructions: Option<String>) -> Option<Seq<char>> {
    match instructions {
        Some(s) => if text::blank(s@) {
            None
        } else {
            Some(text::trimmed_white(s@))
        },
        None => None,
    }
}

impl TtsConfig {
    /// Why a request cannot be made.
    pub open spec fn request_error(self, input: Seq<char>, max_audio_bytes: usize) -> Option<
        TtsError,
    > {
        if !self.enabled {
            Some(TtsError::Disabled)
        } else if text::blank(self.api_key@) {
            Some(TtsError::EmptyApiKey)
        } else if text::blank(self.model@) {
            Some(TtsError::EmptyModel)
        } else if text::blank(self.voice@) {
            Some(TtsError::EmptyVoice)
        } else if text::blank(input) {
            Some(TtsError::EmptyInput)
        } else if self.request_timeout_seconds == 0 {
            Some(TtsError::ZeroTimeout)
        } else if max_audio_bytes < 12 {
            Some(TtsError::LimitTooSmall)
        } else if base_url_of(self.base_url@).len() == 0 {
            Some(TtsError::EmptyBaseUrl)
        } else {
            None
        }
    }

    /// Whether speech can be synthesized at all.
    pub fn is_available(&self) -> (r: bool)
        ensures
            r == (self.enabled && !text::blank(self.api_key@)),
    {
        self.enabled && !text::is_blank(self.api_key.as_str())
    }
}

/// A string without white space around it.
pub fn trimmed_string(s: &str) -> (r: String)
    ensures
        r@ == text::trimmed_white(s@),
{
    let chars = text::to_chars(s);
    text::from_chars(text::trim_white(chars.as_slice()))
}

/// A base URL without white space around it and without slashes at its end.
pub fn normalized_base_url(url: &str) -> (r: String)
    ensures
        r@ == base_url_of(url@),
{
    let chars = text::to_chars(url);
    let trimmed = text::trim_white(chars.as_slice());
    text::from_chars(text::trim_end(trimmed, text::CharClass::Slash))
}

/// Builds the request that synthesizes `input` as WAV audio.
pub fn speech_request(cfg: &TtsConfig, input: &str, max_audio_bytes: usize) -> (r: Result<
    SpeechRequest,
    TtsError,
>)
    ensures
        match cfg.request_error(input@, max_audio_bytes) {
            Some(e) => r == Err::<SpeechRequest, TtsError>(e),
            None => r matches Ok(request) && {
                &&& request.url@ == base_url_of(cfg.base_url@) + "/audio/speech"@
                &&& request.bearer_token@ == text::trimmed_white(cfg.api_key@)
                &&& request.timeout_seconds == cfg.request_timeout_seconds
                &&& request.model@ == text::trimmed_white(cfg.model@)
                &&& request.voice@ == text::trimmed_white(cfg.voice@)
                &&& request.input@ == input@
                &&& request.response_format@ == "wav"@
                &&& match request.instructions {
                    Some(s) => instructions_of(cfg.instructions) == Some(s@),
                    None => instructions_of(cfg.instructions) is None,
                }
            },
        },
{
    if !cfg.enabled {
        return Err(TtsError::Disabled);
    }
    if text::is_blank(cfg.api_key.as_str()) {
        return Err(TtsError::EmptyApiKey);
    }
    if text::is_blank(cfg.model.as_str()) {
        return Err(TtsError::EmptyModel);
    }
    if text::is_blank(cfg.voice.as_str()) {
        return Err(TtsError::EmptyVoice);
    }
    if text::is_blank(input) {
        return Err(TtsError::EmptyInput);
    }
    if cfg.request_timeout_seconds == 0 {
        return Err(TtsError::ZeroTimeout);
    }
    if max_audio_bytes < 12 {
        return Err(TtsError::LimitTooSmall);
    }
    let base_url = normalized_base_url(cfg.base_url.as_str());
    if base_url.as_str().is_empty() {
        return Err(TtsError::EmptyBaseUrl);
    }
    let url = base_url.concat("/audio/speech");
    let instructions = match &cfg.instructions {
        Some(s) => if text::is_blank(s.as_str()) {
            None
        } else {
            Some(trimmed_string(s.as_str()))
        },
        None => None,
    };
    Ok(
        SpeechRequest {
            url,
            bearer_token: trimmed_string(cfg.api_key.as_str()),
            timeout_seconds: cfg.request_timeout_seconds,
            model: trimmed_string(cfg.model.as_str()),
            voice: trimmed_string(cfg.voice.as_str()),
            input: String::from_str(input),
            response_format: String::from_str("wav"),
            instructions,
        },
    )
}

/// Checks the length that a response announces.
pub fn check_content_length(content_length: Option<u64>, max_audio_bytes: usize) -> (r: Result<
    (),
    TtsError,
>)
    ensures
        r == match content_length {
            Some(n) => if n > max_audio_bytes {
                Err::<(), TtsError>(TtsError::TooLarge { limit: max_audio_bytes })
            } else {
                Ok::<(), TtsError>(())
            },
            None => Ok::<(), TtsError>(()),
        },
{
    match content_length {
        Some(n) => if n > max_audio_bytes as u64 {
            Err(TtsError::TooLarge { limit: max_audio_bytes })
        } else {
            Ok(())
        },
        None => Ok(()),
    }
}

/// Appends a chunk of a response body, unless the body would exceed its limit.
pub fn append_bounded(body: &mut Vec<u8>, chunk: &[u8], limit: usize) -> (r: Result<(), TtsError>)
    ensures
        if old(body)@.len() + chunk@.len() <= limit {
            r is Ok && final(body)@ == old(body)@ + chunk@
        } else {
            r == Err::<(), TtsError>(TtsError::TooLarge { limit }) && final(body)@ == old(body)@
        },
{
    if body.len() > limit || chunk.len() > limit - body.len() {
        return Err(TtsError::TooLarge { limit });
    }
    let mut i: usize = 0;
    let ghost before = body@;
    assert(before + chunk@.take(0) =~= before);
    while i < chunk.len()
        invariant
            i <= chunk@.len(),
            body@ == before + chunk@.take(i as int),
        decreases chunk@.len() - i,
    {
        body.push(chunk[i]);
        assert(before + chunk@.take(i + 1) =~= (before + chunk@.take(i as int)).push(
            chunk@[i as int],
        ));
        i = i + 1;
    }
    assert(chunk@.take(chunk@.len() as int) =~= chunk@);
    Ok(())
}

/// Whether a payload begins as a RIFF/WAVE container does.
pub open spec fn is_wave(audio: Seq<u8>) -> bool {
    audio.len() >= 12 && audio.subrange(0, 4) == bytes::tag('R', 'I', 'F', 'F') && audio.subrange(
        8,
        12,
    ) == bytes::tag('W', 'A', 'V', 'E')
}

/// Checks that a payload begins as a RIFF/WAVE container does.
pub fn validate_wav(audio: &[u8]) -> (r: Result<(), TtsError>)
    ensures
        r == if is_wave(audio@) {
            Ok::<(), TtsError>(())
        } else {
            Err::<(), TtsError>(TtsError::NotWav)
        },
{
    if audio.len() < 12 || !bytes::has_tag(audio, 0, 'R', 'I', 'F', 'F') || !bytes::has_tag(
        audio,
        8,
        'W',
        'A',
        'V',
        'E',
    ) {
        return Err(TtsError::NotWav);
    }
    Ok(())
}

} // verus!
