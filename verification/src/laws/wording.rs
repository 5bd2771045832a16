//! What errors say, and what settings are by default.

use vstd::prelude::*;
use vstd::string::*;
use crate::discord_voice::{
    PcmCaptureConfig, PcmCaptureConfigError, PcmCaptureError, TranscriptStoreError, WavEncodeError,
};
use crate::discord_voice_runtime::manager::{DiscordVoiceConfig, SttConfig};
use crate::discord_voice_speech::WavDecodeError;
use crate::text;
use crate::tts::{TtsConfig, TtsError};

verus! {

/// What is wrong with the settings of a capture.
pub proof fn lemma_capture_settings_errors(e: &PcmCaptureConfigError, s: String)
    requires
        call_ensures(PcmCaptureConfigError::message, (e,), s),
    ensures
        *e is ZeroMinimumSpeech ==> s@ == "minimum speech duration must be non-zero"@,
        *e is ZeroTrailingSilence ==> s@ == "trailing silence duration must be non-zero"@,
        *e is ZeroMaximumSegment ==> s@ == "maximum segment duration must be non-zero"@,
        *e is MinimumSpeechExceedsMaximumSegment ==> s@
            == "minimum speech duration cannot exceed maximum segment duration"@,
        *e is FrameCountOverflow ==> s@ == "configured duration is too large for this platform"@,
{
}

/// What is wrong with samples, and with the limits of a transcript.
pub proof fn lemma_capture_errors(
    e: &PcmCaptureError,
    s: String,
    f: &TranscriptStoreError,
    t: String,
)
    requires
        call_ensures(PcmCaptureError::message, (e,), s),
        call_ensures(TranscriptStoreError::message, (f,), t),
    ensures
        s@ == "interleaved stereo PCM requires an even sample count, got "@ + text::decimal(
            e->sample_count as nat,
        ),
        *f is ZeroMaximumEntries ==> t@ == "transcript maximum entry count must be non-zero"@,
        *f is ZeroMaximumTextBytes ==> t@ == "transcript maximum text byte count must be non-zero"@,
{
}

/// Why samples cannot be written.
pub proof fn lemma_writing_errors(e: &WavEncodeError, s: String)
    requires
        call_ensures(WavEncodeError::message, (e,), s),
    ensures
        *e is ZeroChannels ==> s@ == "WAV channel count must be non-zero"@,
        *e is SamplesNotChannelAligned ==> s@ == text::decimal(e->sample_count as nat)
            + " samples are not aligned to "@ + text::decimal(
            e->SamplesNotChannelAligned_channels as nat,
        ) + " channels"@,
        *e is BlockAlignOverflow ==> s@ == "WAV block alignment exceeds u16"@,
        *e is ByteRateOverflow ==> s@ == "WAV byte rate exceeds u32"@,
        *e is DataTooLarge ==> s@ == "WAV data exceeds the RIFF 32-bit size limit"@,
{
}

/// Why speech cannot be read.
pub proof fn lemma_reading_errors(e: &WavDecodeError, s: String)
    requires
        call_ensures(WavDecodeError::message, (e,), s),
    ensures
        *e is NotRiffWave ==> s@ == "TTS response is not a RIFF/WAVE payload"@,
        *e is ChunkLengthOverflow ==> s@ == "WAV chunk length overflow"@,
        *e is TruncatedChunk ==> s@ == "truncated WAV chunk"@,
        *e is ChunkPaddingOverflow ==> s@ == "WAV chunk padding overflow"@,
        *e is ShortFormat ==> s@ == "WAV fmt chunk is too short"@,
        *e is ChannelCount ==> s@ == "TTS WAV must be mono or stereo"@,
        *e is ZeroSampleRate ==> s@ == "TTS WAV sample rate must be positive"@,
        *e is MissingFormat ==> s@ == "WAV payload has no fmt chunk"@,
        *e is MissingData ==> s@ == "WAV payload has no data chunk"@,
        *e is InvalidBits ==> s@ == "invalid WAV bits per sample"@,
        *e is UnsupportedAlignment ==> s@ == "unsupported WAV block alignment"@,
        *e is TruncatedSamples ==> s@ == "truncated WAV sample data"@,
        *e is NonFiniteSample ==> s@ == "WAV contains a non-finite floating-point sample"@,
        *e is UnsupportedEncoding ==> s@ == "unsupported WAV encoding "@ + text::decimal(
            e->encoding as nat,
        ) + " with "@ + text::decimal(e->bits as nat) + "-bit samples"@,
        *e is NoSamples ==> s@ == "WAV payload has no audio samples"@,
{
}

/// Why speech cannot be had.
pub proof fn lemma_speech_errors(e: &TtsError, s: String)
    requires
        call_ensures(TtsError::message, (e,), s),
    ensures
        *e is Disabled ==> s@ == "TTS is disabled"@,
        *e is EmptyApiKey ==> s@ == "TTS API key is empty"@,
        *e is EmptyModel ==> s@ == "TTS model is empty"@,
        *e is EmptyVoice ==> s@ == "TTS voice is empty"@,
        *e is EmptyInput ==> s@ == "TTS input is empty"@,
        *e is ZeroTimeout ==> s@ == "TTS request timeout must be greater than zero"@,
        *e is LimitTooSmall ==> s@ == "TTS response limit is too small"@,
        *e is EmptyBaseUrl ==> s@ == "TTS base URL is empty"@,
        *e is TooLarge ==> s@ == "TTS response exceeds "@ + text::decimal(e->limit as nat)
            + " byte limit"@,
        *e is NotWav ==> s@ == "TTS response is not a valid RIFF/WAVE payload"@,
{
}

/// What settings are by default: everything is off, and there are no keys.
pub proof fn lemma_everything_is_off_by_default(
    tts: TtsConfig,
    voice: DiscordVoiceConfig,
    stt: SttConfig,
)
    requires
        call_ensures(TtsConfig::default, (), tts),
        call_ensures(DiscordVoiceConfig::default, (), voice),
        call_ensures(SttConfig::default, (), stt),
    ensures
        !tts.enabled && !voice.enabled && !stt.enabled,
        tts.api_key@.len() == 0 && stt.api_key@.len() == 0,
        tts.model@ == "gpt-4o-mini-tts"@,
        tts.voice@ == "marin"@,
        tts.base_url@ == "https://api.openai.com/v1"@,
        tts.instructions is None,
        tts.request_timeout_seconds == 30,
        voice.allowed_channels@.len() == 0,
        voice.silence_ms == 2_000,
        voice.max_segment_seconds == 30,
        voice.max_pending_segments == 64,
        voice.max_transcript_bytes == 1_000_000,
        voice.max_session_minutes == 120,
{
}

/// A capture takes by default a tenth of a second of speech for enough, ends it after two seconds
/// of silence and lasts half a minute at most, of 48 frames a millisecond.
pub proof fn lemma_captures_by_default(config: PcmCaptureConfig)
    requires
        call_ensures(PcmCaptureConfig::default, (), config),
    ensures
        config.wf(),
        config@.silence_threshold == 500,
        config@.minimum_speech == 48 * 100,
        config@.trailing_silence == 48 * 2_000,
        config@.maximum_segment == 48 * 30_000,
{
}

} // verus!
