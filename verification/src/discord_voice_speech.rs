//! Decoding of bounded TTS WAV responses for voice playback.

use vstd::prelude::*;
use vstd::slice::slice_subrange;
use vstd::string::*;
use crate::bytes;
use crate::discord_voice;
use crate::text;
use crate::tts;

verus! {

/// Why a WAV payload cannot be played.
#[derive(Debug, Clone, Copy, PartialEq, Eq, Structural)]
pub enum WavDecodeError {
    NotRiffWave,
    ChunkLengthOverflow,
    TruncatedChunk,
    ChunkPaddingOverflow,
    ShortFormat,
    ChannelCount,
    ZeroSampleRate,
    MissingFormat,
    MissingData,
    InvalidBits,
    UnsupportedAlignment,
    TruncatedSamples,
    NonFiniteSample,
    UnsupportedEncoding { encoding: u16, bits: u16 },
    NoSamples,
}

impl WavDecodeError {
    /// The text that describes the error.
    pub open spec fn text(self) -> Seq<char> {
        match self {
            WavDecodeError::NotRiffWave => "TTS response is not a RIFF/WAVE payload"@,
            WavDecodeError::ChunkLengthOverflow => "WAV chunk length overflow"@,
            WavDecodeError::TruncatedChunk => "truncated WAV chunk"@,
            WavDecodeError::ChunkPaddingOverflow => "WAV chunk padding overflow"@,
            WavDecodeError::ShortFormat => "WAV fmt chunk is too short"@,
            WavDecodeError::ChannelCount => "TTS WAV must be mono or stereo"@,
            WavDecodeError::ZeroSampleRate => "TTS WAV sample rate must be positive"@,
            WavDecodeError::MissingFormat => "WAV payload has no fmt chunk"@,
            WavDecodeError::MissingData => "WAV payload has no data chunk"@,
            WavDecodeError::InvalidBits => "invalid WAV bits per sample"@,
            WavDecodeError::UnsupportedAlignment => "unsupported WAV block alignment"@,
            WavDecodeError::TruncatedSamples => "truncated WAV sample data"@,
            WavDecodeError::NonFiniteSample => {
                "WAV contains a non-finite floating-point sample"@
            },
            WavDecodeError::UnsupportedEncoding { encoding, bits } => {
                "unsupported WAV encoding "@ + text::decimal(encoding as nat) + " with "@
                    + text::decimal(bits as nat) + "-bit samples"@
            },
            WavDecodeError::NoSamples => "WAV payload has no audio samples"@,
        }
    }

    /// Describes the error.
    pub fn message(&self) -> (s: String)
        ensures
            s@ == self.text(),
    {
        let fixed = match self {
            WavDecodeError::NotRiffWave => "TTS response is not a RIFF/WAVE payload",
            WavDecodeError::ChunkLengthOverflow => "WAV chunk length overflow",
            WavDecodeError::TruncatedChunk => "truncated WAV chunk",
            WavDecodeError::ChunkPaddingOverflow => "WAV chunk padding overflow",
            WavDecodeError::ShortFormat => "WAV fmt chunk is too short",
            WavDecodeError::ChannelCount => "TTS WAV must be mono or stereo",
            WavDecodeError::ZeroSampleRate => "TTS WAV sample rate must be positive",
            WavDecodeError::MissingFormat => "WAV payload has no fmt chunk",
            WavDecodeError::MissingData => "WAV payload has no data chunk",
            WavDecodeError::InvalidBits => "invalid WAV bits per sample",
            WavDecodeError::UnsupportedAlignment => "unsupported WAV block alignment",
            WavDecodeError::TruncatedSamples => "truncated WAV sample data",
            WavDecodeError::NonFiniteSample => "WAV contains a non-finite floating-point sample",
            WavDecodeError::UnsupportedEncoding { encoding, bits } => {
                let mut s = String::from_str("unsupported WAV encoding ");
                text::push_decimal(&mut s, *encoding as u64);
                s.append(" with ");
                text::push_decimal(&mut s, *bits as u64);
                s.append("-bit samples");
                return s;
            },
            WavDecodeError::NoSamples => "WAV payload has no audio samples",
        };
        String::from_str(fixed)
    }
}

/// The format of the samples of a WAV payload.
#[derive(Debug, Clone, Copy, PartialEq, Eq, Structural)]
pub struct WavFormat {
    pub encoding: u16,
    pub channels: u16,
    pub sample_rate: u32,
    pub block_align: u16,
    pub bits_per_sample: u16,
}

/// What a `fmt ` chunk says.
pub open spec fn format_of(chunk: Seq<u8>) -> Result<WavFormat, WavDecodeError> {
    if chunk.len() < 16 {
        Err(WavDecodeError::ShortFormat)
    } else {
        let format = WavFormat {
            encoding: bytes::le16_at(chunk, 0) as u16,
            channels: bytes::le16_at(chunk, 2) as u16,
            sample_rate: bytes::le32_at(chunk, 4) as u32,
            block_align: bytes::le16_at(chunk, 12) as u16,
            bits_per_sample: bytes::le16_at(chunk, 14) as u16,
        };
        if format.channels != 1 && format.channels != 2 {
            Err(WavDecodeError::ChannelCount)
        } else if format.sample_rate == 0 {
            Err(WavDecodeError::ZeroSampleRate)
        } else {
            Ok(format)
        }
    }
}

/// Reads a `fmt ` chunk.
pub fn parse_format(chunk: &[u8]) -> (r: Result<WavFormat, WavDecodeError>)
    ensures
        r == format_of(chunk@),
{
    if chunk.len() < 16 {
        return Err(WavDecodeError::ShortFormat);
    }
    let format = WavFormat {
        encoding: bytes::read_le16(chunk, 0),
        channels: bytes::read_le16(chunk, 2),
        sample_rate: bytes::read_le32(chunk, 4),
        block_align: bytes::read_le16(chunk, 12),
        bits_per_sample: bytes::read_le16(chunk, 14),
    };
    if format.channels != 1 && format.channels != 2 {
        return Err(WavDecodeError::ChannelCount);
    }
    if format.sample_rate == 0 {
        return Err(WavDecodeError::ZeroSampleRate);
    }
    Ok(format)
}

/// Interleaved samples as they are encoded.
#[derive(Debug, Clone, PartialEq, Eq)]
pub enum SpeechSamples {
    /// Signed 16-bit samples, each standing for itself over 32768.
    Pcm16(Vec<i16>),
    /// The bits of IEEE single-precision samples, finite and between -1 and 1.
    Float32(Vec<u32>),
}

/// Samples as a mathematical value.
#[verifier::ext_equal]
pub enum SamplesModel {
    Pcm16(Seq<i16>),
    Float32(Seq<u32>),
}

impl View for SpeechSamples {
    type V = SamplesModel;

    open spec fn view(&self) -> SamplesModel {
        match self {
            SpeechSamples::Pcm16(v) => SamplesModel::Pcm16(v@),
            SpeechSamples::Float32(v) => SamplesModel::Float32(v@),
        }
    }
}

impl SamplesModel {
    pub open spec fn count(self) -> nat {
        match self {
            SamplesModel::Pcm16(s) => s.len(),
            SamplesModel::Float32(s) => s.len(),
        }
    }
}

impl SpeechSamples {
    pub fn len(&self) -> (r: usize)
        ensures
            r == self@.count(),
    {
        match self {
            SpeechSamples::Pcm16(v) => v.len(),
            SpeechSamples::Float32(v) => v.len(),
        }
    }
}

/// The sample whose two's complement is the given number.
pub open spec fn sample_from_bits(bits: int) -> i16 {
    if bits >= 32768 {
        (bits - 65536) as i16
    } else {
        bits as i16
    }
}

/// The 16-bit samples of a run of bytes.
pub open spec fn pcm_samples(data: Seq<u8>) -> Seq<i16> {
    Seq::new(data.len() / 2, |i: int| sample_from_bits(bytes::le16_at(data, 2 * i)))
}

/// The bits of a single-precision number without its sign.
pub open spec fn float_magnitude(bits: u32) -> int {
    bits as int % 0x8000_0000
}

/// Whether bits stand for a number that is neither infinite nor undefined.
pub open spec fn is_finite(bits: u32) -> bool {
    float_magnitude(bits) < 0x7f80_0000
}

/// The bits of the number clamped to the range from -1 to 1.
pub open spec fn clamped(bits: u32) -> u32 {
    if float_magnitude(bits) > 0x3f80_0000 {
        (bits - float_magnitude(bits) + 0x3f80_0000) as u32
    } else {
        bits
    }
}

/// The bits of the numbers in a run of bytes.
pub open spec fn float_bits(data: Seq<u8>) -> Seq<u32> {
    Seq::new(data.len() / 4, |i: int| bytes::le32_at(data, 4 * i) as u32)
}

/// The samples of a data chunk.
pub open spec fn samples_of(data: Seq<u8>, format: WavFormat) -> Result<SamplesModel, WavDecodeError> {
    let sample_bytes = format.bits_per_sample as int / 8;
    if sample_bytes == 0 {
        Err(WavDecodeError::InvalidBits)
    } else if format.block_align != format.channels * sample_bytes {
        Err(WavDecodeError::UnsupportedAlignment)
    } else if data.len() as int % sample_bytes != 0 {
        Err(WavDecodeError::TruncatedSamples)
    } else if format.encoding == 1 && format.bits_per_sample == 16 {
        Ok(SamplesModel::Pcm16(pcm_samples(data)))
    } else if format.encoding == 3 && format.bits_per_sample == 32 {
        let bits = float_bits(data);
        if forall|i: int| 0 <= i < bits.len() ==> is_finite(#[trigger] bits[i]) {
            Ok(SamplesModel::Float32(bits.map_values(|b: u32| clamped(b))))
        } else {
            Err(WavDecodeError::NonFiniteSample)
        }
    } else {
        Err(
            WavDecodeError::UnsupportedEncoding {
                encoding: format.encoding,
                bits: format.bits_per_sample,
            },
        )
    }
}

/// What decoded samples stand for.
pub open spec fn result_model(r: Result<SpeechSamples, WavDecodeError>) -> Result<
    SamplesModel,
    WavDecodeError,
> {
    match r {
        Ok(samples) => Ok(samples@),
        Err(e) => Err(e),
    }
}

fn decode_pcm(data: &[u8]) -> (r: Vec<i16>)
    ensures
        r@ == pcm_samples(data@),
{
    let mut samples: Vec<i16> = Vec::new();
    let total = data.len();
    let count = total / 2;
    let mut i: usize = 0;
    while i < count
        invariant
            i <= count,
            total == data@.len(),
            count == total / 2,
            samples@.len() == i,
            forall|j: int| 0 <= j < i ==> samples@[j] == #[trigger] pcm_samples(data@)[j],
        decreases count - i,
    {
        let bits = bytes::read_le16(data, 2 * i) as i32;
        let sample: i16 = if bits >= 32768 {
            (bits - 65536) as i16
        } else {
            bits as i16
        };
        samples.push(sample);
        assert(samples@[i as int] == pcm_samples(data@)[i as int]);
        i = i + 1;
    }
    assert(samples@ =~= pcm_samples(data@));
    samples
}

fn decode_floats(data: &[u8]) -> (r: Option<Vec<u32>>)
    ensures
        ({
            let bits = float_bits(data@);
            match r {
                Some(v) => (forall|i: int| 0 <= i < bits.len() ==> is_finite(#[trigger] bits[i]))
                    && v@ == bits.map_values(|b: u32| clamped(b)),
                None => !(forall|i: int| 0 <= i < bits.len() ==> is_finite(#[trigger] bits[i])),
            }
        }),
{
    let ghost all = float_bits(data@);
    let mut samples: Vec<u32> = Vec::new();
    let total = data.len();
    let count = total / 4;
    let mut i: usize = 0;
    while i < count
        invariant
            i <= count,
            total == data@.len(),
            count == total / 4,
            all == float_bits(data@),
            samples@.len() == i,
            forall|j: int| 0 <= j < i ==> is_finite(#[trigger] all[j]),
            forall|j: int| 0 <= j < i ==> samples@[j] == clamped(#[trigger] all[j]),
        decreases count - i,
    {
        let bits = bytes::read_le32(data, 4 * i);
        assert(bits == all[i as int]);
        let magnitude = bits % 0x8000_0000;
        if magnitude >= 0x7f80_0000 {
            assert(!is_finite(all[i as int]));
            return None;
        }
        let sample: u32 = if magnitude > 0x3f80_0000 {
            bits - magnitude + 0x3f80_0000
        } else {
            bits
        };
        samples.push(sample);
        i = i + 1;
    }
    assert(samples@ =~= all.map_values(|b: u32| clamped(b)));
    Some(samples)
}

/// Decodes the samples of a data chunk.
pub fn decode_samples(data: &[u8], format: WavFormat) -> (r: Result<SpeechSamples, WavDecodeError>)
    ensures
        result_model(r) == samples_of(data@, format),
{
    let sample_bytes = format.bits_per_sample / 8;
    if sample_bytes == 0 {
        return Err(WavDecodeError::InvalidBits);
    }
    proof {
        let channels = format.channels as int;
        let width = sample_bytes as int;
        assert(channels * width <= 65535 * 8191) by (nonlinear_arith)
            requires
                0 <= channels <= 65535,
                0 <= width <= 8191,
        ;
    }
    if format.block_align as u32 != format.channels as u32 * sample_bytes as u32 {
        return Err(WavDecodeError::UnsupportedAlignment);
    }
    if data.len() % sample_bytes as usize != 0 {
        return Err(WavDecodeError::TruncatedSamples);
    }
    if format.encoding == 1 && format.bits_per_sample == 16 {
        Ok(SpeechSamples::Pcm16(decode_pcm(data)))
    } else if format.encoding == 3 && format.bits_per_sample == 32 {
        match decode_floats(data) {
            Some(samples) => Ok(SpeechSamples::Float32(samples)),
            None => Err(WavDecodeError::NonFiniteSample),
        }
    } else {
        Err(
            WavDecodeError::UnsupportedEncoding {
                encoding: format.encoding,
                bits: format.bits_per_sample,
            },
        )
    }
}

/// The first format and the first data chunk of a WAV payload.
#[verifier::ext_equal]
pub struct WavParts {
    pub format: Option<WavFormat>,
    pub data: Option<Seq<u8>>,
}

/// Whether a chunk has the data length of a stream whose length was not known when its header
/// was written: the payload ends where the chunk does.
pub open spec fn is_streaming(wav: Seq<u8>, cursor: int) -> bool {
    bytes::le32_at(wav, cursor + 4) == 0xffff_ffff && wav.subrange(cursor, cursor + 4)
        == bytes::tag('d', 'a', 't', 'a')
}

/// Where the chunk at `cursor` ends.
pub open spec fn chunk_end(wav: Seq<u8>, cursor: int) -> int {
    if is_streaming(wav, cursor) {
        wav.len() as int
    } else {
        cursor + 8 + bytes::le32_at(wav, cursor + 4)
    }
}

/// Where the chunk after the one at `cursor` starts. A chunk of odd length is padded.
pub open spec fn next_chunk(wav: Seq<u8>, cursor: int) -> int {
    if is_streaming(wav, cursor) {
        wav.len() as int
    } else {
        chunk_end(wav, cursor) + bytes::le32_at(wav, cursor + 4) % 2
    }
}

/// The chunks of a payload from `cursor` on, after those found before.
pub open spec fn parts_from(wav: Seq<u8>, cursor: int, found: WavParts) -> Result<
    WavParts,
    WavDecodeError,
>
    decreases wav.len() + 1 - cursor,
{
    if cursor < 0 || cursor + 8 > wav.len() {
        Ok(found)
    } else {
        let end = chunk_end(wav, cursor);
        let id = wav.subrange(cursor, cursor + 4);
        if end > usize::MAX {
            Err(WavDecodeError::ChunkLengthOverflow)
        } else if end > wav.len() {
            Err(WavDecodeError::TruncatedChunk)
        } else {
            let body = wav.subrange(cursor + 8, end);
            let format = if id == bytes::tag('f', 'm', 't', ' ') && found.format is None {
                match format_of(body) {
                    Ok(format) => Ok(Some(format)),
                    Err(e) => Err(e),
                }
            } else {
                Ok(found.format)
            };
            match format {
                Err(e) => Err(e),
                Ok(format) => if next_chunk(wav, cursor) > usize::MAX {
                    Err(WavDecodeError::ChunkPaddingOverflow)
                } else {
                    let data = if id == bytes::tag('d', 'a', 't', 'a') && found.data is None {
                        Some(body)
                    } else {
                        found.data
                    };
                    parts_from(wav, next_chunk(wav, cursor), WavParts { format, data })
                },
            }
        }
    }
}

/// Decoded, interleaved speech ready for playback, as a mathematical value.
#[verifier::ext_equal]
pub struct SpeechModel {
    pub sample_rate: u32,
    pub channels: u16,
    pub samples: SamplesModel,
}

/// What a WAV payload holds.
pub open spec fn speech_of(wav: Seq<u8>) -> Result<SpeechModel, WavDecodeError> {
    if wav.len() < 12 || wav.subrange(0, 4) != bytes::tag('R', 'I', 'F', 'F') || wav.subrange(8, 12)
        != bytes::tag('W', 'A', 'V', 'E') {
        Err(WavDecodeError::NotRiffWave)
    } else {
        match parts_from(wav, 12, WavParts { format: None, data: None }) {
            Err(e) => Err(e),
            Ok(parts) => match parts.format {
                None => Err(WavDecodeError::MissingFormat),
                Some(format) => match parts.data {
                    None => Err(WavDecodeError::MissingData),
                    Some(data) => match samples_of(data, format) {
                        Err(e) => Err(e),
                        Ok(samples) => if samples.count() == 0 {
                            Err(WavDecodeError::NoSamples)
                        } else {
                            Ok(
                                SpeechModel {
                                    sample_rate: format.sample_rate,
                                    channels: format.channels,
                                    samples,
                                },
                            )
                        },
                    },
                },
            },
        }
    }
}

/// Decoded, interleaved speech ready for playback.
#[derive(Debug, PartialEq, Eq)]
pub struct DiscordVoiceSpeechAudio {
    sample_rate: u32,
    channels: u16,
    samples: SpeechSamples,
}

impl View for DiscordVoiceSpeechAudio {
    type V = SpeechModel;

    closed spec fn view(&self) -> SpeechModel {
        SpeechModel {
            sample_rate: self.sample_rate,
            channels: self.channels,
            samples: self.samples@,
        }
    }
}

/// What a decoded payload stands for.
pub open spec fn speech_model(r: Result<DiscordVoiceSpeechAudio, WavDecodeError>) -> Result<
    SpeechModel,
    WavDecodeError,
> {
    match r {
        Ok(audio) => Ok(audio@),
        Err(e) => Err(e),
    }
}

impl DiscordVoiceSpeechAudio {
    /// Mono or stereo at a positive sample rate, with at least one sample.
    pub closed spec fn wf(&self) -> bool {
        &&& self.channels == 1 || self.channels == 2
        &&& self.sample_rate > 0
        &&& self.samples@.count() > 0
    }

    /// What holds of all decoded speech.
    pub proof fn lemma_wf(&self)
        requires
            self.wf(),
        ensures
            self@.channels == 1 || self@.channels == 2,
            self@.sample_rate > 0,
            self@.samples.count() > 0,
    {
    }

    /// Decodes a WAV payload.
    pub fn from_wav(wav: &[u8]) -> (r: Result<Self, WavDecodeError>)
        ensures
            speech_model(r) == speech_of(wav@),
            r matches Ok(audio) ==> audio.wf(),
    {
        if wav.len() < 12 || !bytes::has_tag(wav, 0, 'R', 'I', 'F', 'F') || !bytes::has_tag(
            wav,
            8,
            'W',
            'A',
            'V',
            'E',
        ) {
            return Err(WavDecodeError::NotRiffWave);
        }
        let mut format: Option<WavFormat> = None;
        let mut data: Option<&[u8]> = None;
        let mut cursor: usize = 12;
        let total = wav.len();
        let ghost start = WavParts { format: None, data: None };
        let ghost result = parts_from(wav@, 12, start);
        while total >= 8 && cursor <= total - 8
            invariant
                total == wav@.len(),
                wav@.len() >= 12,
                wav@.subrange(0, 4) == bytes::tag('R', 'I', 'F', 'F'),
                wav@.subrange(8, 12) == bytes::tag('W', 'A', 'V', 'E'),
                result == parts_from(wav@, 12, WavParts { format: None, data: None }),
                result == parts_from(
                    wav@,
                    cursor as int,
                    WavParts {
                        format,
                        data: match data {
                            Some(d) => Some(d@),
                            None => None,
                        },
                    },
                ),
                format matches Some(f) ==> (f.channels == 1 || f.channels == 2) && f.sample_rate
                    > 0,
            decreases total + 1 - cursor,
        {
            let declared = bytes::read_le32(wav, cursor + 4);
            let is_data = bytes::has_tag(wav, cursor, 'd', 'a', 't', 'a');
            let is_format = bytes::has_tag(wav, cursor, 'f', 'm', 't', ' ');
            let chunk_start = cursor + 8;
            let streaming = declared == 0xffff_ffff && is_data;
            let end = if streaming {
                total
            } else {
                match chunk_start.checked_add(declared as usize) {
                    Some(end) => end,
                    None => return Err(WavDecodeError::ChunkLengthOverflow),
                }
            };
            if end > total {
                return Err(WavDecodeError::TruncatedChunk);
            }
            let body = slice_subrange(wav, chunk_start, end);
            if is_format && format.is_none() {
                match parse_format(body) {
                    Ok(parsed) => {
                        format = Some(parsed);
                    },
                    Err(e) => return Err(e),
                }
            }
            let next = if streaming {
                end
            } else {
                match end.checked_add((declared % 2) as usize) {
                    Some(next) => next,
                    None => return Err(WavDecodeError::ChunkPaddingOverflow),
                }
            };
            if is_data && data.is_none() {
                data = Some(body);
            }
            cursor = next;
        }
        let format = match format {
            Some(format) => format,
            None => return Err(WavDecodeError::MissingFormat),
        };
        let data = match data {
            Some(data) => data,
            None => return Err(WavDecodeError::MissingData),
        };
        let samples = match decode_samples(data, format) {
            Ok(samples) => samples,
            Err(e) => return Err(e),
        };
        if samples.len() == 0 {
            return Err(WavDecodeError::NoSamples);
        }
        Ok(
            DiscordVoiceSpeechAudio {
                sample_rate: format.sample_rate,
                channels: format.channels,
                samples,
            },
        )
    }

    pub fn sample_rate(&self) -> (r: u32)
        ensures
            r == self@.sample_rate,
    {
        self.sample_rate
    }

    pub fn channels(&self) -> (r: u16)
        ensures
            r == self@.channels,
    {
        self.channels
    }

    pub fn samples(&self) -> (r: &SpeechSamples)
        ensures
            r@ == self@.samples,
    {
        &self.samples
    }

    /// How many frames the audio has. It takes that many sample periods to play.
    pub fn frame_count(&self) -> (r: u64)
        requires
            self.wf(),
        ensures
            r == self@.samples.count() as int / self@.channels as int,
    {
        self.samples.len() as u64 / self.channels as u64
    }
}

proof fn lemma_pcm_bytes_at(samples: Seq<i16>, i: int)
    requires
        0 <= i < samples.len(),
    ensures
        discord_voice::pcm_bytes(samples).len() == 2 * samples.len(),
        bytes::le16_at(discord_voice::pcm_bytes(samples), 2 * i) == discord_voice::sample_bits(
            samples[i],
        ),
    decreases samples.len(),
{
    let before = discord_voice::pcm_bytes(samples.drop_last());
    let last = bytes::le16(discord_voice::sample_bits(samples.last()));
    let all = discord_voice::pcm_bytes(samples);
    discord_voice::lemma_pcm_bytes_len(samples);
    discord_voice::lemma_pcm_bytes_len(samples.drop_last());
    assert(all == before + last);
    if i == samples.len() - 1 {
        assert(all.subrange(2 * i, 2 * i + 2) =~= last);
        bytes::lemma_le16(all, 2 * i, discord_voice::sample_bits(samples.last()));
    } else {
        lemma_pcm_bytes_at(samples.drop_last(), i);
        assert(all[2 * i] == before[2 * i]);
        assert(all[2 * i + 1] == before[2 * i + 1]);
    }
}

/// The bytes of samples decode to the samples.
pub proof fn lemma_pcm_round_trip(samples: Seq<i16>)
    ensures
        pcm_samples(discord_voice::pcm_bytes(samples)) == samples,
{
    let all = discord_voice::pcm_bytes(samples);
    discord_voice::lemma_pcm_bytes_len(samples);
    assert forall|i: int| 0 <= i < samples.len() implies #[trigger] pcm_samples(all)[i]
        == samples[i] by {
        lemma_pcm_bytes_at(samples, i);
    }
    assert(pcm_samples(all) =~= samples);
}

proof fn lemma_header_layout(
    w: Seq<u8>,
    riff_len: int,
    data_len: int,
    rate: int,
    channels: int,
    rest: Seq<u8>,
)
    requires
        w == discord_voice::declared_header(riff_len, data_len, rate, channels) + rest,
    ensures
        w.len() == 44 + rest.len(),
        w.subrange(0, 4) == bytes::tag('R', 'I', 'F', 'F'),
        w.subrange(8, 12) == bytes::tag('W', 'A', 'V', 'E'),
        w.subrange(12, 16) == bytes::tag('f', 'm', 't', ' '),
        w.subrange(16, 20) == bytes::le32(16),
        w.subrange(20, 36).subrange(0, 2) == bytes::le16(1),
        w.subrange(20, 36).subrange(2, 4) == bytes::le16(channels),
        w.subrange(20, 36).subrange(4, 8) == bytes::le32(rate),
        w.subrange(20, 36).subrange(12, 14) == bytes::le16(channels * 2),
        w.subrange(20, 36).subrange(14, 16) == bytes::le16(16),
        w.subrange(36, 40) == bytes::tag('d', 'a', 't', 'a'),
        w.subrange(40, 44) == bytes::le32(data_len),
        w.subrange(44, w.len() as int) == rest,
{
    reveal(discord_voice::declared_header);
    assert(w.subrange(0, 4) =~= bytes::tag('R', 'I', 'F', 'F'));
    assert(w.subrange(8, 12) =~= bytes::tag('W', 'A', 'V', 'E'));
    assert(w.subrange(12, 16) =~= bytes::tag('f', 'm', 't', ' '));
    assert(w.subrange(16, 20) =~= bytes::le32(16));
    assert(w.subrange(20, 36).subrange(0, 2) =~= bytes::le16(1));
    assert(w.subrange(20, 36).subrange(2, 4) =~= bytes::le16(channels));
    assert(w.subrange(20, 36).subrange(4, 8) =~= bytes::le32(rate));
    assert(w.subrange(20, 36).subrange(12, 14) =~= bytes::le16(channels * 2));
    assert(w.subrange(20, 36).subrange(14, 16) =~= bytes::le16(16));
    assert(w.subrange(36, 40) =~= bytes::tag('d', 'a', 't', 'a'));
    assert(w.subrange(40, 44) =~= bytes::le32(data_len));
    assert(w.subrange(44, w.len() as int) =~= rest);
}

proof fn lemma_two_chunks(w: Seq<u8>, rest: Seq<u8>, format: WavFormat)
    requires
        w.len() == 44 + rest.len(),
        w.len() <= usize::MAX,
        rest.len() % 2 == 0,
        w.subrange(12, 16) == bytes::tag('f', 'm', 't', ' '),
        bytes::le32_at(w, 16) == 16,
        format_of(w.subrange(20, 36)) == Ok::<WavFormat, WavDecodeError>(format),
        w.subrange(36, 40) == bytes::tag('d', 'a', 't', 'a'),
        bytes::le32_at(w, 40) == rest.len() || bytes::le32_at(w, 40) == 0xffff_ffff,
        w.subrange(44, w.len() as int) == rest,
    ensures
        parts_from(w, 12, WavParts { format: None, data: None }) == Ok::<WavParts, WavDecodeError>(
            WavParts { format: Some(format), data: Some(rest) },
        ),
{
    let none = WavParts { format: None, data: None };
    let first = WavParts { format: Some(format), data: None };
    let both = WavParts { format: Some(format), data: Some(rest) };
    let fmt_tag = bytes::tag('f', 'm', 't', ' ');
    let data_tag = bytes::tag('d', 'a', 't', 'a');
    assert(fmt_tag[0] != data_tag[0]);
    assert(chunk_end(w, 12) == 36 && next_chunk(w, 12) == 36);
    assert(parts_from(w, 12, none) == parts_from(w, 36, first));
    assert(chunk_end(w, 36) == w.len() && next_chunk(w, 36) == w.len());
    assert(parts_from(w, 36, first) == parts_from(w, w.len() as int, both));
}

proof fn lemma_format_chunk(body: Seq<u8>, sample_rate: u32, channels: u16)
    requires
        body.len() == 16,
        channels == 1 || channels == 2,
        sample_rate > 0,
        body.subrange(0, 2) == bytes::le16(1),
        body.subrange(2, 4) == bytes::le16(channels as int),
        body.subrange(4, 8) == bytes::le32(sample_rate as int),
        body.subrange(12, 14) == bytes::le16(channels * 2),
        body.subrange(14, 16) == bytes::le16(16),
    ensures
        format_of(body) == Ok::<WavFormat, WavDecodeError>(
            WavFormat {
                encoding: 1,
                channels,
                sample_rate,
                block_align: (channels * 2) as u16,
                bits_per_sample: 16,
            },
        ),
{
    bytes::lemma_le16(body, 0, 1);
    bytes::lemma_le16(body, 2, channels as int);
    bytes::lemma_le32(body, 4, sample_rate as int);
    bytes::lemma_le16(body, 12, channels * 2);
    bytes::lemma_le16(body, 14, 16);
}

/// What a payload with a 44-byte header holds, whether the length of its samples is declared or
/// declared unknown.
proof fn lemma_declared_payload(
    samples: Seq<i16>,
    riff_len: int,
    data_len: int,
    sample_rate: u32,
    channels: u16,
)
    requires
        data_len == 2 * samples.len() || data_len == 0xffff_ffff,
        0 <= data_len <= u32::MAX,
        44 + 2 * samples.len() <= usize::MAX,
        channels == 1 || channels == 2,
        sample_rate > 0,
        samples.len() > 0,
    ensures
        speech_of(
            discord_voice::declared_header(riff_len, data_len, sample_rate as int, channels as int)
                + discord_voice::pcm_bytes(samples),
        ) == Ok::<SpeechModel, WavDecodeError>(
            SpeechModel { sample_rate, channels, samples: SamplesModel::Pcm16(samples) },
        ),
{
    let rest = discord_voice::pcm_bytes(samples);
    let w = discord_voice::declared_header(
        riff_len,
        data_len,
        sample_rate as int,
        channels as int,
    ) + rest;
    discord_voice::lemma_pcm_bytes_len(samples);
    lemma_header_layout(w, riff_len, data_len, sample_rate as int, channels as int, rest);
    bytes::lemma_le32(w, 16, 16);
    bytes::lemma_le32(w, 40, data_len);
    lemma_format_chunk(w.subrange(20, 36), sample_rate, channels);
    let format = WavFormat {
        encoding: 1,
        channels,
        sample_rate,
        block_align: (channels * 2) as u16,
        bits_per_sample: 16,
    };
    lemma_two_chunks(w, rest, format);
    lemma_pcm_round_trip(samples);
    assert(samples_of(rest, format) == Ok::<SamplesModel, WavDecodeError>(
        SamplesModel::Pcm16(samples),
    ));
}

/// Mono or stereo audio that was written as a WAV file is read back as it was.
pub proof fn lemma_wav_round_trip(samples: Seq<i16>, sample_rate: u32, channels: u16)
    requires
        discord_voice::wav_error(samples.len(), sample_rate, channels) is None,
        channels == 1 || channels == 2,
        sample_rate > 0,
        samples.len() > 0,
    ensures
        speech_of(discord_voice::wav_file(samples, sample_rate as int, channels as int)) == Ok::<
            SpeechModel,
            WavDecodeError,
        >(SpeechModel { sample_rate, channels, samples: SamplesModel::Pcm16(samples) }),
{
    let data_len = 2 * samples.len() as int;
    lemma_declared_payload(samples, 36 + data_len, data_len, sample_rate, channels);
}

/// Mono or stereo audio that was streamed under a header with the length of its samples unknown,
/// and with any length of the file, is read back as it was.
pub proof fn lemma_wav_stream_round_trip(
    samples: Seq<i16>,
    riff_len: int,
    sample_rate: u32,
    channels: u16,
)
    requires
        44 + 2 * samples.len() <= usize::MAX,
        channels == 1 || channels == 2,
        sample_rate > 0,
        samples.len() > 0,
    ensures
        speech_of(
            discord_voice::wav_stream(samples, riff_len, sample_rate as int, channels as int),
        ) == Ok::<SpeechModel, WavDecodeError>(
            SpeechModel { sample_rate, channels, samples: SamplesModel::Pcm16(samples) },
        ),
{
    lemma_declared_payload(samples, riff_len, 0xffff_ffff, sample_rate, channels);
}

/// The decoder takes a payload for a RIFF/WAVE container exactly when synthesis let it pass.
pub proof fn lemma_decoder_agrees_with_synthesis(wav: Seq<u8>)
    ensures
        tts::is_wave(wav) <==> speech_of(wav) != Err::<SpeechModel, WavDecodeError>(
            WavDecodeError::NotRiffWave,
        ),
{
    lemma_walk_errors(wav, 12, WavParts { format: None, data: None });
}

proof fn lemma_walk_errors(wav: Seq<u8>, cursor: int, found: WavParts)
    ensures
        parts_from(wav, cursor, found) != Err::<WavParts, WavDecodeError>(
            WavDecodeError::NotRiffWave,
        ),
    decreases wav.len() + 1 - cursor,
{
    if 0 <= cursor && cursor + 8 <= wav.len() {
        let end = chunk_end(wav, cursor);
        if end <= wav.len() && next_chunk(wav, cursor) <= usize::MAX {
            let id = wav.subrange(cursor, cursor + 4);
            let body = wav.subrange(cursor + 8, end);
            let data = if id == bytes::tag('d', 'a', 't', 'a') && found.data is None {
                Some(body)
            } else {
                found.data
            };
            let next = next_chunk(wav, cursor);
            if id == bytes::tag('f', 'm', 't', ' ') && found.format is None {
                if format_of(body) is Ok {
                    lemma_walk_errors(
                        wav,
                        next,
                        WavParts { format: Some(format_of(body)->Ok_0), data },
                    );
                }
            } else {
                lemma_walk_errors(wav, next, WavParts { format: found.format, data });
            }
        }
    }
}

} // verus!
