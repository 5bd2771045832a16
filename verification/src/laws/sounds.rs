//! Audio files: how samples are written and read, and how speech is asked for.

use vstd::prelude::*;
use vstd::string::*;
use crate::bytes;
use crate::discord_voice;
use crate::discord_voice::{PcmSegment, WavEncodeError};
use crate::discord_voice_speech;
use crate::discord_voice_speech::{
    DiscordVoiceSpeechAudio, SpeechSamples, WavDecodeError, WavFormat, WavParts,
};
use crate::text;
use crate::tts;
use crate::tts::{SpeechRequest, TtsConfig, TtsError};

verus! {

/// Whether four bytes stand at a place.
pub open spec fn word_at(w: Seq<u8>, i: int, a: int, b: int, c: int, d: int) -> bool {
    w[i] == a && w[i + 1] == b && w[i + 2] == c && w[i + 3] == d
}

/// The number in two bytes, the smaller first.
pub open spec fn short_at(w: Seq<u8>, i: int) -> int {
    w[i] + 256 * w[i + 1]
}

/// The number in four bytes, the smallest first.
pub open spec fn long_at(w: Seq<u8>, i: int) -> int {
    w[i] + 256 * (w[i + 1] + 256 * (w[i + 2] + 256 * w[i + 3]))
}

/// Numbers are written with their least significant byte first, so that reading gives them back.
pub proof fn lemma_numbers_are_little_endian(n: int)
    ensures
        bytes::le16(n).len() == 2,
        bytes::le32(n).len() == 4,
        0 <= n < 65536 ==> short_at(bytes::le16(n), 0) == n,
        0 <= n < 0x1_0000_0000 ==> long_at(bytes::le32(n), 0) == n,
{
    if 0 <= n < 0x1_0000_0000 {
        assert(n / 16777216 < 256);
        let a = n % 256;
        let b = n / 256 % 256;
        let c = n / 65536 % 256;
        let d = n / 16777216 % 256;
        assert(n / 65536 == (n / 256) / 256);
        assert(n / 16777216 == (n / 65536) / 256);
        assert(n == a + 256 * (n / 256));
        assert(n / 256 == b + 256 * (n / 65536));
        assert(n / 65536 == c + 256 * (n / 16777216));
        let written = bytes::le32(n);
        assert(written[0] == a && written[1] == b && written[2] == c && written[3] == d);
    }
    if 0 <= n < 65536 {
        assert(n / 256 < 256);
        assert(bytes::le16(n)[0] == n % 256 && bytes::le16(n)[1] == n / 256);
    }
}

/// Reading takes the first byte for the least significant.
pub proof fn lemma_numbers_are_read_back(w: &[u8], i: usize, n: u16, m: u32)
    requires
        i + 4 <= w@.len(),
        call_ensures(bytes::read_le16, (w, i), n),
        call_ensures(bytes::read_le32, (w, i), m),
    ensures
        n == short_at(w@, i as int),
        m == long_at(w@, i as int),
{
}

/// The two bytes of a sample are its two's complement, the smaller first.
proof fn lemma_sample_bytes(samples: Seq<i16>, i: int)
    requires
        0 <= i < samples.len(),
    ensures
        discord_voice::pcm_bytes(samples).len() == 2 * samples.len(),
        short_at(discord_voice::pcm_bytes(samples), 2 * i) == if samples[i] < 0 {
            samples[i] + 65536
        } else {
            samples[i] as int
        },
    decreases samples.len(),
{
    discord_voice::lemma_pcm_bytes_len(samples);
    let rest = samples.drop_last();
    discord_voice::lemma_pcm_bytes_len(rest);
    let all = discord_voice::pcm_bytes(samples);
    let last = discord_voice::sample_bits(samples.last());
    lemma_numbers_are_little_endian(last);
    if i == samples.len() - 1 {
        assert(all[2 * i] == bytes::le16(last)[0]);
        assert(all[2 * i + 1] == bytes::le16(last)[1]);
    } else {
        lemma_sample_bytes(rest, i);
        let front = discord_voice::pcm_bytes(rest);
        assert(all[2 * i] == front[2 * i]);
        assert(all[2 * i + 1] == front[2 * i + 1]);
    }
}

/// The header is made of the RIFF words and of the numbers that describe the samples, each in
/// its place.
proof fn lemma_header_is_laid_out(riff: int, data: int, rate: int, channels: int)
    ensures
        ({
            let head = discord_voice::declared_header(riff, data, rate, channels);
            &&& head.len() == 44
            &&& word_at(head, 0, 82, 73, 70, 70)
            &&& head.subrange(4, 8) == bytes::le32(riff)
            &&& word_at(head, 8, 87, 65, 86, 69)
            &&& word_at(head, 12, 102, 109, 116, 32)
            &&& head.subrange(16, 20) == bytes::le32(16)
            &&& head.subrange(20, 22) == bytes::le16(1)
            &&& head.subrange(22, 24) == bytes::le16(channels)
            &&& head.subrange(24, 28) == bytes::le32(rate)
            &&& head.subrange(28, 32) == bytes::le32(rate * (channels * 2))
            &&& head.subrange(32, 34) == bytes::le16(channels * 2)
            &&& head.subrange(34, 36) == bytes::le16(16)
            &&& word_at(head, 36, 100, 97, 116, 97)
            &&& head.subrange(40, 44) == bytes::le32(data)
        }),
{
    reveal(discord_voice::declared_header);
    let head = discord_voice::declared_header(riff, data, rate, channels);
    assert(head.subrange(4, 8) =~= bytes::le32(riff));
    assert(head.subrange(16, 20) =~= bytes::le32(16));
    assert(head.subrange(20, 22) =~= bytes::le16(1));
    assert(head.subrange(22, 24) =~= bytes::le16(channels));
    assert(head.subrange(24, 28) =~= bytes::le32(rate));
    assert(head.subrange(28, 32) =~= bytes::le32(rate * (channels * 2)));
    assert(head.subrange(32, 34) =~= bytes::le16(channels * 2));
    assert(head.subrange(34, 36) =~= bytes::le16(16));
    assert(head.subrange(40, 44) =~= bytes::le32(data));
}

/// Samples are written as a WAV file: a header of 44 bytes, which says that they are 16-bit PCM
/// and how many channels, samples and bytes there are, then two bytes for each of them in their
/// order.
pub proof fn lemma_samples_are_written(
    samples: &[i16],
    rate: u32,
    channels: u16,
    r: Result<Vec<u8>, WavEncodeError>,
    i: int,
)
    requires
        call_ensures(discord_voice::encode_pcm_s16le_wav, (samples, rate, channels), r),
        r is Ok,
    ensures
        ({
            let w = r->Ok_0@;
            &&& w.len() == 44 + 2 * samples@.len()
            &&& word_at(w, 0, 82, 73, 70, 70)
            &&& long_at(w, 4) == w.len() - 8
            &&& word_at(w, 8, 87, 65, 86, 69)
            &&& word_at(w, 12, 102, 109, 116, 32)
            &&& long_at(w, 16) == 16
            &&& short_at(w, 20) == 1
            &&& short_at(w, 22) == channels
            &&& long_at(w, 24) == rate
            &&& long_at(w, 28) == rate * (channels * 2)
            &&& short_at(w, 32) == channels * 2
            &&& short_at(w, 34) == 16
            &&& word_at(w, 36, 100, 97, 116, 97)
            &&& long_at(w, 40) == 2 * samples@.len()
            &&& 0 <= i < samples@.len() ==> short_at(w, 44 + 2 * i) == if samples@[i] < 0 {
                samples@[i] + 65536
            } else {
                samples@[i] as int
            }
        }),
{
    let w = r->Ok_0@;
    let n = 2 * samples@.len() as int;
    let head = discord_voice::wav_header(n, rate as int, channels as int);
    assert(0 <= rate * (channels * 2)) by (nonlinear_arith)
        requires
            rate >= 0,
            channels >= 0,
    ;
    lemma_header_is_laid_out(36 + n, n, rate as int, channels as int);
    lemma_numbers_are_little_endian(36 + n);
    lemma_numbers_are_little_endian(n);
    lemma_numbers_are_little_endian(16);
    lemma_numbers_are_little_endian(1);
    lemma_numbers_are_little_endian(channels as int);
    lemma_numbers_are_little_endian(rate as int);
    lemma_numbers_are_little_endian(rate * (channels * 2));
    lemma_numbers_are_little_endian(channels * 2);
    discord_voice::lemma_pcm_bytes_len(samples@);
    assert forall|k: int| 0 <= k < 44 implies w[k] == #[trigger] head[k] by {}
    lemma_field(w, head, 4, bytes::le32(36 + n));
    lemma_field(w, head, 16, bytes::le32(16));
    lemma_short_field(w, head, 20, bytes::le16(1));
    lemma_short_field(w, head, 22, bytes::le16(channels as int));
    lemma_field(w, head, 24, bytes::le32(rate as int));
    lemma_field(w, head, 28, bytes::le32(rate * (channels * 2)));
    lemma_short_field(w, head, 32, bytes::le16(channels * 2));
    lemma_short_field(w, head, 34, bytes::le16(16));
    lemma_field(w, head, 40, bytes::le32(n));
    if 0 <= i < samples@.len() {
        lemma_sample_bytes(samples@, i);
        let body = discord_voice::pcm_bytes(samples@);
        assert(w[44 + 2 * i] == body[2 * i]);
        assert(w[44 + 2 * i + 1] == body[2 * i + 1]);
    }
}

proof fn lemma_field(w: Seq<u8>, head: Seq<u8>, at: int, field: Seq<u8>)
    requires
        0 <= at,
        at + 4 <= head.len() <= w.len(),
        forall|k: int| 0 <= k < head.len() ==> w[k] == #[trigger] head[k],
        field.len() == 4,
        head.subrange(at, at + 4) == field,
    ensures
        long_at(w, at) == long_at(field, 0),
{
    assert(head[at] == field[0]);
    assert(head[at + 1] == field[1]);
    assert(head[at + 2] == field[2]);
    assert(head[at + 3] == field[3]);
}

proof fn lemma_short_field(w: Seq<u8>, head: Seq<u8>, at: int, field: Seq<u8>)
    requires
        0 <= at,
        at + 2 <= head.len() <= w.len(),
        forall|k: int| 0 <= k < head.len() ==> w[k] == #[trigger] head[k],
        field.len() == 2,
        head.subrange(at, at + 2) == field,
    ensures
        short_at(w, at) == short_at(field, 0),
{
    assert(head[at] == field[0]);
    assert(head[at + 1] == field[1]);
}

/// Samples that fill whole frames of at least one channel are written, unless a field of the
/// header could not hold its number.
pub proof fn lemma_unwritable_samples_are_refused(
    samples: &[i16],
    rate: u32,
    channels: u16,
    r: Result<Vec<u8>, WavEncodeError>,
)
    requires
        call_ensures(discord_voice::encode_pcm_s16le_wav, (samples, rate, channels), r),
        samples@.len() < 0x4000_0000,
    ensures
        r is Ok <==> channels != 0 && samples@.len() % (channels as nat) == 0 && channels < 32768
            && rate * (channels * 2) <= 0xffff_ffff,
        channels == 0 <==> r == Err::<Vec<u8>, WavEncodeError>(WavEncodeError::ZeroChannels),
        channels != 0 && samples@.len() % (channels as nat) != 0 <==> r is Err && r->Err_0
            is SamplesNotChannelAligned,
        r is Err && r->Err_0 is SamplesNotChannelAligned ==> r->Err_0->sample_count
            == samples@.len() && r->Err_0->SamplesNotChannelAligned_channels == channels,
        channels >= 32768 && samples@.len() % (channels as nat) == 0 <==> r is Err && r->Err_0
            is BlockAlignOverflow,
{
}

/// Captured speech is written as stereo at 48 kHz.
pub proof fn lemma_captures_are_written(
    segment: &PcmSegment,
    samples: &[i16],
    r: Result<Vec<u8>, WavEncodeError>,
    s: Result<Vec<u8>, WavEncodeError>,
)
    requires
        call_ensures(PcmSegment::to_wav_bytes, (segment,), r),
        call_ensures(discord_voice::encode_pcm_s16le_wav, (samples, 48000u32, 2u16), s),
        samples@ == segment.interleaved_samples@,
    ensures
        r is Ok <==> s is Ok,
        r is Ok ==> r->Ok_0@ == s->Ok_0@,
{
}

/// What the bytes of a format chunk say: the encoding, the channels, the rate, the bytes of a
/// frame and the bits of a sample. Only mono and stereo at a positive rate are taken.
pub proof fn lemma_formats_are_read(chunk: &[u8], r: Result<WavFormat, WavDecodeError>)
    requires
        call_ensures(discord_voice_speech::parse_format, (chunk,), r),
    ensures
        chunk@.len() < 16 <==> r == Err::<WavFormat, WavDecodeError>(WavDecodeError::ShortFormat),
        chunk@.len() >= 16 && short_at(chunk@, 2) != 1 && short_at(chunk@, 2) != 2 <==> r == Err::<
            WavFormat,
            WavDecodeError,
        >(WavDecodeError::ChannelCount),
        r is Ok <==> chunk@.len() >= 16 && (short_at(chunk@, 2) == 1 || short_at(chunk@, 2) == 2)
            && long_at(chunk@, 4) > 0,
        r is Ok ==> {
            &&& r->Ok_0.encoding == short_at(chunk@, 0)
            &&& r->Ok_0.channels == short_at(chunk@, 2)
            &&& r->Ok_0.sample_rate == long_at(chunk@, 4)
            &&& r->Ok_0.block_align == short_at(chunk@, 12)
            &&& r->Ok_0.bits_per_sample == short_at(chunk@, 14)
        },
{
}

/// Sixteen-bit samples are read as two's complement, two bytes each.
pub proof fn lemma_sixteen_bit_samples_are_read(
    data: &[u8],
    format: WavFormat,
    r: Result<SpeechSamples, WavDecodeError>,
    i: int,
)
    requires
        call_ensures(discord_voice_speech::decode_samples, (data, format), r),
        format.encoding == 1,
        format.bits_per_sample == 16,
        format.block_align == format.channels * 2,
    ensures
        r is Ok <==> data@.len() % 2 == 0,
        r is Ok ==> r->Ok_0 is Pcm16,
        r is Ok ==> 2 * r->Ok_0->Pcm16_0@.len() == data@.len(),
        r is Ok && 0 <= i < r->Ok_0->Pcm16_0@.len() ==> {
            let n = short_at(data@, 2 * i);
            r->Ok_0->Pcm16_0@[i] == if n < 32768 {
                n
            } else {
                n - 65536
            }
        },
        r is Err ==> r->Err_0 is TruncatedSamples,
{
}

/// Thirty-two-bit samples are floating-point numbers, four bytes each. One beyond 1 is taken for
/// 1 and one below -1 for -1; one that is no number, or infinite, spoils the whole.
pub proof fn lemma_floating_point_samples_are_read(
    data: &[u8],
    format: WavFormat,
    r: Result<SpeechSamples, WavDecodeError>,
    i: int,
)
    requires
        call_ensures(discord_voice_speech::decode_samples, (data, format), r),
        format.encoding == 3,
        format.bits_per_sample == 32,
        format.block_align == format.channels * 4,
        data@.len() % 4 == 0,
        0 <= i < data@.len() / 4,
    ensures
        long_at(data@, 4 * i) % 0x8000_0000 >= 0x7f80_0000 ==> r is Err,
        r is Err ==> r->Err_0 is NonFiniteSample,
        r is Ok ==> {
            let n = long_at(data@, 4 * i);
            &&& r->Ok_0 is Float32
            &&& 4 * r->Ok_0->Float32_0@.len() == data@.len()
            &&& n <= 0x3f80_0000 ==> r->Ok_0->Float32_0@[i] == n
            &&& 0x3f80_0000 < n < 0x8000_0000 ==> r->Ok_0->Float32_0@[i] == 0x3f80_0000
            &&& 0x8000_0000 <= n <= 0xbf80_0000 ==> r->Ok_0->Float32_0@[i] == n
            &&& n > 0xbf80_0000 ==> r->Ok_0->Float32_0@[i] == 0xbf80_0000
        },
{
    let bits = discord_voice_speech::float_bits(data@);
    assert(bits[i] == bytes::le32_at(data@, 4 * i) as u32);
    assert(bytes::le32_at(data@, 4 * i) == long_at(data@, 4 * i));
    assert(0 <= long_at(data@, 4 * i) < 0x1_0000_0000);
}

/// Nothing else is read: neither other encodings, nor frames that do not hold one sample for each
/// channel, nor samples of no whole bytes.
pub proof fn lemma_other_samples_are_refused(
    data: &[u8],
    format: WavFormat,
    r: Result<SpeechSamples, WavDecodeError>,
)
    requires
        call_ensures(discord_voice_speech::decode_samples, (data, format), r),
    ensures
        r is Ok ==> (format.encoding == 1 && format.bits_per_sample == 16 && format.block_align
            == format.channels * 2) || (format.encoding == 3 && format.bits_per_sample == 32
            && format.block_align == format.channels * 4),
        format.bits_per_sample < 8 <==> r is Err && r->Err_0 is InvalidBits,
{
}

/// A chunk that is neither the format nor the data is passed over, with the byte that pads it
/// when its length is odd.
pub proof fn lemma_other_chunks_are_passed_over(w: Seq<u8>, cursor: int, found: WavParts)
    requires
        0 <= cursor,
        cursor + 8 <= w.len() <= usize::MAX - 1,
        !word_at(w, cursor, 102, 109, 116, 32),
        !word_at(w, cursor, 100, 97, 116, 97),
        cursor + 8 + long_at(w, cursor + 4) <= w.len(),
    ensures
        discord_voice_speech::parts_from(w, cursor, found) == discord_voice_speech::parts_from(
            w,
            cursor + 8 + long_at(w, cursor + 4) + long_at(w, cursor + 4) % 2,
            found,
        ),
{
    lemma_ids(w, cursor);
}

proof fn lemma_ids(w: Seq<u8>, cursor: int)
    requires
        0 <= cursor,
        cursor + 8 <= w.len(),
    ensures
        w.subrange(cursor, cursor + 4) == bytes::tag('f', 'm', 't', ' ') <==> word_at(
            w,
            cursor,
            102,
            109,
            116,
            32,
        ),
        w.subrange(cursor, cursor + 4) == bytes::tag('d', 'a', 't', 'a') <==> word_at(
            w,
            cursor,
            100,
            97,
            116,
            97,
        ),
        bytes::le32_at(w, cursor + 4) == long_at(w, cursor + 4),
{
    let id = w.subrange(cursor, cursor + 4);
    let f = bytes::tag('f', 'm', 't', ' ');
    let d = bytes::tag('d', 'a', 't', 'a');
    assert(f[0] == 102 && f[1] == 109 && f[2] == 116 && f[3] == 32);
    assert(d[0] == 100 && d[1] == 97 && d[2] == 116 && d[3] == 97);
    assert(id[0] == w[cursor] && id[1] == w[cursor + 1] && id[2] == w[cursor + 2] && id[3] == w[
    cursor + 3]);
    if word_at(w, cursor, 102, 109, 116, 32) {
        assert(id =~= f);
    }
    if word_at(w, cursor, 100, 97, 116, 97) {
        assert(id =~= d);
    }
}

/// The first data chunk counts, and it holds as many bytes as it says. One that says nothing,
/// because it was streamed, goes on to the end.
pub proof fn lemma_data_is_found(w: Seq<u8>, cursor: int, found: WavParts)
    requires
        0 <= cursor,
        cursor + 8 <= w.len() <= usize::MAX - 1,
        word_at(w, cursor, 100, 97, 116, 97),
        found.data is None,
    ensures
        long_at(w, cursor + 4) == 0xffff_ffff ==> discord_voice_speech::parts_from(
            w,
            cursor,
            found,
        ) == Ok::<WavParts, WavDecodeError>(
            (WavParts { format: found.format, data: Some(w.skip(cursor + 8)) }),
        ),
        long_at(w, cursor + 4) < 0xffff_ffff && cursor + 8 + long_at(w, cursor + 4) <= w.len()
            ==> discord_voice_speech::parts_from(w, cursor, found)
            == discord_voice_speech::parts_from(
            w,
            cursor + 8 + long_at(w, cursor + 4) + long_at(w, cursor + 4) % 2,
            (WavParts {
                format: found.format,
                data: Some(w.subrange(cursor + 8, cursor + 8 + long_at(w, cursor + 4))),
            }),
        ),
        cursor + 8 + long_at(w, cursor + 4) > w.len() && long_at(w, cursor + 4) < 0xffff_ffff
            && cursor + 8 + long_at(w, cursor + 4) <= usize::MAX
            ==> discord_voice_speech::parts_from(w, cursor, found) == Err::<
            WavParts,
            WavDecodeError,
        >(WavDecodeError::TruncatedChunk),
{
    lemma_ids(w, cursor);
    let f = bytes::tag('f', 'm', 't', ' ');
    let d = bytes::tag('d', 'a', 't', 'a');
    assert(f[0] == 102 && d[0] == 100);
    assert(w.subrange(cursor + 8, w.len() as int) =~= w.skip(cursor + 8));
    reveal_with_fuel(discord_voice_speech::parts_from, 2);
}

/// Only a RIFF/WAVE container with a format, with data and with at least one sample is speech, and
/// the speech has the rate, the channels and the samples of the container.
pub proof fn lemma_speech_is_read(
    wav: &[u8],
    r: Result<DiscordVoiceSpeechAudio, WavDecodeError>,
    parts: Result<WavParts, WavDecodeError>,
    data: &[u8],
    samples: Result<SpeechSamples, WavDecodeError>,
)
    requires
        call_ensures(DiscordVoiceSpeechAudio::from_wav, (wav,), r),
        parts == discord_voice_speech::parts_from(
            wav@,
            12,
            (WavParts { format: None, data: None }),
        ),
        parts is Ok && parts->Ok_0.format is Some && parts->Ok_0.data is Some,
        data@ == parts->Ok_0.data->0,
        call_ensures(
            discord_voice_speech::decode_samples,
            (data, parts->Ok_0.format->0),
            samples,
        ),
        samples is Ok,
    ensures
        r is Ok <==> wav@.len() >= 12 && word_at(wav@, 0, 82, 73, 70, 70) && word_at(
            wav@,
            8,
            87,
            65,
            86,
            69,
        ) && samples->Ok_0@.count() > 0,
        r is Ok ==> {
            &&& r->Ok_0@.sample_rate == parts->Ok_0.format->0.sample_rate
            &&& r->Ok_0@.channels == parts->Ok_0.format->0.channels
            &&& r->Ok_0@.samples == samples->Ok_0@
        },
        r is Err && wav@.len() >= 12 && word_at(wav@, 0, 82, 73, 70, 70) && word_at(
            wav@,
            8,
            87,
            65,
            86,
            69,
        ) ==> r->Err_0 is NoSamples,
{
    lemma_container(wav@);
}

proof fn lemma_container(w: Seq<u8>)
    ensures
        w.len() >= 12 ==> {
            &&& w.subrange(0, 4) == bytes::tag('R', 'I', 'F', 'F') <==> word_at(
                w,
                0,
                82,
                73,
                70,
                70,
            )
            &&& w.subrange(8, 12) == bytes::tag('W', 'A', 'V', 'E') <==> word_at(
                w,
                8,
                87,
                65,
                86,
                69,
            )
        },
{
    if w.len() >= 12 {
        let riff = bytes::tag('R', 'I', 'F', 'F');
        let wave = bytes::tag('W', 'A', 'V', 'E');
        assert(riff[0] == 82 && riff[1] == 73 && riff[2] == 70 && riff[3] == 70);
        assert(wave[0] == 87 && wave[1] == 65 && wave[2] == 86 && wave[3] == 69);
        let a = w.subrange(0, 4);
        let b = w.subrange(8, 12);
        assert(a[0] == w[0] && a[1] == w[1] && a[2] == w[2] && a[3] == w[3]);
        assert(b[0] == w[8] && b[1] == w[9] && b[2] == w[10] && b[3] == w[11]);
        if word_at(w, 0, 82, 73, 70, 70) {
            assert(a =~= riff);
        }
        if word_at(w, 8, 87, 65, 86, 69) {
            assert(b =~= wave);
        }
    }
}

/// A synthesised payload passes exactly when it begins as a RIFF/WAVE container does.
pub proof fn lemma_payloads_are_checked(audio: &[u8], r: Result<(), TtsError>)
    requires
        call_ensures(tts::validate_wav, (audio,), r),
    ensures
        r is Ok <==> audio@.len() >= 12 && word_at(audio@, 0, 82, 73, 70, 70) && word_at(
            audio@,
            8,
            87,
            65,
            86,
            69,
        ),
        r is Err ==> r->Err_0 is NotWav,
{
    lemma_container(audio@);
}

/// The frames of speech are its samples over its channels.
pub proof fn lemma_frames_hold_every_channel(audio: &DiscordVoiceSpeechAudio, r: u64)
    requires
        audio.wf(),
        call_ensures(DiscordVoiceSpeechAudio::frame_count, (audio,), r),
    ensures
        audio@.channels == 1 ==> r == audio@.samples.count(),
        audio@.channels == 2 ==> 2 * r <= audio@.samples.count() <= 2 * r + 1,
{
}

/// A response is taken as long as it stays within its limit; the chunk that would exceed it is
/// refused and nothing of it is kept.
pub proof fn lemma_responses_are_bounded(
    body: &mut Vec<u8>,
    chunk: &[u8],
    limit: usize,
    r: Result<(), TtsError>,
)
    requires
        call_ensures(tts::append_bounded, (body, chunk, limit), r),
    ensures
        r is Ok <==> old(body)@.len() + chunk@.len() <= limit,
        r is Ok ==> final(body)@ == old(body)@ + chunk@,
        r is Err ==> final(body)@ == old(body)@ && r->Err_0 == (TtsError::TooLarge { limit }),
        r is Ok ==> final(body)@.len() <= limit,
{
}

/// A response that announces more than the limit is refused; one that announces nothing is not.
pub proof fn lemma_announced_lengths_are_bounded(
    length: Option<u64>,
    limit: usize,
    r: Result<(), TtsError>,
)
    requires
        call_ensures(tts::check_content_length, (length, limit), r),
    ensures
        r is Err <==> length is Some && length->0 > limit,
        r is Err ==> r->Err_0 == (TtsError::TooLarge { limit }),
{
}

/// Speech is asked for with the configured key, model and voice, without white space around them,
/// and with the text exactly as it is given.
pub proof fn lemma_speech_is_asked_for(
    cfg: &TtsConfig,
    input: &str,
    limit: usize,
    r: Result<SpeechRequest, TtsError>,
)
    requires
        call_ensures(tts::speech_request, (cfg, input, limit), r),
    ensures
        r is Ok <==> cfg.enabled && !text::blank(cfg.api_key@) && !text::blank(cfg.model@)
            && !text::blank(cfg.voice@) && !text::blank(input@) && cfg.request_timeout_seconds > 0
            && limit >= 12 && tts::base_url_of(cfg.base_url@).len() > 0,
        !cfg.enabled ==> r->Err_0 is Disabled,
        cfg.enabled && text::blank(cfg.api_key@) ==> r->Err_0 is EmptyApiKey,
        r is Ok ==> {
            &&& r->Ok_0.input@ == input@
            &&& r->Ok_0.bearer_token@ == text::trimmed_white(cfg.api_key@)
            &&& r->Ok_0.model@ == text::trimmed_white(cfg.model@)
            &&& r->Ok_0.voice@ == text::trimmed_white(cfg.voice@)
            &&& r->Ok_0.timeout_seconds == cfg.request_timeout_seconds
            &&& r->Ok_0.response_format@ == "wav"@
            &&& r->Ok_0.url@ == tts::base_url_of(cfg.base_url@) + "/audio/speech"@
            &&& r->Ok_0.instructions is Some <==> cfg.instructions is Some && !text::blank(
                cfg.instructions->0@,
            )
            &&& r->Ok_0.instructions is Some ==> r->Ok_0.instructions->0@ == text::trimmed_white(
                cfg.instructions->0@,
            )
        },
{
}

/// Each thing that is missing from a request for speech has its own error, in this order.
pub proof fn lemma_missing_settings_are_named(
    cfg: &TtsConfig,
    input: &str,
    limit: usize,
    r: Result<SpeechRequest, TtsError>,
)
    requires
        call_ensures(tts::speech_request, (cfg, input, limit), r),
        cfg.enabled,
        !text::blank(cfg.api_key@),
    ensures
        text::blank(cfg.model@) ==> r->Err_0 is EmptyModel,
        !text::blank(cfg.model@) && text::blank(cfg.voice@) ==> r->Err_0 is EmptyVoice,
        !text::blank(cfg.model@) && !text::blank(cfg.voice@) ==> {
            &&& text::blank(input@) ==> r->Err_0 is EmptyInput
            &&& !text::blank(input@) && cfg.request_timeout_seconds == 0 ==> r->Err_0
                is ZeroTimeout
            &&& !text::blank(input@) && cfg.request_timeout_seconds > 0 ==> {
                &&& limit < 12 ==> r->Err_0 is LimitTooSmall
                &&& limit >= 12 && r is Err ==> r->Err_0 is EmptyBaseUrl
            }
        },
{
}

/// So many slashes.
pub open spec fn slashes(k: nat) -> Seq<char> {
    Seq::new(k, |j: int| '/')
}

/// A base address has no slash at its end, and is otherwise what is between the white space.
pub proof fn lemma_base_addresses_have_no_slash(url: &str, r: String)
    requires
        call_ensures(tts::normalized_base_url, (url,), r),
    ensures
        r@.len() > 0 ==> r@.last() != '/',
        exists|k: nat|
            r@ + #[trigger] slashes(k) == text::trimmed_white(url@),
{
    lemma_slashes(text::trimmed_white(url@));
}

proof fn lemma_slashes(s: Seq<char>)
    ensures
        ({
            let t = text::trimmed_end(s, text::CharClass::Slash);
            &&& t.len() > 0 ==> t.last() != '/'
            &&& exists|k: nat|
                t + #[trigger] slashes(k) == s
        }),
    decreases s.len(),
{
    let t = text::trimmed_end(s, text::CharClass::Slash);
    if s.len() == 0 || s.last() != '/' {
        assert(t + slashes(0) =~= s);
    } else {
        lemma_slashes(s.drop_last());
        let k = choose|k: nat|
            t + #[trigger] slashes(k) == s.drop_last();
        assert(t + slashes(k + 1) =~= s.drop_last().push('/'));
        assert(s.drop_last().push('/') =~= s);
    }
}

/// Speech can be synthesised when it is enabled and has a key.
pub proof fn lemma_speech_needs_a_key(cfg: &TtsConfig, r: bool)
    requires
        call_ensures(TtsConfig::is_available, (cfg,), r),
    ensures
        r ==> cfg.enabled,
        text::blank(cfg.api_key@) ==> !r,
        cfg.enabled && !text::blank(cfg.api_key@) ==> r,
{
}

/// The first format chunk counts, and what it says is what its bytes say; later ones are passed
/// over, and one that cannot be read is an error.
pub proof fn lemma_formats_are_found(
    w: Seq<u8>,
    cursor: int,
    found: WavParts,
    body: &[u8],
    r: Result<WavFormat, WavDecodeError>,
)
    requires
        0 <= cursor,
        cursor + 8 <= w.len() <= usize::MAX - 1,
        word_at(w, cursor, 102, 109, 116, 32),
        cursor + 8 + long_at(w, cursor + 4) <= w.len(),
        body@ == w.subrange(cursor + 8, cursor + 8 + long_at(w, cursor + 4)),
        call_ensures(discord_voice_speech::parse_format, (body,), r),
    ensures
        ({
            let next = cursor + 8 + long_at(w, cursor + 4) + long_at(w, cursor + 4) % 2;
            let all = discord_voice_speech::parts_from(w, cursor, found);
            &&& found.format is Some ==> all == discord_voice_speech::parts_from(w, next, found)
            &&& found.format is None && r is Ok ==> all == discord_voice_speech::parts_from(
                w,
                next,
                (WavParts { format: Some(r->Ok_0), data: found.data }),
            )
            &&& found.format is None && r is Err ==> all == Err::<WavParts, WavDecodeError>(
                r->Err_0,
            )
        }),
{
    lemma_ids(w, cursor);
    let f = bytes::tag('f', 'm', 't', ' ');
    let d = bytes::tag('d', 'a', 't', 'a');
    assert(f[0] == 102 && d[0] == 100);
}

/// A later data chunk is passed over.
pub proof fn lemma_later_data_is_passed_over(w: Seq<u8>, cursor: int, found: WavParts)
    requires
        0 <= cursor,
        cursor + 8 <= w.len() <= usize::MAX - 1,
        word_at(w, cursor, 100, 97, 116, 97),
        found.data is Some,
        long_at(w, cursor + 4) < 0xffff_ffff,
        cursor + 8 + long_at(w, cursor + 4) <= w.len(),
    ensures
        discord_voice_speech::parts_from(w, cursor, found) == discord_voice_speech::parts_from(
            w,
            cursor + 8 + long_at(w, cursor + 4) + long_at(w, cursor + 4) % 2,
            found,
        ),
{
    lemma_ids(w, cursor);
    let f = bytes::tag('f', 'm', 't', ' ');
    let d = bytes::tag('d', 'a', 't', 'a');
    assert(f[0] == 102 && d[0] == 100);
}

/// A container without a format, or without data, is not speech, and says which it lacks; one
/// that breaks off says so.
pub proof fn lemma_incomplete_containers_are_refused(
    wav: &[u8],
    r: Result<DiscordVoiceSpeechAudio, WavDecodeError>,
    parts: Result<WavParts, WavDecodeError>,
)
    requires
        call_ensures(DiscordVoiceSpeechAudio::from_wav, (wav,), r),
        parts == discord_voice_speech::parts_from(
            wav@,
            12,
            (WavParts { format: None, data: None }),
        ),
    ensures
        ({
            let container = wav@.len() >= 12 && word_at(wav@, 0, 82, 73, 70, 70) && word_at(
                wav@,
                8,
                87,
                65,
                86,
                69,
            );
            &&& !container ==> r is Err && r->Err_0 is NotRiffWave
            &&& container && parts is Err ==> r is Err && r->Err_0 == parts->Err_0
            &&& container && parts is Ok && parts->Ok_0.format is None ==> r is Err && r->Err_0
                is MissingFormat
            &&& container && parts is Ok && parts->Ok_0.format is Some && parts->Ok_0.data is None
                ==> r is Err && r->Err_0 is MissingData
        }),
{
    lemma_container(wav@);
}

} // verus!
