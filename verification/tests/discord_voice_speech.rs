//! Speech that was synthesized as WAV audio.

use openab_core::discord_voice::encode_pcm_s16le_wav;
use openab_core::discord_voice_speech::{
    decode_samples, parse_format, DiscordVoiceSpeechAudio, SpeechSamples, WavDecodeError,
};
use std::time::Duration;

fn duration(audio: &DiscordVoiceSpeechAudio) -> Duration {
    Duration::from_secs_f64(audio.frame_count() as f64 / f64::from(audio.sample_rate()))
}

fn pcm16_wav(sample_rate: u32, channels: u16, samples: &[i16]) -> Vec<u8> {
    let data_len = samples.len() * 2;
    let mut wav = Vec::new();
    wav.extend_from_slice(b"RIFF");
    wav.extend_from_slice(&(36_u32 + data_len as u32).to_le_bytes());
    wav.extend_from_slice(b"WAVEfmt ");
    wav.extend_from_slice(&16_u32.to_le_bytes());
    wav.extend_from_slice(&1_u16.to_le_bytes());
    wav.extend_from_slice(&channels.to_le_bytes());
    wav.extend_from_slice(&sample_rate.to_le_bytes());
    wav.extend_from_slice(&(sample_rate * u32::from(channels) * 2).to_le_bytes());
    wav.extend_from_slice(&(channels * 2).to_le_bytes());
    wav.extend_from_slice(&16_u16.to_le_bytes());
    wav.extend_from_slice(b"data");
    wav.extend_from_slice(&(data_len as u32).to_le_bytes());
    for sample in samples {
        wav.extend_from_slice(&sample.to_le_bytes());
    }
    wav
}

#[test]
fn decodes_pcm16_and_reports_duration() {
    let audio =
        DiscordVoiceSpeechAudio::from_wav(&pcm16_wav(24_000, 1, &vec![i16::MAX; 24_000]))
            .unwrap();
    assert_eq!(audio.sample_rate(), 24_000);
    assert_eq!(audio.channels(), 1);
    assert_eq!(audio.samples().len(), 24_000);
    assert_eq!(duration(&audio), Duration::from_secs(1));
}

#[test]
fn decodes_streaming_wav_with_unknown_riff_and_data_lengths() {
    let mut wav = pcm16_wav(24_000, 1, &vec![i16::MAX; 24_000]);
    wav[4..8].copy_from_slice(&u32::MAX.to_le_bytes());
    wav[40..44].copy_from_slice(&u32::MAX.to_le_bytes());

    let audio = DiscordVoiceSpeechAudio::from_wav(&wav).unwrap();

    assert_eq!(audio.sample_rate(), 24_000);
    assert_eq!(audio.channels(), 1);
    assert_eq!(audio.samples().len(), 24_000);
    assert_eq!(duration(&audio), Duration::from_secs(1));
}

#[test]
fn rejects_unsupported_and_truncated_wav() {
    let mut unsupported = pcm16_wav(24_000, 1, &[0]);
    unsupported[20..22].copy_from_slice(&6_u16.to_le_bytes());
    assert!(DiscordVoiceSpeechAudio::from_wav(&unsupported)
        .unwrap_err()
        .message()
        .contains("unsupported WAV encoding"));

    let mut truncated = pcm16_wav(24_000, 1, &[0]);
    truncated.pop();
    assert!(DiscordVoiceSpeechAudio::from_wav(&truncated)
        .unwrap_err()
        .message()
        .contains("truncated WAV chunk"));
}

#[test]
fn decodes_what_the_encoder_wrote() {
    let samples = vec![1_i16, -2, i16::MIN, i16::MAX];
    let wav = encode_pcm_s16le_wav(&samples, 48_000, 2).unwrap();
    let audio = DiscordVoiceSpeechAudio::from_wav(&wav).unwrap();
    assert_eq!(audio.sample_rate(), 48_000);
    assert_eq!(audio.channels(), 2);
    assert_eq!(audio.frame_count(), 2);
    match audio.samples() {
        SpeechSamples::Pcm16(decoded) => assert_eq!(decoded, &samples),
        other => panic!("unexpected: {other:?}"),
    }
}

#[test]
fn floating_point_samples_are_kept_bit_by_bit() {
    let mut chunk = Vec::new();
    chunk.extend_from_slice(&3_u16.to_le_bytes());
    chunk.extend_from_slice(&1_u16.to_le_bytes());
    chunk.extend_from_slice(&24_000_u32.to_le_bytes());
    chunk.extend_from_slice(&96_000_u32.to_le_bytes());
    chunk.extend_from_slice(&4_u16.to_le_bytes());
    chunk.extend_from_slice(&32_u16.to_le_bytes());
    let format = parse_format(&chunk).unwrap();
    let data = 0.5_f32.to_le_bytes();
    match decode_samples(&data, format).unwrap() {
        SpeechSamples::Float32(bits) => assert_eq!(bits, vec![0.5_f32.to_bits()]),
        other => panic!("unexpected: {other:?}"),
    }
}

#[test]
fn payloads_without_container_are_refused() {
    assert_eq!(
        DiscordVoiceSpeechAudio::from_wav(b"not audio").err(),
        Some(WavDecodeError::NotRiffWave)
    );
    assert_eq!(parse_format(&[0; 8]).err(), Some(WavDecodeError::ShortFormat));
}
