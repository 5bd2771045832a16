//! Capture of speech, WAV files, transcripts and drop counters.

use openab_core::discord_voice::{
    encode_pcm_s16le_wav, saturating_add_to, PcmCaptureConfig, PcmCaptureConfigError,
    PcmCaptureError, PcmCaptureStats, PcmSegment, SegmentBoundary, SpeakerPcmBuffer,
    TranscriptEntry, TranscriptPushOutcome, TranscriptStore, TranscriptStoreError,
    VoiceDropCounters, VoiceDropSnapshot, WavEncodeError,
};
use std::sync::{Arc, Mutex};

fn config(
    threshold: u16,
    minimum_speech_frames: usize,
    trailing_silence_frames: usize,
    maximum_segment_frames: usize,
) -> PcmCaptureConfig {
    PcmCaptureConfig::from_frame_counts(
        threshold,
        minimum_speech_frames,
        trailing_silence_frames,
        maximum_segment_frames,
    )
    .expect("valid test capture config")
}

fn stereo_frames(amplitudes: &[i16]) -> Vec<i16> {
    amplitudes
        .iter()
        .flat_map(|sample| [*sample, *sample])
        .collect()
}

fn transcript(speaker_id: u64, text: &str) -> TranscriptEntry {
    TranscriptEntry {
        speaker_id,
        speaker_name: format!("speaker-{speaker_id}"),
        start_frame: 0,
        end_frame: 48_000,
        text: text.to_owned(),
    }
}

#[test]
fn default_capture_durations_are_explicit() {
    let config = PcmCaptureConfig::default();
    assert_eq!(config.silence_threshold(), 500);
    assert_eq!(config.minimum_speech_frames(), 4_800);
    assert_eq!(config.trailing_silence_frames(), 96_000);
    assert_eq!(config.maximum_segment_frames(), 1_440_000);
}

#[test]
fn millisecond_configuration_rounds_up_to_frames() {
    let config = PcmCaptureConfig::from_millis(10, 1, 2, 3).unwrap();
    assert_eq!(config.minimum_speech_frames(), 48);
    assert_eq!(config.trailing_silence_frames(), 96);
    assert_eq!(config.maximum_segment_frames(), 144);
}

#[test]
fn invalid_capture_configuration_is_rejected() {
    assert_eq!(
        PcmCaptureConfig::from_frame_counts(0, 0, 1, 1),
        Err(PcmCaptureConfigError::ZeroMinimumSpeech)
    );
    assert_eq!(
        PcmCaptureConfig::from_frame_counts(0, 1, 0, 1),
        Err(PcmCaptureConfigError::ZeroTrailingSilence)
    );
    assert_eq!(
        PcmCaptureConfig::from_frame_counts(0, 1, 1, 0),
        Err(PcmCaptureConfigError::ZeroMaximumSegment)
    );
    assert_eq!(
        PcmCaptureConfig::from_frame_counts(0, 2, 1, 1),
        Err(PcmCaptureConfigError::MinimumSpeechExceedsMaximumSegment)
    );
}

#[test]
fn malformed_stereo_input_does_not_mutate_state() {
    let mut buffer = SpeakerPcmBuffer::new(config(10, 1, 2, 20));
    let error = buffer.push_interleaved_stereo(&[100, 100, 100]);
    assert_eq!(
        error,
        Err(PcmCaptureError::NonStereoSampleCount { sample_count: 3 })
    );
    assert_eq!(buffer.stats(), PcmCaptureStats::default());
    assert!(!buffer.is_active());
}

#[test]
fn leading_and_trailing_silence_are_trimmed() {
    let mut buffer = SpeakerPcmBuffer::new(config(10, 2, 2, 20));
    let samples = stereo_frames(&[0, 0, 50, 60, 0, 0]);
    let segments = buffer.push_interleaved_stereo(&samples).unwrap();

    assert_eq!(segments.len(), 1);
    let segment = &segments[0];
    assert_eq!(segment.start_frame, 2);
    assert_eq!(segment.end_frame, 4);
    assert_eq!(segment.interleaved_samples, stereo_frames(&[50, 60]));
    assert_eq!(segment.boundary, SegmentBoundary::Silence);
    assert_eq!(
        buffer.stats(),
        PcmCaptureStats {
            received_frames: 6,
            emitted_frames: 2,
            ignored_frames: 4,
            emitted_segments: 1,
        }
    );
}

#[test]
fn silence_detection_uses_samples_not_push_timing() {
    let samples = stereo_frames(&[40, 40, 0, 0]);

    let mut one_push = SpeakerPcmBuffer::new(config(10, 2, 2, 20));
    let expected = one_push.push_interleaved_stereo(&samples).unwrap();

    let mut many_pushes = SpeakerPcmBuffer::new(config(10, 2, 2, 20));
    let mut actual = Vec::new();
    for frame in samples.chunks_exact(2) {
        actual.extend(many_pushes.push_interleaved_stereo(frame).unwrap());
    }

    assert_eq!(actual, expected);
    assert_eq!(many_pushes.stats(), one_push.stats());
}

#[test]
fn either_stereo_channel_can_trigger_speech() {
    let mut buffer = SpeakerPcmBuffer::new(config(10, 1, 1, 20));
    let segments = buffer
        .push_interleaved_stereo(&[0, i16::MIN, 0, 0])
        .unwrap();
    assert_eq!(segments.len(), 1);
    assert_eq!(segments[0].interleaved_samples, vec![0, i16::MIN]);
}

#[test]
fn short_noise_burst_is_discarded() {
    let mut buffer = SpeakerPcmBuffer::new(config(10, 3, 2, 20));
    let segments = buffer
        .push_interleaved_stereo(&stereo_frames(&[50, 50, 0, 0]))
        .unwrap();
    assert!(segments.is_empty());
    assert!(!buffer.is_active());
    assert_eq!(buffer.stats().received_frames, 4);
    assert_eq!(buffer.stats().ignored_frames, 4);
    assert_eq!(buffer.stats().emitted_frames, 0);
}

#[test]
fn maximum_duration_splits_long_speech_without_gaps() {
    let mut buffer = SpeakerPcmBuffer::new(config(10, 1, 2, 3));
    let mut segments = buffer
        .push_interleaved_stereo(&stereo_frames(&[50, 50, 50, 50, 50, 50, 50, 50]))
        .unwrap();
    segments.extend(buffer.flush());

    assert_eq!(segments.len(), 3);
    assert_eq!(segments[0].start_frame, 0);
    assert_eq!(segments[0].end_frame, 3);
    assert_eq!(segments[0].boundary, SegmentBoundary::MaximumDuration);
    assert_eq!(segments[1].start_frame, 3);
    assert_eq!(segments[1].end_frame, 6);
    assert_eq!(segments[1].boundary, SegmentBoundary::MaximumDuration);
    assert_eq!(segments[2].start_frame, 6);
    assert_eq!(segments[2].end_frame, 8);
    assert_eq!(segments[2].boundary, SegmentBoundary::Flush);
    assert_eq!(buffer.stats().emitted_frames, 8);
    assert_eq!(buffer.stats().ignored_frames, 0);
}

#[test]
fn flush_trims_partial_trailing_silence() {
    let mut buffer = SpeakerPcmBuffer::new(config(10, 2, 5, 20));
    let segments = buffer
        .push_interleaved_stereo(&stereo_frames(&[50, 50, 0, 0]))
        .unwrap();
    assert!(segments.is_empty());

    let segment = buffer.flush().expect("speech qualifies on flush");
    assert_eq!(segment.interleaved_samples, stereo_frames(&[50, 50]));
    assert_eq!(segment.start_frame, 0);
    assert_eq!(segment.end_frame, 2);
    assert_eq!(segment.boundary, SegmentBoundary::Flush);
    assert_eq!(buffer.stats().received_frames, 4);
    assert_eq!(buffer.stats().emitted_frames, 2);
    assert_eq!(buffer.stats().ignored_frames, 2);
}

#[test]
fn silent_voice_tick_finishes_segment_without_pcm_allocation() {
    let mut buffer = SpeakerPcmBuffer::new(config(10, 1, 960, 4_800));
    buffer.push_interleaved_stereo(&[50, 50]).unwrap();
    let capacity_after_speech = buffer.samples().capacity();

    let segment = buffer
        .push_silence_frames(960)
        .expect("20 ms silent tick reaches the boundary");

    assert_eq!(segment.start_frame, 0);
    assert_eq!(segment.end_frame, 1);
    assert_eq!(segment.interleaved_samples, vec![50, 50]);
    assert_eq!(segment.boundary, SegmentBoundary::Silence);
    assert_eq!(buffer.stats().received_frames, 961);
    assert_eq!(buffer.stats().emitted_frames, 1);
    assert_eq!(buffer.stats().ignored_frames, 960);
    // The completed segment owns the original allocation; no zero-filled
    // buffer was allocated for the silent tick.
    assert_eq!(
        capacity_after_speech,
        segment.interleaved_samples.capacity()
    );
    assert_eq!(buffer.samples().capacity(), 0);
}

#[test]
fn partial_silent_ticks_are_deferred_until_speech_resumes() {
    let mut buffer = SpeakerPcmBuffer::new(config(10, 2, 10, 100));
    buffer.push_interleaved_stereo(&[50, 50]).unwrap();
    let capacity_before_silence = buffer.samples().capacity();

    assert!(buffer.push_silence_frames(3).is_none());
    assert_eq!(buffer.samples().capacity(), capacity_before_silence);
    assert_eq!(buffer.samples(), &vec![50, 50]);
    assert_eq!(buffer.buffered_frames(), 4);

    buffer.push_interleaved_stereo(&[60, 60]).unwrap();
    let segment = buffer.flush().unwrap();
    assert_eq!(
        segment.interleaved_samples,
        stereo_frames(&[50, 0, 0, 0, 60])
    );
    assert_eq!(segment.start_frame, 0);
    assert_eq!(segment.end_frame, 5);
}

#[test]
fn inactive_silent_tick_is_accounted_in_bulk() {
    let mut buffer = SpeakerPcmBuffer::new(config(10, 1, 960, 4_800));
    assert!(buffer.push_silence_frames(960).is_none());
    assert_eq!(buffer.stats().received_frames, 960);
    assert_eq!(buffer.stats().ignored_frames, 960);
    assert_eq!(buffer.samples().capacity(), 0);
}

#[test]
fn wav_encoder_writes_canonical_header_and_little_endian_samples() {
    let samples = [1_i16, -2_i16, i16::MIN, i16::MAX];
    let wav = encode_pcm_s16le_wav(&samples, 48_000, 2).unwrap();

    assert_eq!(wav.len(), 52);
    assert_eq!(&wav[0..4], b"RIFF");
    assert_eq!(u32::from_le_bytes(wav[4..8].try_into().unwrap()), 44);
    assert_eq!(&wav[8..12], b"WAVE");
    assert_eq!(&wav[12..16], b"fmt ");
    assert_eq!(u32::from_le_bytes(wav[16..20].try_into().unwrap()), 16);
    assert_eq!(u16::from_le_bytes(wav[20..22].try_into().unwrap()), 1);
    assert_eq!(u16::from_le_bytes(wav[22..24].try_into().unwrap()), 2);
    assert_eq!(u32::from_le_bytes(wav[24..28].try_into().unwrap()), 48_000);
    assert_eq!(u32::from_le_bytes(wav[28..32].try_into().unwrap()), 192_000);
    assert_eq!(u16::from_le_bytes(wav[32..34].try_into().unwrap()), 4);
    assert_eq!(u16::from_le_bytes(wav[34..36].try_into().unwrap()), 16);
    assert_eq!(&wav[36..40], b"data");
    assert_eq!(u32::from_le_bytes(wav[40..44].try_into().unwrap()), 8);
    assert_eq!(&wav[44..], &[1, 0, 254, 255, 0, 128, 255, 127]);
}

#[test]
fn wav_encoder_rejects_invalid_shape_and_overflow() {
    assert_eq!(
        encode_pcm_s16le_wav(&[], 48_000, 0),
        Err(WavEncodeError::ZeroChannels)
    );
    assert_eq!(
        encode_pcm_s16le_wav(&[1, 2, 3], 48_000, 2),
        Err(WavEncodeError::SamplesNotChannelAligned {
            sample_count: 3,
            channels: 2,
        })
    );
    assert_eq!(
        encode_pcm_s16le_wav(&[], u32::MAX, 2),
        Err(WavEncodeError::ByteRateOverflow)
    );
}

#[test]
fn segment_wav_wrapper_uses_discord_audio_format() {
    let segment = PcmSegment {
        start_frame: 0,
        end_frame: 1,
        interleaved_samples: vec![1, -1],
        boundary: SegmentBoundary::Flush,
    };
    let wav = segment.to_wav_bytes().unwrap();
    assert_eq!(u16::from_le_bytes(wav[22..24].try_into().unwrap()), 2);
    assert_eq!(u32::from_le_bytes(wav[24..28].try_into().unwrap()), 48_000);
    assert_eq!(&wav[44..], &[1, 0, 255, 255]);
}

#[test]
fn transcript_timing_uses_capture_frames() {
    let entry = TranscriptEntry {
        speaker_id: 42,
        speaker_name: "Can".into(),
        start_frame: 24_000,
        end_frame: 72_000,
        text: "hello".into(),
    };
    assert_eq!(entry.start_millis(), 500);
    assert_eq!(entry.end_millis(), 1_500);
}

#[test]
fn transcript_store_evicts_oldest_by_entry_count() {
    let mut store = TranscriptStore::new(2, 100).unwrap();
    assert!(store.push(transcript(1, "one")).accepted);
    assert!(store.push(transcript(2, "two")).accepted);
    let outcome = store.push(transcript(3, "three"));

    assert_eq!(outcome.evicted_entries, 1);
    assert_eq!(outcome.evicted_text_bytes, 3);
    assert_eq!(
        store
            .entries()
            .map(|entry| entry.speaker_id)
            .collect::<Vec<_>>(),
        vec![2, 3]
    );
    assert_eq!(store.text_bytes(), 8);
    assert_eq!(store.stats().accepted_entries, 3);
    assert_eq!(store.stats().evicted_entries, 1);
}

#[test]
fn transcript_store_evicts_oldest_until_text_fits() {
    let mut store = TranscriptStore::new(10, 8).unwrap();
    store.push(transcript(1, "aaa"));
    store.push(transcript(2, "bbb"));
    let outcome = store.push(transcript(3, "ccccc"));

    assert_eq!(outcome.evicted_entries, 1);
    assert_eq!(outcome.evicted_text_bytes, 3);
    assert_eq!(store.len(), 2);
    assert_eq!(store.text_bytes(), 8);
    assert_eq!(store.entries().next().unwrap().speaker_id, 2);
}

#[test]
fn oversized_transcript_is_rejected_without_evicting_context() {
    let mut store = TranscriptStore::new(2, 4).unwrap();
    store.push(transcript(1, "good"));
    let outcome = store.push(transcript(2, "too large"));

    assert_eq!(outcome, TranscriptPushOutcome::default());
    assert_eq!(store.len(), 1);
    assert_eq!(store.entries().next().unwrap().speaker_id, 1);
    assert_eq!(store.stats().accepted_entries, 1);
    assert_eq!(store.stats().rejected_entries, 1);
}

#[test]
fn transcript_text_limit_is_utf8_bytes_and_clear_keeps_stats() {
    let mut store = TranscriptStore::new(2, 6).unwrap();
    let outcome = store.push(transcript(1, "中文"));
    assert!(outcome.accepted);
    assert_eq!(store.text_bytes(), 6);
    store.clear();
    assert!(store.is_empty());
    assert_eq!(store.text_bytes(), 0);
    assert_eq!(store.stats().accepted_entries, 1);
}

#[test]
fn transcript_store_rejects_zero_limits() {
    assert!(matches!(
        TranscriptStore::new(0, 1),
        Err(TranscriptStoreError::ZeroMaximumEntries)
    ));
    assert!(matches!(
        TranscriptStore::new(1, 0),
        Err(TranscriptStoreError::ZeroMaximumTextBytes)
    ));
}

#[test]
fn drop_counters_are_thread_safe_and_resettable() {
    let counters = Arc::new(Mutex::new(VoiceDropCounters::default()));
    for _ in 0..4 {
        let counters = Arc::clone(&counters);
        for _ in 0..100 {
            let mut counters = counters.lock().unwrap();
            counters.record_pcm_chunk(960);
            counters.record_segment();
            counters.record_transcript();
        }
    }

    let expected = VoiceDropSnapshot {
        pcm_chunks: 400,
        pcm_frames: 384_000,
        segments: 400,
        transcripts: 400,
    };
    let mut counters = counters.lock().unwrap();
    assert_eq!(counters.snapshot(), expected);
    assert_eq!(counters.take_snapshot(), expected);
    assert_eq!(counters.snapshot(), VoiceDropSnapshot::default());
}

#[test]
fn saturating_counter_does_not_wrap() {
    let mut counter = u64::MAX - 1;
    saturating_add_to(&mut counter, 10);
    assert_eq!(counter, u64::MAX);
}

#[test]
fn frame_counts_must_fit_in_memory() {
    assert_eq!(
        PcmCaptureConfig::from_frame_counts(0, 1, 1, usize::MAX),
        Err(PcmCaptureConfigError::FrameCountOverflow)
    );
    assert_eq!(
        PcmCaptureConfig::from_millis(0, 0, 1, 1),
        Err(PcmCaptureConfigError::ZeroMinimumSpeech)
    );
}

#[test]
fn every_frame_is_emitted_or_ignored_once_the_buffer_is_flushed() {
    let mut buffer = SpeakerPcmBuffer::new(config(10, 2, 3, 5));
    buffer
        .push_interleaved_stereo(&stereo_frames(&[0, 50, 0, 50, 50, 50, 50, 0, 0, 0, 50]))
        .unwrap();
    buffer.push_silence_frames(2);
    assert!(buffer.buffered_frames() < 5);
    buffer.flush();
    let stats = buffer.stats();
    assert_eq!(stats.received_frames, 13);
    assert_eq!(stats.emitted_frames + stats.ignored_frames, 13);
    assert_eq!(buffer.config(), config(10, 2, 3, 5));
}

#[test]
fn silent_ticks_and_silent_samples_are_the_same() {
    let mut ticks = SpeakerPcmBuffer::new(config(10, 1, 4, 20));
    let mut samples = SpeakerPcmBuffer::new(config(10, 1, 4, 20));
    ticks.push_interleaved_stereo(&[50, 50]).unwrap();
    samples.push_interleaved_stereo(&[50, 50]).unwrap();
    let a = ticks.push_silence_frames(6);
    let b = samples
        .push_interleaved_stereo(&stereo_frames(&[0, 0, 0, 0, 0, 0]))
        .unwrap();
    assert_eq!(a.into_iter().collect::<Vec<_>>(), b);
    assert_eq!(ticks.stats(), samples.stats());
}

#[test]
fn segments_report_their_size() {
    let segment = PcmSegment {
        start_frame: 0,
        end_frame: 96,
        interleaved_samples: vec![1; 192],
        boundary: SegmentBoundary::Flush,
    };
    assert_eq!(segment.frame_count(), 96);
    assert_eq!(segment.duration_millis(), 2);
}

#[test]
fn errors_describe_themselves() {
    assert_eq!(
        PcmCaptureError::NonStereoSampleCount { sample_count: 3 }.message(),
        "interleaved stereo PCM requires an even sample count, got 3"
    );
    assert!(!PcmCaptureConfigError::FrameCountOverflow.message().is_empty());
    assert!(!WavEncodeError::ZeroChannels.message().is_empty());
    assert!(!TranscriptStoreError::ZeroMaximumEntries.message().is_empty());
}

#[test]
fn evictions_make_just_enough_room() {
    let mut store = TranscriptStore::new(3, 10).unwrap();
    store.push(transcript(1, "aaaa"));
    store.push(transcript(2, "bb"));
    store.push(transcript(3, "cc"));
    let outcome = store.push(transcript(4, "dddd"));
    assert_eq!(outcome.evicted_entries, 1);
    assert_eq!(store.entry(0).speaker_id, 2);
    assert_eq!(store.text_bytes(), 8);
    assert!(store.len() <= 3);
}

#[test]
fn segments_are_sound_and_come_in_order() {
    let limits = config(10, 2, 3, 6);
    let mut buffer = SpeakerPcmBuffer::new(limits);
    let heard = [
        5, 50, 7, 3, 50, 0, 0, 0, 50, 0, 0, 0, 50, 50, 50, 50, 50, 50, 50, 9, 50,
    ];
    let mut segments = buffer.push_interleaved_stereo(&stereo_frames(&heard)).unwrap();
    segments.extend(buffer.push_silence_frames(1));
    segments.extend(buffer.flush());
    assert_eq!(segments.len(), 3);
    let mut end = 0;
    for segment in &segments {
        let frames: Vec<&[i16]> = segment.interleaved_samples.chunks(2).collect();
        let speaks = |frame: &&&[i16]| frame.iter().any(|sample| *sample > 10);
        assert!(frames.iter().filter(speaks).count() >= 2);
        assert!(frames.first().iter().all(|frame| speaks(frame)));
        assert!(frames.last().iter().all(|frame| speaks(frame)));
        assert!(frames.iter().filter(|frame| !speaks(frame)).all(|frame| **frame == [0, 0]));
        assert!(frames.windows(3).all(|run| run.iter().any(|frame| speaks(&frame))));
        assert!(end <= segment.start_frame);
        assert_eq!(segment.end_frame, segment.start_frame + frames.len() as u64);
        end = segment.end_frame;
    }
    assert_eq!(segments[0].interleaved_samples, stereo_frames(&[50, 0, 0, 50]));
}

#[test]
fn a_buffer_is_active_while_it_holds_frames() {
    let mut buffer = SpeakerPcmBuffer::new(config(10, 1, 2, 20));
    assert!(!buffer.is_active() && buffer.buffered_frames() == 0);
    buffer.push_interleaved_stereo(&[50, 50]).unwrap();
    assert!(buffer.is_active() && buffer.buffered_frames() == 1);
    buffer.push_silence_frames(2);
    assert!(!buffer.is_active() && buffer.buffered_frames() == 0);
}

#[test]
fn every_entry_offered_is_accounted_for() {
    let mut store = TranscriptStore::new(2, 6).unwrap();
    let offered = ["aa", "bbbbbbb", "cccc", "d", "eeeeee", "ff"];
    let mut accepted_bytes = 0;
    for text in offered {
        if store.push(transcript(1, text)).accepted {
            accepted_bytes += text.len();
        }
    }
    let stats = store.stats();
    assert_eq!(stats.accepted_entries + stats.rejected_entries, 6);
    assert_eq!(stats.rejected_entries, 1);
    assert_eq!(stats.accepted_entries, stats.evicted_entries + store.len() as u64);
    assert_eq!(stats.evicted_text_bytes + store.text_bytes() as u64, accepted_bytes as u64);
}
