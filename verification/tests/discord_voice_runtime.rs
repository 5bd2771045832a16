//! Voice sessions of guilds.

use openab_core::discord_voice::{PcmSegment, SegmentBoundary};
use openab_core::discord_voice_intent::{
    DiscordVoiceIntentBroker, DiscordVoiceIntentConfig, DiscordVoiceIntentTargetConfig,
};
use openab_core::discord_voice_runtime::manager::{voice_intent_feedback, SpokenAction};
use openab_core::discord_voice_runtime::session::MAX_TRACKED_SPEAKERS;
use openab_core::discord_voice_runtime::{
    format_timestamp, session_segment_range, CompletedSegment, DiscordVoiceConfig,
    DiscordVoiceManager, SpeakingVoice, SttConfig, VoiceConnectionState, VoiceSessionToken,
    VoiceTick,
};
use openab_core::tts::TtsConfig;

fn enabled_voice() -> DiscordVoiceConfig {
    DiscordVoiceConfig {
        enabled: true,
        ..DiscordVoiceConfig::default()
    }
}

fn enabled_stt() -> SttConfig {
    SttConfig {
        enabled: true,
        api_key: "test".into(),
    }
}

fn manager() -> DiscordVoiceManager {
    DiscordVoiceManager::new(enabled_voice(), enabled_stt()).unwrap()
}

fn begin(manager: &mut DiscordVoiceManager) -> VoiceSessionToken {
    manager.begin_session(1, 2, 3, 0).unwrap().0
}

fn broker() -> DiscordVoiceIntentBroker {
    DiscordVoiceIntentBroker::new(DiscordVoiceIntentConfig {
        enabled: true,
        confirmation_timeout_seconds: 30,
        default_to_local: false,
        targets: vec![(
            "B0".to_string(),
            DiscordVoiceIntentTargetConfig {
                discord_user_id: "9000".to_string(),
                aliases: Vec::new(),
            },
        )],
    })
    .unwrap()
}

fn voice_manager_with_intent() -> (DiscordVoiceManager, DiscordVoiceIntentBroker) {
    let mut manager = manager();
    manager.attach_intent_broker();
    (manager, broker())
}

/// Has a speaker say something that completes one segment.
fn say(manager: &mut DiscordVoiceManager, token: VoiceSessionToken, ssrc: u32) {
    for _ in 0..6 {
        manager.handle_tick(
            token,
            &VoiceTick {
                speaking: vec![SpeakingVoice {
                    ssrc,
                    samples: Some(vec![1_000; 1_920]),
                }],
                silent: Vec::new(),
            },
        );
    }
    for _ in 0..100 {
        manager.handle_tick(
            token,
            &VoiceTick {
                speaking: Vec::new(),
                silent: vec![ssrc],
            },
        );
    }
}

#[test]
fn voice_manager_defaults_are_backward_compatible() {
    let manager =
        DiscordVoiceManager::new(DiscordVoiceConfig::default(), SttConfig::default()).unwrap();
    assert!(!manager.enabled());
    assert!(!manager.stt_ready());
    assert!(!manager.tts_ready());
    assert!(manager.voice_channel_allowed(123));
}

#[test]
fn tts_readiness_requires_opt_in_and_a_key() {
    let tts = TtsConfig {
        enabled: true,
        api_key: "test".into(),
        ..TtsConfig::default()
    };
    let manager = DiscordVoiceManager::new_with_tts(
        DiscordVoiceConfig::default(),
        SttConfig::default(),
        tts,
    )
    .unwrap();
    assert!(manager.tts_ready());
}

#[test]
fn playback_suppression_is_session_and_epoch_bound() {
    let mut manager = manager();
    let token = begin(&mut manager);
    assert!(manager.mark_listening(token));
    manager.note_speaking(token, 10, 100);

    let first = manager.begin_playback(token).unwrap();
    let second = manager.begin_playback(token).unwrap();
    assert!(!manager.finish_playback(token, first));
    {
        let session = manager.session(1).unwrap();
        assert!(session.capture_suppressed());
        assert_eq!(session.capture_count(), 0);
    }
    assert!(manager.finish_playback(token, second));
    assert!(!manager.session(1).unwrap().capture_suppressed());

    let replacement = VoiceSessionToken::for_test(1, token.session_id().saturating_add(1));
    assert!(!manager.finish_playback(replacement, second));
}

#[test]
fn allowed_voice_channels_are_enforced() {
    let config = DiscordVoiceConfig {
        enabled: true,
        allowed_channels: vec!["123".into()],
        ..DiscordVoiceConfig::default()
    };
    let manager = DiscordVoiceManager::new(config, SttConfig::default()).unwrap();
    assert!(manager.voice_channel_allowed(123));
    assert!(!manager.voice_channel_allowed(456));
}

#[test]
fn invalid_voice_channel_id_is_rejected() {
    let config = DiscordVoiceConfig {
        allowed_channels: vec!["not-an-id".into()],
        ..DiscordVoiceConfig::default()
    };
    assert!(DiscordVoiceManager::new(config, SttConfig::default()).is_err());
}

fn config_error(config: DiscordVoiceConfig) -> String {
    DiscordVoiceManager::new(config, SttConfig::default())
        .err()
        .unwrap()
}

#[test]
fn faults_of_a_configuration_are_named() {
    assert_eq!(
        config_error(DiscordVoiceConfig {
            max_pending_segments: 0,
            ..enabled_voice()
        }),
        "discord.voice.max_pending_segments must be greater than zero"
    );
    assert_eq!(
        config_error(DiscordVoiceConfig {
            max_transcript_bytes: 0,
            ..enabled_voice()
        }),
        "discord.voice.max_transcript_bytes must be greater than zero"
    );
    assert_eq!(
        config_error(DiscordVoiceConfig {
            max_session_minutes: 0,
            ..enabled_voice()
        }),
        "discord.voice.max_session_minutes must be greater than zero"
    );
    assert_eq!(
        config_error(DiscordVoiceConfig {
            silence_ms: u64::MAX,
            ..enabled_voice()
        }),
        "discord.voice.silence_ms is too large"
    );
    assert_eq!(
        config_error(DiscordVoiceConfig {
            max_segment_seconds: u64::MAX,
            ..enabled_voice()
        }),
        "discord.voice.max_segment_seconds is too large"
    );
    assert_eq!(
        config_error(DiscordVoiceConfig {
            max_segment_seconds: 0,
            ..enabled_voice()
        }),
        "invalid discord.voice capture configuration"
    );
    assert_eq!(
        config_error(DiscordVoiceConfig {
            allowed_channels: vec!["7".into(), "0".into()],
            ..enabled_voice()
        }),
        "Discord voice channel IDs must be non-zero: 0"
    );
    assert_eq!(
        config_error(DiscordVoiceConfig {
            allowed_channels: vec!["x".into()],
            ..enabled_voice()
        }),
        "invalid Discord voice channel ID in discord.voice.allowed_channels: x"
    );
}

#[test]
fn sessions_start_only_where_they_may() {
    let mut disabled =
        DiscordVoiceManager::new(DiscordVoiceConfig::default(), enabled_stt()).unwrap();
    assert_eq!(
        disabled.begin_session(1, 2, 3, 0).unwrap_err(),
        "Discord voice support is disabled"
    );
    let mut deaf = DiscordVoiceManager::new(enabled_voice(), SttConfig::default()).unwrap();
    assert_eq!(
        deaf.begin_session(1, 2, 3, 0).unwrap_err(),
        "Discord voice requires [stt] enabled = true and a configured API key"
    );
    let mut picky = DiscordVoiceManager::new(
        DiscordVoiceConfig {
            allowed_channels: vec!["9".into()],
            ..enabled_voice()
        },
        enabled_stt(),
    )
    .unwrap();
    assert_eq!(
        picky.begin_session(1, 2, 3, 0).unwrap_err(),
        "voice channel is not in discord.voice.allowed_channels"
    );
    let mut manager = manager();
    begin(&mut manager);
    assert_eq!(
        manager.begin_session(1, 2, 3, 0).unwrap_err(),
        "a Discord voice session is already active in this guild"
    );
    assert_eq!(manager.guild_ids(), vec![1]);
    assert_eq!(manager.session_timeout_secs(), 120 * 60);
}

#[test]
fn timestamp_format_is_stable() {
    assert_eq!(format_timestamp(0), "00:00:00.000");
    assert_eq!(format_timestamp(3_661_999), "01:01:01.999");
}

#[test]
fn long_times_are_not_cut() {
    assert_eq!(format_timestamp(u64::MAX), "5124095576030:25:51.615");
}

#[test]
fn speaker_local_segment_offsets_are_preserved_on_the_session_timeline() {
    let segment = PcmSegment {
        start_frame: 960,
        end_frame: 1_920,
        interleaved_samples: vec![1; 1_920],
        boundary: SegmentBoundary::Silence,
    };
    assert_eq!(session_segment_range(48_000, &segment), (48_960, 49_920));
}

#[test]
fn stale_timeout_cannot_expire_a_replacement_session() {
    let mut manager = manager();
    let old = begin(&mut manager);
    let (stopping, _) = manager.start_stopping(1, 0).unwrap();
    assert_eq!(old, stopping);
    manager.finish_stop(old, 0).unwrap();
    let replacement = begin(&mut manager);

    assert!(!manager.expire_session(old, 0));
    assert!(manager.status(1, 0).unwrap().is_active());
    assert_eq!(manager.session_token(1), Some(replacement));
}

#[test]
fn terminal_voice_lifecycle_abandons_the_exact_intent_session() {
    let (mut manager, mut broker) = voice_manager_with_intent();
    let stopped = begin(&mut manager);
    assert!(broker.bind_session(stopped, 3, 4, "Can").0);
    manager.start_stopping_token(stopped, 0).unwrap();
    assert!(broker.abandon_session(stopped).0);
    assert!(!broker.abandon_session(stopped).0);

    let (mut manager, mut broker) = voice_manager_with_intent();
    let failed = begin(&mut manager);
    assert!(broker.bind_session(failed, 3, 4, "Can").0);
    assert!(manager.mark_driver_failed(failed, 0));
    assert!(broker.abandon_session(failed).0);
    assert!(!broker.abandon_session(failed).0);

    let (mut manager, mut broker) = voice_manager_with_intent();
    let reconnected_wrong = begin(&mut manager);
    assert!(broker.bind_session(reconnected_wrong, 3, 4, "Can").0);
    assert_eq!(
        manager.note_reconnected(reconnected_wrong, 9, 0),
        (false, true)
    );
    assert!(broker.abandon_session(reconnected_wrong).0);
    assert!(!broker.abandon_session(reconnected_wrong).0);

    let (mut manager, mut broker) = voice_manager_with_intent();
    let discarded = begin(&mut manager);
    assert!(broker.bind_session(discarded, 3, 4, "Can").0);
    assert!(manager.discard_session(discarded));
    assert!(broker.abandon_session(discarded).0);
    assert!(!broker.abandon_session(discarded).0);

    let (mut manager, mut broker) = voice_manager_with_intent();
    let expired = begin(&mut manager);
    assert!(broker.bind_session(expired, 3, 4, "Can").0);
    assert!(manager.expire_session(expired, 0));
    assert!(broker.abandon_session(expired).0);
    assert!(!broker.abandon_session(expired).0);
    manager.finish_expired(expired, 0).unwrap();
    assert_eq!(
        manager.status(1, 0).unwrap().state,
        VoiceConnectionState::Expired
    );
}

#[test]
fn full_intent_queue_drops_only_the_broker_event_and_releases_stt_pending() {
    let (mut manager, _) = voice_manager_with_intent();
    let token = begin(&mut manager);
    assert!(manager.mark_listening(token));
    manager.note_speaking(token, 10, 4);
    say(&mut manager, token, 10);
    say(&mut manager, token, 10);
    assert_eq!(manager.status(1, 0).unwrap().pending_segments, 2);

    let mut queue = Vec::new();
    for (start_frame, text) in [(0, "請 B0 review"), (48_000, "請 B0 run CI")] {
        assert!(manager.next_segment_job(token).is_some());
        assert!(manager.next_segment_job(token).is_none());
        let event = manager.complete_segment_job(
            token,
            CompletedSegment {
                speaker_id: 4,
                start_frame,
                end_frame: start_frame + 48_000,
                transcript: Some(text.to_string()),
            },
        );
        if queue.is_empty() {
            queue.extend(event);
        }
    }

    let status = manager.status(1, 0).unwrap();
    assert_eq!(status.pending_segments, 0);
    assert_eq!(status.stt_failures, 0);
    assert_eq!(status.transcript_entries, 2);
    assert_eq!(queue.len(), 1);
    assert_eq!(queue[0].key.start_frame, 0);
    assert_eq!(queue[0].text, "請 B0 review");
    assert!(manager.is_drained(token));
}

#[test]
fn stale_voice_token_cannot_abandon_replacement_intent_session() {
    let (mut manager, mut broker) = voice_manager_with_intent();
    let old = begin(&mut manager);
    manager.start_stopping_token(old, 0).unwrap();
    manager.finish_stop(old, 0).unwrap();

    assert!(broker.bind_session(old, 3, 4, "Can").0);
    let (replacement, replaced) = manager.begin_session(1, 2, 3, 0).unwrap();
    assert_eq!(replaced, Some(old));
    assert!(broker.abandon_session(replaced.unwrap()).0);
    assert!(!broker.abandon_session(old).0);
    assert!(broker.bind_session(replacement, 3, 4, "Can").0);
    assert!(!manager.discard_session(old));

    assert!(broker.abandon_session(replacement).0);
}

#[test]
fn terminal_driver_disconnect_is_visible_as_failed() {
    let mut manager = manager();
    let token = begin(&mut manager);
    assert!(manager.mark_listening(token));
    manager.mark_driver_failed(token, 0);
    assert_eq!(
        manager.status(1, 0).unwrap().state,
        VoiceConnectionState::Failed
    );
}

#[test]
fn reconnect_must_stay_in_the_pinned_allowed_channel() {
    let config = DiscordVoiceConfig {
        enabled: true,
        allowed_channels: vec!["2".into(), "9".into()],
        ..DiscordVoiceConfig::default()
    };
    let mut manager = DiscordVoiceManager::new(config, enabled_stt()).unwrap();
    let token = begin(&mut manager);
    assert!(manager.mark_listening(token));
    manager.note_speaking(token, 10, 100);
    assert!(manager.note_reconnected(token, 2, 0).0);
    assert_eq!(manager.status(1, 0).unwrap().tracked_speakers, 0);
    assert!(!manager.note_reconnected(token, 9, 0).0);
    assert_eq!(
        manager.status(1, 0).unwrap().state,
        VoiceConnectionState::Failed
    );
}

#[test]
fn every_mapped_participant_gets_a_separate_capture() {
    let mut manager = manager();
    let token = begin(&mut manager);

    manager.note_speaking(token, 10, 100);
    manager.note_speaking(token, 20, 200);

    let session = manager.session(1).unwrap();
    assert_eq!(session.speaker_of(10), Some(100));
    assert_eq!(session.speaker_of(20), Some(200));
    assert!(session.has_capture(100));
    assert!(session.has_capture(200));
}

#[test]
fn speaker_capture_count_is_bounded() {
    let mut manager = manager();
    let token = begin(&mut manager);
    for offset in 0..=MAX_TRACKED_SPEAKERS {
        manager.note_speaking(token, offset as u32 + 1, offset as u64 + 100);
    }
    let status = manager.status(1, 0).unwrap();
    assert_eq!(status.tracked_speakers, MAX_TRACKED_SPEAKERS);
    assert_eq!(status.ignored_speakers, 1);
}

#[test]
fn streams_and_speakers_stay_paired() {
    let mut manager = manager();
    let token = begin(&mut manager);
    manager.note_speaking(token, 10, 100);
    manager.note_speaking(token, 20, 200);
    manager.note_speaking(token, 10, 200);
    let session = manager.session(1).unwrap();
    assert_eq!(session.speaker_of(10), Some(200));
    assert_eq!(session.speaker_of(20), None);
    assert_eq!(manager.status(1, 0).unwrap().tracked_speakers, 1);
    manager.note_disconnect(token, 200);
    assert_eq!(manager.session(1).unwrap().speaker_of(10), None);
    assert!(!manager.session(1).unwrap().has_capture(200));
}

#[test]
fn stopping_blocks_replacement_and_stale_token_cannot_touch_next_session() {
    let mut manager = manager();
    let old = begin(&mut manager);
    assert!(manager.mark_listening(old));
    manager.note_speaking(old, 10, 100);
    say(&mut manager, old, 10);
    manager.start_stopping_token(old, 0).unwrap();
    assert!(manager.begin_session(1, 2, 3, 0).is_err());
    manager.finish_stop(old, 0).unwrap();

    assert_eq!(
        manager.begin_session(1, 2, 3, 0).unwrap_err(),
        "the previous Discord voice session still has pending STT work"
    );
    assert!(!manager.is_drained(old));
    let job = manager.next_segment_job(old).unwrap();
    assert_eq!(job.speaker_id, 100);
    manager.complete_segment_job(
        old,
        CompletedSegment {
            speaker_id: job.speaker_id,
            start_frame: job.start_frame,
            end_frame: job.end_frame,
            transcript: None,
        },
    );
    assert_eq!(manager.status(1, 0).unwrap().stt_failures, 1);

    let replacement = begin(&mut manager);
    assert!(!manager.mark_listening(old));
    manager.discard_session(old);
    assert_eq!(manager.session_token(1), Some(replacement));
}

#[test]
fn elapsed_time_freezes_when_capture_starts_stopping() {
    let mut manager = manager();
    let token = begin(&mut manager);
    assert!(manager.mark_listening(token));
    manager.start_stopping_token(token, 2_000_000).unwrap();
    let stopped_elapsed = manager.status(1, 2_000_000).unwrap().elapsed_nanos;
    assert_eq!(stopped_elapsed, 2_000_000);
    assert_eq!(
        manager.status(1, 7_000_000).unwrap().elapsed_nanos,
        stopped_elapsed
    );
}

#[test]
fn transcript_rendering_sorts_out_of_order_stt_results() {
    let mut manager = manager();
    let token = begin(&mut manager);
    assert_eq!(
        manager.render_transcript(1).unwrap_err(),
        "the Discord voice session has no completed transcript entries yet"
    );
    assert_eq!(
        manager.render_transcript(5).unwrap_err(),
        "no Discord voice session exists in this guild"
    );
    assert!(manager.mark_listening(token));
    manager.note_speaking(token, 10, 2);
    say(&mut manager, token, 10);
    say(&mut manager, token, 10);
    for (speaker_id, start_frame, end_frame, text) in
        [(2, 48_000, 96_000, "second"), (1, 0, 24_000, "first")]
    {
        manager.next_segment_job(token).unwrap();
        manager.complete_segment_job(
            token,
            CompletedSegment {
                speaker_id,
                start_frame,
                end_frame,
                transcript: Some(text.to_string()),
            },
        );
    }

    let rendered = manager.render_transcript(1).unwrap();
    assert!(rendered.find("first").unwrap() < rendered.find("second").unwrap());
    assert!(rendered.contains("[00:00:00.000]"));
    assert!(rendered.contains("[00:00:01.000]"));
    assert_eq!(
        rendered,
        "[00:00:00.000] <@1>: first\n[00:00:01.000] <@2>: second\n"
    );
}

#[test]
fn segments_carry_their_place_and_too_many_are_dropped() {
    let mut manager = DiscordVoiceManager::new(
        DiscordVoiceConfig {
            max_pending_segments: 1,
            ..enabled_voice()
        },
        enabled_stt(),
    )
    .unwrap();
    let token = begin(&mut manager);
    assert!(manager.mark_listening(token));
    manager.note_speaking(token, 10, 100);
    say(&mut manager, token, 10);
    say(&mut manager, token, 10);
    let status = manager.status(1, 0).unwrap();
    assert_eq!(status.pending_segments, 1);
    assert_eq!(status.drops.segments, 1);
    let job = manager.next_segment_job(token).unwrap();
    assert_eq!(job.start_frame, 0);
    assert_eq!(job.end_frame, 6 * 960);
    assert_eq!(job.segment.interleaved_samples.len(), 6 * 1_920);
}

#[test]
fn nothing_is_captured_while_the_bot_speaks() {
    let mut manager = manager();
    let token = begin(&mut manager);
    assert!(manager.begin_playback(token).is_none());
    assert!(manager.mark_listening(token));
    manager.note_speaking(token, 10, 100);
    let epoch = manager.begin_playback(token).unwrap();
    say(&mut manager, token, 10);
    assert_eq!(manager.status(1, 0).unwrap().pending_segments, 0);
    assert!(manager.finish_playback(token, epoch));
    say(&mut manager, token, 10);
    assert_eq!(manager.status(1, 0).unwrap().pending_segments, 1);
}

#[test]
fn oversized_transcripts_are_counted_and_not_told() {
    let mut manager = DiscordVoiceManager::new(
        DiscordVoiceConfig {
            max_transcript_bytes: 3,
            ..enabled_voice()
        },
        enabled_stt(),
    )
    .unwrap();
    manager.attach_intent_broker();
    let token = begin(&mut manager);
    assert!(manager.mark_listening(token));
    manager.note_speaking(token, 10, 100);
    say(&mut manager, token, 10);
    manager.next_segment_job(token).unwrap();
    let event = manager.complete_segment_job(
        token,
        CompletedSegment {
            speaker_id: 100,
            start_frame: 0,
            end_frame: 1,
            transcript: Some("long".to_string()),
        },
    );
    assert!(event.is_none());
    let status = manager.status(1, 0).unwrap();
    assert_eq!(status.rejected_transcript_entries, 1);
    assert_eq!(status.drops.transcripts, 1);
}

#[test]
fn speech_is_allowed_in_active_sessions_only() {
    let tts = TtsConfig {
        enabled: true,
        api_key: "key".into(),
        ..TtsConfig::default()
    };
    let mut manager =
        DiscordVoiceManager::new_with_tts(enabled_voice(), enabled_stt(), tts).unwrap();
    let token = begin(&mut manager);
    assert!(manager.may_speak(token));
    manager.mark_driver_failed(token, 0);
    assert!(!manager.may_speak(token));
    assert!(manager.finish_failed(token, 0).is_none());
    assert!(manager.start_stopping_token(token, 0).is_ok());
    assert!(manager.finish_failed(token, 0).is_some());
    assert!(manager.status_for(token, 0).is_some());
    assert_eq!(
        manager.start_stopping(9, 0).unwrap_err(),
        "no Discord voice session exists in this guild"
    );
}

#[test]
fn spoken_feedback_says_where_a_task_did_not_start() {
    let said = || Some("好。".to_string());
    assert_eq!(
        voice_intent_feedback(said(), SpokenAction::Queued).as_deref(),
        Some("好。")
    );
    assert_eq!(
        voice_intent_feedback(None, SpokenAction::Elsewhere).as_deref(),
        None
    );
    assert_eq!(
        voice_intent_feedback(
            said(),
            SpokenAction::Failed {
                confirmation_reopened: true
            }
        )
        .as_deref(),
        Some("沒有成功開始。你可以再說一次對，或更正指令。")
    );
    assert_eq!(
        voice_intent_feedback(
            None,
            SpokenAction::Unavailable {
                confirmation_reopened: false
            }
        )
        .as_deref(),
        Some("目前無法開始。請重新說出指令。")
    );
}
