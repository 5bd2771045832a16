use openab_core::discord_voice_intent::language::{classify_confirmation, Confirmation};
use openab_core::discord_voice_intent::messages::{
    canonicalize_proposal, confirmation_nonce, confirmation_retry_delay, dispatch_nonce, DISCORD_MESSAGE_LIMIT,
    MAX_CONFIRMATION_RETRY_ATTEMPTS,
};
use openab_core::discord_voice_intent::targets::{
    resolve_correction, IntentDestination, IntentProposal,
};
use openab_core::discord_voice_intent::{
    Delivery, DeliveryRetry, DiscordVoiceIntentBroker, DiscordVoiceIntentConfig,
    DiscordVoiceIntentTargetConfig, FinalTranscriptEvent, LocalIntentExecution, OutgoingMessage,
    PendingMessage, PendingPhase, TextEffect, TranscriptKey, VoiceIntentTextOutcome,
    VoiceIntentTranscriptOutcome,
};
use openab_core::discord_voice_runtime::VoiceSessionToken;
use std::collections::{HashMap, HashSet};

#[derive(Debug, Clone, PartialEq, Eq)]
struct SentMessage {
    message_id: String,
    channel_id: u64,
    content: String,
    nonce: Option<String>,
}

/// A chat service that enforces nonces and can lose messages or replies.
#[derive(Default)]
struct FakeMessenger {
    messages: Vec<SentMessage>,
    nonce_ids: HashMap<String, String>,
    deleted_ids: HashSet<String>,
    next_message_id: u64,
    send_calls: u64,
    fail_next: bool,
    accept_then_fail_next: bool,
    fail_always: bool,
}

impl FakeMessenger {
    fn visible_messages(&self) -> Vec<SentMessage> {
        self.messages
            .iter()
            .filter(|message| !self.deleted_ids.contains(&message.message_id))
            .cloned()
            .collect()
    }

    fn send(&mut self, outgoing: &OutgoingMessage) -> Option<String> {
        self.send_calls += 1;
        let failed = self.fail_always || self.fail_next;
        self.fail_next = false;
        if failed {
            return None;
        }
        if let Some(nonce) = &outgoing.nonce {
            if let Some(existing) = self.nonce_ids.get(nonce) {
                return Some(existing.clone());
            }
        }
        self.next_message_id += 1;
        let message_id = format!("message-{}", self.next_message_id);
        self.messages.push(SentMessage {
            message_id: message_id.clone(),
            channel_id: outgoing.channel_id,
            content: outgoing.content.clone(),
            nonce: outgoing.nonce.clone(),
        });
        if let Some(nonce) = &outgoing.nonce {
            self.nonce_ids.insert(nonce.clone(), message_id.clone());
        }
        if self.accept_then_fail_next {
            self.accept_then_fail_next = false;
            return None;
        }
        Some(message_id)
    }
}

enum Job {
    Timeout {
        token: VoiceSessionToken,
        intent_id: u128,
        revision: u64,
        epoch: u64,
    },
    RetryConfirmation(Delivery, DeliveryRetry),
    RetryDispatch(Delivery, DeliveryRetry),
}

/// A broker with a chat service and a clock of its own.
struct World {
    broker: DiscordVoiceIntentBroker,
    messenger: FakeMessenger,
    now: u64,
    jobs: Vec<(u64, Job)>,
}

impl World {
    fn new(config: DiscordVoiceIntentConfig) -> Self {
        World {
            broker: DiscordVoiceIntentBroker::new(config).expect("valid test broker"),
            messenger: FakeMessenger::default(),
            now: 0,
            jobs: Vec::new(),
        }
    }

    fn bind_session(&mut self, token: VoiceSessionToken, channel: u64, user: u64, name: &str) -> bool {
        let (bound, stale) = self.broker.bind_session(token, channel, user, name);
        if let Some(prompt) = stale {
            self.messenger.deleted_ids.insert(prompt.message_id);
        }
        bound
    }

    fn abandon_session(&mut self, token: VoiceSessionToken) -> bool {
        let (abandoned, stale) = self.broker.abandon_session(token);
        if let Some(prompt) = stale {
            self.messenger.deleted_ids.insert(prompt.message_id);
        }
        abandoned
    }

    fn handle_final_transcript(&mut self, event: FinalTranscriptEvent) -> VoiceIntentTranscriptOutcome {
        let (outcome, delivery) = self.broker.handle_final_transcript(&event);
        if let Some(delivery) = delivery {
            self.post_confirmation(delivery);
        }
        outcome
    }

    fn handle_text_message(
        &mut self,
        guild: u64,
        channel: u64,
        user: u64,
        content: &str,
    ) -> VoiceIntentTextOutcome {
        let effect = self.broker.handle_text_message(guild, channel, user, content);
        self.carry_out(effect)
    }

    fn carry_out(&mut self, effect: TextEffect) -> VoiceIntentTextOutcome {
        let sent = match &effect {
            TextEffect::Dispatch(delivery) => {
                let sent = self.messenger.send(&delivery.outgoing).is_some();
                if !sent {
                    self.retry_later(Job::RetryDispatch(delivery.clone(), DeliveryRetry::new()));
                }
                sent
            }
            TextEffect::Correct(delivery) => {
                self.post_confirmation(delivery.clone());
                true
            }
            TextEffect::Cancel(outgoing) | TextEffect::RejectCorrection(outgoing) => {
                self.messenger.send(outgoing).is_some()
            }
            _ => true,
        };
        self.broker.apply_text_effect(effect, sent).unwrap()
    }

    fn post_confirmation(&mut self, delivery: Delivery) {
        match self.messenger.send(&delivery.outgoing) {
            Some(message_id) => self.finish_confirmation_post(&delivery.message, message_id),
            None => self.retry_later(Job::RetryConfirmation(delivery, DeliveryRetry::new())),
        }
    }

    fn finish_confirmation_post(&mut self, message: &PendingMessage, message_id: String) {
        match self
            .broker
            .enter_waiting_after_confirmation_post(message, message_id.clone())
        {
            Some(epoch) => self.schedule_timeout(message, epoch),
            None => {
                self.messenger.deleted_ids.insert(message_id);
            }
        }
    }

    fn schedule_timeout(&mut self, message: &PendingMessage, epoch: u64) {
        let due = self.now + self.broker.confirmation_timeout_seconds();
        self.jobs.push((
            due,
            Job::Timeout {
                token: message.token,
                intent_id: message.intent.id,
                revision: message.intent.revision,
                epoch,
            },
        ));
    }

    fn retry_later(&mut self, job: Job) {
        let retry = match &job {
            Job::RetryConfirmation(_, retry) | Job::RetryDispatch(_, retry) => *retry,
            Job::Timeout { .. } => panic!("a timeout is not retried"),
        };
        match retry.next_delay() {
            Some(delay) => self.jobs.push((self.now + delay, job)),
            None => match job {
                Job::RetryConfirmation(delivery, _) => {
                    self.broker.confirmation_retries_exhausted(&delivery.message);
                }
                Job::RetryDispatch(delivery, _) => {
                    let reopened = self.broker.restore_waiting_if_current(&delivery.message);
                    if let Some(epoch) = reopened {
                        self.schedule_timeout(&delivery.message, epoch);
                    }
                }
                Job::Timeout { .. } => {}
            },
        }
    }

    fn run(&mut self, job: Job) {
        match job {
            Job::Timeout { token, intent_id, revision, epoch } => {
                if let Some(outgoing) =
                    self.broker.expire_pending(token, intent_id, revision, epoch)
                {
                    self.messenger.send(&outgoing);
                }
            }
            Job::RetryConfirmation(delivery, mut retry) => {
                let current = self
                    .broker
                    .is_current_phase(&delivery.message, PendingPhase::PostingConfirmation);
                if !retry.may_send(current) {
                    return;
                }
                match self.messenger.send(&delivery.outgoing) {
                    Some(message_id) => {
                        self.finish_confirmation_post(&delivery.message, message_id)
                    }
                    None => {
                        retry.failed();
                        self.retry_later(Job::RetryConfirmation(delivery, retry));
                    }
                }
            }
            Job::RetryDispatch(delivery, mut retry) => {
                let current = self
                    .broker
                    .is_current_phase(&delivery.message, PendingPhase::Dispatching);
                if !retry.may_send(current) {
                    return;
                }
                if self.messenger.send(&delivery.outgoing).is_some() {
                    self.broker.dispatch_recovered(&delivery.message);
                } else {
                    retry.failed();
                    self.retry_later(Job::RetryDispatch(delivery, retry));
                }
            }
        }
    }

    fn advance(&mut self, seconds: u64) {
        let until = self.now + seconds;
        loop {
            let next = self
                .jobs
                .iter()
                .enumerate()
                .filter(|(_, (due, _))| *due <= until)
                .min_by_key(|(i, (due, _))| (*due, *i))
                .map(|(i, _)| i);
            match next {
                Some(i) => {
                    let (due, job) = self.jobs.remove(i);
                    self.now = due;
                    self.run(job);
                }
                None => break,
            }
        }
        self.now = until;
    }
}

fn intent_config(timeout_seconds: u64) -> DiscordVoiceIntentConfig {
    DiscordVoiceIntentConfig {
        enabled: true,
        confirmation_timeout_seconds: timeout_seconds,
        default_to_local: false,
        targets: vec![
            (
                "B0".to_string(),
                DiscordVoiceIntentTargetConfig {
                    discord_user_id: "9000".to_string(),
                    aliases: vec!["bot0".to_string(), "零號".to_string(), "Sam".to_string()],
                },
            ),
            (
                "B1".to_string(),
                DiscordVoiceIntentTargetConfig {
                    discord_user_id: "9001".to_string(),
                    aliases: vec!["bot1".to_string(), "一號".to_string()],
                },
            ),
        ],
    }
}

fn token(guild_id: u64, session_id: u64) -> VoiceSessionToken {
    VoiceSessionToken::for_test(guild_id, session_id)
}

fn broker(timeout_seconds: u64) -> World {
    World::new(intent_config(timeout_seconds))
}

fn local_broker(timeout_seconds: u64) -> World {
    let mut config = intent_config(timeout_seconds);
    config.default_to_local = true;
    World::new(config)
}

fn heard(
    token: VoiceSessionToken,
    control_channel_id: u64,
    speaker_id: u64,
    text: &str,
) -> FinalTranscriptEvent {
    FinalTranscriptEvent {
        token,
        control_channel_id,
        key: TranscriptKey { speaker_id, start_frame: 100, end_frame: 200 },
        text: text.to_string(),
    }
}

fn propose(world: &mut World, token: VoiceSessionToken) {
    assert_eq!(
        world.handle_final_transcript(heard(token, 200, 300, "幫我叫 B0 group review PR #123")),
        VoiceIntentTranscriptOutcome::Proposed
    );
}

fn propose_local(world: &mut World, token: VoiceSessionToken) {
    assert_eq!(
        world.handle_final_transcript(heard(token, 200, 300, "請幫我 review PR #123")),
        VoiceIntentTranscriptOutcome::Proposed
    );
}

fn is_dispatch(message: &SentMessage) -> bool {
    message.nonce.as_deref().is_some_and(|nonce| nonce.starts_with("oabv1"))
}

fn local_request(outcome: VoiceIntentTextOutcome) -> LocalIntentExecution {
    match outcome {
        VoiceIntentTextOutcome::ExecuteLocal(request) => request,
        other => panic!("expected local execution handoff, got {other:?}"),
    }
}

#[test]
fn parser_requires_one_target_and_a_command_shaped_prefix() {
    let world = broker(30);
    let broker = &world.broker;
    for command in [
        "幫我叫 B0 group review PR #123",
        "請幫我叫 B0 group review PR #123",
        "可以請 B0 group review PR #123",
        "你幫我叫 B0 group review PR #123",
        "叫 Sam group review PR #123",
    ] {
        assert_eq!(
            broker.resolve_proposal(command),
            Some(IntentProposal {
                destination: IntentDestination::Delegate { target_index: 0 },
                task: "group review PR #123".to_string(),
            }),
            "command should resolve: {command}"
        );
    }
    assert!(broker.resolve_proposal("請 B0 跟 B1 一起 review PR #123").is_none());
    assert!(broker.resolve_proposal("我昨天跟 B0 討論 PR #123").is_none());
    assert!(broker.resolve_proposal("請 B0").is_none());
    assert!(broker.resolve_proposal("請 B01 review").is_none());
    assert!(broker.resolve_proposal("請幫我 review PR #123").is_none());
}

#[test]
fn local_mode_only_falls_back_for_command_shaped_unaddressed_tasks() {
    let world = local_broker(30);
    let broker = &world.broker;
    assert_eq!(
        broker.resolve_proposal("請幫我 review PR #123"),
        Some(IntentProposal {
            destination: IntentDestination::Local,
            task: "review PR #123".to_string(),
        })
    );
    assert_eq!(
        broker.resolve_proposal("run CI"),
        Some(IntentProposal {
            destination: IntentDestination::Local,
            task: "run CI".to_string(),
        })
    );
    for command in [
        "先查看 OpenAPI 171368整理目前施作方向",
        "請先查看 Open App取得issue 1368整理目前行作方向",
    ] {
        assert_eq!(
            broker.resolve_proposal(command).map(|proposal| proposal.destination),
            Some(IntentDestination::Local),
            "real STT command should resolve locally: {command}"
        );
    }
    assert_eq!(
        broker.resolve_proposal("請幫我叫 Sam group review PR #123"),
        Some(IntentProposal {
            destination: IntentDestination::Delegate { target_index: 0 },
            task: "group review PR #123".to_string(),
        })
    );
    assert!(broker.resolve_proposal("請 B0 跟 B1 一起 review PR #123").is_none());
    assert!(broker.resolve_proposal("我昨天 review PR #123").is_none());
}

#[test]
fn target_name_inside_a_local_task_does_not_force_delegation() {
    let world = local_broker(30);
    assert_eq!(
        world.broker.resolve_proposal("先查看 Sam 的 PR 狀態"),
        Some(IntentProposal {
            destination: IntentDestination::Local,
            task: "先查看 Sam 的 PR 狀態".to_string(),
        })
    );
}

#[test]
fn task_cleanup_does_not_corrupt_chinese_compound_verbs_or_nouns() {
    let world = broker(30);
    for (command, expected_task) in [
        ("叫 B0 去除 stale label", "去除 stale label"),
        ("叫 B0 檢查執行緒 deadlock", "檢查執行緒 deadlock"),
        ("叫 B0 執行緒 dump", "執行緒 dump"),
        ("叫 B0 請求 review", "請求 review"),
    ] {
        assert_eq!(
            world.broker.resolve_proposal(command).map(|proposal| proposal.task),
            Some(expected_task.to_string()),
            "task should remain semantically intact: {command}"
        );
    }
}

#[test]
fn confirmation_classification_is_exact_but_allows_punctuation() {
    assert_eq!(classify_confirmation(" 對！ "), Confirmation::Affirmative);
    assert_eq!(classify_confirmation("不是"), Confirmation::Negative);
    assert_eq!(
        classify_confirmation("不是，review only"),
        Confirmation::Correction("review only".to_string())
    );
    assert_eq!(
        classify_confirmation("更正：請 B1 run CI"),
        Confirmation::Correction("請 B1 run CI".to_string())
    );
    assert_eq!(classify_confirmation("對了，還有一件事"), Confirmation::Unrelated);
}

#[test]
fn only_exact_bound_session_channel_and_operator_can_propose() {
    let mut world = broker(30);
    let current = token(100, 2);
    world.bind_session(current, 200, 300, "Can");

    for event in [
        heard(token(100, 1), 200, 300, "B0 review PR #123"),
        heard(current, 201, 300, "B0 review PR #123"),
        heard(current, 200, 301, "B0 review PR #123"),
    ] {
        assert_eq!(
            world.handle_final_transcript(event),
            VoiceIntentTranscriptOutcome::Ignored
        );
    }
    assert!(world.messenger.messages.is_empty());

    propose(&mut world, current);
    let messages = &world.messenger.messages;
    assert_eq!(messages.len(), 1);
    assert_eq!(messages[0].channel_id, 200);
    assert!(messages[0].content.contains("<@300>"));
    assert!(messages[0].content.contains("B0 group review PR #123"));
    assert!(messages[0]
        .nonce
        .as_deref()
        .is_some_and(|nonce| nonce.starts_with("oabp1") && nonce.len() == 25));
}

#[test]
fn unaddressed_commands_remain_ignored_when_local_mode_is_disabled() {
    let mut world = broker(30);
    let current = token(100, 1);
    world.bind_session(current, 200, 300, "Can");
    assert_eq!(
        world.handle_final_transcript(heard(current, 200, 300, "請幫我 review PR #123")),
        VoiceIntentTranscriptOutcome::Ignored
    );
    assert!(world.messenger.messages.is_empty());
}

#[test]
fn affirmative_emits_one_local_execution_without_a_delegate_message() {
    let mut world = local_broker(30);
    let current = token(100, 1);
    world.bind_session(current, 200, 300, "Can");
    propose_local(&mut world, current);

    let prompt = world.messenger.messages.last().unwrap().clone();
    assert!(prompt.content.contains("由我直接處理「review PR #123」"));
    let request = local_request(world.handle_text_message(100, 200, 300, "對"));
    assert_ne!(request.intent_id, 0);
    assert_eq!(request.revision, 1);
    assert_eq!(request.session, current);
    assert_eq!(request.control_channel_id, 200);
    assert_eq!(request.operator_user_id, 300);
    assert_eq!(request.operator_display_name, "Can");
    assert_eq!(request.task, "review PR #123");

    assert_eq!(world.messenger.messages.len(), 1);
    assert!(world.messenger.messages.iter().all(|message| !is_dispatch(message)));
    assert_eq!(
        world.handle_text_message(100, 200, 300, "對"),
        VoiceIntentTextOutcome::AlreadyProcessing
    );
    assert!(world.broker.reopen_local_execution(&request).is_some());
    assert!(world.broker.reopen_local_execution(&request).is_none());
    let retried = local_request(world.handle_text_message(100, 200, 300, "對"));
    assert_eq!(retried, request);
    assert!(world.broker.complete_local_execution(&retried));
    assert!(!world.broker.complete_local_execution(&retried));
    assert_eq!(
        world.handle_text_message(100, 200, 300, "對"),
        VoiceIntentTextOutcome::NotApplicable
    );
}

#[test]
fn local_mode_preserves_explicit_target_delegation() {
    let mut world = local_broker(30);
    let current = token(100, 1);
    world.bind_session(current, 200, 300, "Can");
    propose(&mut world, current);
    assert_eq!(
        world.handle_text_message(100, 200, 300, "對"),
        VoiceIntentTextOutcome::Dispatched
    );
    assert_eq!(
        world
            .messenger
            .messages
            .iter()
            .filter(|message| message.content.starts_with("<@9000>"))
            .count(),
        1
    );
}

#[test]
fn local_intent_can_be_cancelled_without_execution() {
    let mut world = local_broker(30);
    let current = token(100, 1);
    world.bind_session(current, 200, 300, "Can");
    propose_local(&mut world, current);
    assert_eq!(
        world.handle_text_message(100, 200, 300, "不是"),
        VoiceIntentTextOutcome::Cancelled
    );
    assert_eq!(
        world.handle_text_message(100, 200, 300, "對"),
        VoiceIntentTextOutcome::NotApplicable
    );
    assert!(world.messenger.messages.iter().all(|message| !is_dispatch(message)));
}

#[test]
fn correction_switches_modes_only_when_the_new_destination_is_explicit() {
    let mut world = local_broker(30);
    let first = token(100, 1);
    world.bind_session(first, 200, 300, "Can");
    propose_local(&mut world, first);
    assert_eq!(
        world.handle_text_message(100, 200, 300, "更正：請 B1 run CI"),
        VoiceIntentTextOutcome::Corrected
    );
    assert_eq!(
        world.handle_text_message(100, 200, 300, "對"),
        VoiceIntentTextOutcome::Dispatched
    );
    assert!(world.messenger.messages.last().unwrap().content.starts_with("<@9001>"));

    let second = token(100, 2);
    world.bind_session(second, 200, 300, "Can");
    propose(&mut world, second);
    assert_eq!(
        world.handle_text_message(100, 200, 300, "更正：review only"),
        VoiceIntentTextOutcome::Corrected
    );
    assert!(world.messenger.messages.last().unwrap().content.contains("B0 review only"));
    assert_eq!(
        world.handle_text_message(100, 200, 300, "更正：你幫我 run CI"),
        VoiceIntentTextOutcome::Corrected
    );
    assert!(world
        .messenger
        .messages
        .last()
        .unwrap()
        .content
        .contains("由我直接處理「run CI」"));
    let request = local_request(world.handle_text_message(100, 200, 300, "對"));
    assert_eq!(request.task, "run CI");
}

#[test]
fn affirmative_dispatches_one_auditable_real_mention() {
    let mut world = broker(30);
    let current = token(100, 1);
    world.bind_session(current, 200, 300, "Can");
    propose(&mut world, current);
    assert_eq!(
        world.handle_text_message(100, 200, 300, "對"),
        VoiceIntentTextOutcome::Dispatched
    );
    let messages = world.messenger.messages.clone();
    assert_eq!(messages.len(), 2);
    assert!(messages[1].content.starts_with("<@9000> Can (<@300>) asked via voice:\n"));
    assert!(messages[1].content.ends_with("group review PR #123"));
    assert_eq!(messages[1].nonce.as_ref().unwrap().len(), 25);

    // Nothing is pending any more, so a later conversational "yes" is not swallowed and cannot
    // dispatch again.
    assert_eq!(
        world.handle_text_message(100, 200, 300, "對"),
        VoiceIntentTextOutcome::NotApplicable
    );
    assert_eq!(world.messenger.messages.len(), 2);
}

#[test]
fn oversized_task_is_canonicalized_once_for_confirmation_and_dispatch() {
    let mut world = broker(30);
    let current = token(100, 1);
    world.bind_session(current, 200, 300, "Can");
    let raw_task = "x".repeat(3_000);
    assert_eq!(
        world.handle_final_transcript(heard(current, 200, 300, &format!("請 B0 {raw_task}"))),
        VoiceIntentTranscriptOutcome::Proposed
    );
    let confirmation = world.messenger.messages[0].clone();
    assert!(confirmation.content.chars().count() <= DISCORD_MESSAGE_LIMIT);
    let confirmation_task = confirmation
        .content
        .split_once("B0 ")
        .unwrap()
        .1
        .strip_suffix("，對嗎？請回覆「對」、「不是」，或用「更正：...」修正。")
        .unwrap()
        .to_string();
    assert!(confirmation_task.ends_with('…'));

    assert_eq!(
        world.handle_text_message(100, 200, 300, "對"),
        VoiceIntentTextOutcome::Dispatched
    );
    let dispatch = world.messenger.messages[1].clone();
    assert!(dispatch.content.chars().count() <= DISCORD_MESSAGE_LIMIT);
    let dispatch_task = dispatch.content.split_once('\n').unwrap().1;
    assert_eq!(confirmation_task, dispatch_task);
}

#[test]
fn replayed_final_transcript_cannot_create_a_second_proposal() {
    let mut world = broker(30);
    let current = token(100, 1);
    world.bind_session(current, 200, 300, "Can");
    propose(&mut world, current);
    assert_eq!(
        world.handle_text_message(100, 200, 300, "對"),
        VoiceIntentTextOutcome::Dispatched
    );
    assert_eq!(
        world.handle_final_transcript(heard(
            current,
            200,
            300,
            "幫我叫 B0 group review PR #123"
        )),
        VoiceIntentTranscriptOutcome::Ignored
    );
    assert_eq!(world.messenger.messages.len(), 2);
}

fn numbered(token: VoiceSessionToken, start_frame: u64) -> FinalTranscriptEvent {
    FinalTranscriptEvent {
        key: TranscriptKey { speaker_id: 300, start_frame, end_frame: start_frame + 1 },
        ..heard(token, 200, 300, "請 B0 review PR #123")
    }
}

#[test]
fn a_cancelled_or_expired_command_is_not_taken_again() {
    let mut world = broker(2);
    let current = token(100, 1);
    world.bind_session(current, 200, 300, "Can");
    assert_eq!(
        world.handle_final_transcript(numbered(current, 1000)),
        VoiceIntentTranscriptOutcome::Proposed
    );
    assert_eq!(
        world.handle_text_message(100, 200, 300, "不是"),
        VoiceIntentTextOutcome::Cancelled
    );
    assert_eq!(
        world.handle_final_transcript(numbered(current, 1000)),
        VoiceIntentTranscriptOutcome::Ignored
    );

    assert_eq!(
        world.handle_final_transcript(numbered(current, 2000)),
        VoiceIntentTranscriptOutcome::Proposed
    );
    world.advance(2);
    for start_frame in [1000, 2000] {
        assert_eq!(
            world.handle_final_transcript(numbered(current, start_frame)),
            VoiceIntentTranscriptOutcome::Ignored
        );
    }
}

#[test]
fn a_command_is_remembered_until_1024_others_were_taken() {
    let mut world = broker(30);
    let current = token(100, 1);
    world.bind_session(current, 200, 300, "Can");
    for start_frame in 0..1024 {
        assert_eq!(
            world.handle_final_transcript(numbered(current, start_frame)),
            VoiceIntentTranscriptOutcome::Proposed
        );
        assert_eq!(
            world.handle_text_message(100, 200, 300, "不是"),
            VoiceIntentTextOutcome::Cancelled
        );
    }
    assert_eq!(
        world.handle_final_transcript(numbered(current, 0)),
        VoiceIntentTranscriptOutcome::Ignored
    );
    assert_eq!(
        world.handle_final_transcript(numbered(current, 1024)),
        VoiceIntentTranscriptOutcome::Proposed
    );
    assert_eq!(
        world.handle_text_message(100, 200, 300, "不是"),
        VoiceIntentTextOutcome::Cancelled
    );
    assert_eq!(
        world.handle_final_transcript(numbered(current, 1)),
        VoiceIntentTranscriptOutcome::Ignored
    );
    assert_eq!(
        world.handle_final_transcript(numbered(current, 0)),
        VoiceIntentTranscriptOutcome::Proposed
    );
}

#[test]
fn work_for_an_unknown_target_is_not_proposed() {
    let nowhere = IntentDestination::Delegate { target_index: 3 };
    let proposal = IntentProposal { destination: nowhere, task: "run CI".to_string() };
    assert_eq!(canonicalize_proposal(300, "Can", proposal, &Vec::new()), None);
    assert_eq!(
        resolve_correction(nowhere, "review only", &Vec::new(), false),
        Some(IntentProposal { destination: nowhere, task: "review only".to_string() })
    );
}

#[test]
fn confirmation_cannot_dispatch_before_proposal_message_is_posted() {
    let mut world = broker(30);
    let current = token(100, 1);
    world.bind_session(current, 200, 300, "Can");

    // The prompt is on its way.
    let event = heard(current, 200, 300, "請 B0 review PR #123");
    let (outcome, delivery) = world.broker.handle_final_transcript(&event);
    assert_eq!(outcome, VoiceIntentTranscriptOutcome::Proposed);
    let delivery = delivery.unwrap();

    assert_eq!(
        world.handle_text_message(100, 200, 300, "對"),
        VoiceIntentTextOutcome::AlreadyProcessing
    );
    assert!(world.messenger.messages.is_empty());

    world.post_confirmation(delivery);
    assert_eq!(
        world.handle_text_message(100, 200, 300, "對"),
        VoiceIntentTextOutcome::Dispatched
    );
}

#[test]
fn concurrent_affirmatives_make_one_atomic_dispatch() {
    let mut world = broker(30);
    let current = token(100, 1);
    world.bind_session(current, 200, 300, "Can");
    propose(&mut world, current);

    // The first dispatch is on its way when the second answer arrives.
    let first = world.broker.handle_text_message(100, 200, 300, "yes");
    assert_eq!(
        world.handle_text_message(100, 200, 300, "yes"),
        VoiceIntentTextOutcome::AlreadyProcessing
    );
    assert_eq!(world.carry_out(first), VoiceIntentTextOutcome::Dispatched);
    assert_eq!(
        world.messenger.messages.iter().filter(|message| is_dispatch(message)).count(),
        1
    );
}

#[test]
fn wrong_confirmation_context_is_not_consumed() {
    let mut world = broker(30);
    let current = token(100, 1);
    world.bind_session(current, 200, 300, "Can");
    propose(&mut world, current);
    for (guild, channel, user) in [(101, 200, 300), (100, 201, 300), (100, 200, 301)] {
        assert_eq!(
            world.handle_text_message(guild, channel, user, "對"),
            VoiceIntentTextOutcome::NotApplicable
        );
    }
    assert_eq!(
        world.handle_text_message(100, 200, 300, "unrelated"),
        VoiceIntentTextOutcome::NotApplicable
    );
}

#[test]
fn cancellation_removes_the_pending_intent() {
    let mut world = broker(30);
    let current = token(100, 1);
    world.bind_session(current, 200, 300, "Can");
    propose(&mut world, current);
    assert_eq!(
        world.handle_text_message(100, 200, 300, "不是"),
        VoiceIntentTextOutcome::Cancelled
    );
    assert!(world.messenger.messages[1].content.contains("已取消"));
    assert_eq!(
        world.handle_text_message(100, 200, 300, "對"),
        VoiceIntentTextOutcome::NotApplicable
    );
}

#[test]
fn correction_can_keep_or_change_the_target_and_invalidates_old_revision() {
    let mut world = broker(1);
    let current = token(100, 1);
    world.bind_session(current, 200, 300, "Can");
    propose(&mut world, current);
    assert_eq!(
        world.handle_text_message(100, 200, 300, "更正：review only，不要 merge"),
        VoiceIntentTextOutcome::Corrected
    );
    assert!(world.messenger.messages[1].content.contains("B0 review only，不要 merge"));
    assert_eq!(
        world.handle_text_message(100, 200, 300, "更正：請 B1 run CI"),
        VoiceIntentTextOutcome::Corrected
    );
    assert!(world.messenger.messages[2].content.contains("B1 run CI"));
    assert_eq!(
        world.handle_text_message(100, 200, 300, "對"),
        VoiceIntentTextOutcome::Dispatched
    );
    assert!(world.messenger.messages.last().unwrap().content.starts_with("<@9001>"));
}

#[test]
fn stale_timeout_cannot_remove_revised_or_replacement_session_intent() {
    let mut world = broker(2);
    let old = token(100, 1);
    world.bind_session(old, 200, 300, "Can");
    propose(&mut world, old);
    world.handle_text_message(100, 200, 300, "更正：review only");

    world.advance(1);
    let replacement = token(100, 2);
    world.bind_session(replacement, 200, 300, "Can");
    propose(&mut world, replacement);

    // Both timers of the previous token and revision become due.
    world.advance(1);
    assert_eq!(
        world.handle_text_message(100, 200, 300, "對"),
        VoiceIntentTextOutcome::Dispatched
    );
    assert!(world
        .messenger
        .messages
        .iter()
        .all(|message| !message.content.contains("已逾時")));
}

#[test]
fn current_timeout_expires_without_dispatching() {
    let mut world = broker(2);
    let current = token(100, 1);
    world.bind_session(current, 200, 300, "Can");
    propose(&mut world, current);
    world.advance(2);
    assert!(world
        .messenger
        .messages
        .iter()
        .any(|message| message.content.contains("已逾時")));
    assert_eq!(
        world.handle_text_message(100, 200, 300, "對"),
        VoiceIntentTextOutcome::NotApplicable
    );
}

#[test]
fn failed_dispatch_automatically_recovers_with_the_same_nonce() {
    let mut world = broker(30);
    let current = token(100, 1);
    world.bind_session(current, 200, 300, "Can");
    propose(&mut world, current);
    world.messenger.fail_next = true;
    assert_eq!(
        world.handle_text_message(100, 200, 300, "對"),
        VoiceIntentTextOutcome::Dispatching
    );
    world.advance(confirmation_retry_delay(0));
    assert_eq!(
        world.handle_text_message(100, 200, 300, "對"),
        VoiceIntentTextOutcome::NotApplicable
    );
    let dispatch = world
        .messenger
        .messages
        .iter()
        .find(|message| is_dispatch(message))
        .unwrap();
    assert_eq!(dispatch.nonce.as_ref().unwrap().len(), 25);
}

#[test]
fn accepted_but_lost_dispatch_response_recovers_one_target_message_without_timeout() {
    let mut world = broker(2);
    let current = token(100, 1);
    world.bind_session(current, 200, 300, "Can");
    propose(&mut world, current);
    world.messenger.accept_then_fail_next = true;
    assert_eq!(
        world.handle_text_message(100, 200, 300, "對"),
        VoiceIntentTextOutcome::Dispatching
    );
    let mentions = |world: &World| {
        world
            .messenger
            .visible_messages()
            .iter()
            .filter(|message| message.content.starts_with("<@9000>"))
            .count()
    };
    assert_eq!(mentions(&world), 1);

    world.advance(confirmation_retry_delay(0));
    world.advance(5);
    assert_eq!(mentions(&world), 1);
    assert!(world
        .messenger
        .messages
        .iter()
        .all(|message| !message.content.contains("已逾時")));
    assert_eq!(
        world.handle_text_message(100, 200, 300, "對"),
        VoiceIntentTextOutcome::NotApplicable
    );
}

#[test]
fn failed_dispatch_gets_new_waiting_epoch_and_old_timer_cannot_expire_it() {
    let mut world = broker(60);
    let current = token(100, 1);
    world.bind_session(current, 200, 300, "Can");
    propose(&mut world, current);
    world.advance(1);

    world.messenger.fail_always = true;
    assert_eq!(
        world.handle_text_message(100, 200, 300, "對"),
        VoiceIntentTextOutcome::Dispatching
    );
    for attempt in 0..MAX_CONFIRMATION_RETRY_ATTEMPTS {
        world.advance(confirmation_retry_delay(attempt));
    }
    world.messenger.fail_always = false;

    // Recovery is exhausted after 24 seconds, and the intent waits under a new epoch. The
    // deadline of the original epoch, at 60 seconds, must not expire it.
    world.advance(36);
    assert_eq!(
        world.handle_text_message(100, 200, 300, "對"),
        VoiceIntentTextOutcome::Dispatched
    );
    assert!(world
        .messenger
        .messages
        .iter()
        .all(|message| !message.content.contains("已逾時")));
}

#[test]
fn ambiguous_corrected_prompt_recovers_same_message_and_never_restores_old_task() {
    let mut world = broker(30);
    let current = token(100, 1);
    world.bind_session(current, 200, 300, "Can");
    propose(&mut world, current);

    // The revised prompt is accepted and the reply is lost: the prompt is visible while the
    // broker still posts it.
    world.messenger.accept_then_fail_next = true;
    assert_eq!(
        world.handle_text_message(100, 200, 300, "更正：review only，不要 merge"),
        VoiceIntentTextOutcome::Corrected
    );
    assert_eq!(world.messenger.visible_messages().len(), 2);
    assert!(world.messenger.visible_messages()[1].content.contains("review only，不要 merge"));
    assert_eq!(
        world.handle_text_message(100, 200, 300, "對"),
        VoiceIntentTextOutcome::AlreadyProcessing
    );

    // The retry uses the same nonce, finds the existing message, and opens the confirmation of
    // the revised intent.
    world.advance(confirmation_retry_delay(0));
    assert_eq!(world.messenger.visible_messages().len(), 2);
    assert_eq!(
        world.handle_text_message(100, 200, 300, "對"),
        VoiceIntentTextOutcome::Dispatched
    );
    let dispatch = world.messenger.messages.last().unwrap().clone();
    assert!(dispatch.content.ends_with("review only，不要 merge"));
    assert!(!dispatch.content.ends_with("group review PR #123"));
}

#[test]
fn stopped_or_replaced_session_cannot_dispatch() {
    let mut world = broker(30);
    let old = token(100, 1);
    world.bind_session(old, 200, 300, "Can");
    propose(&mut world, old);
    assert!(world.abandon_session(old));
    assert_eq!(
        world.handle_text_message(100, 200, 300, "對"),
        VoiceIntentTextOutcome::NotApplicable
    );
    assert!(world.messenger.visible_messages().is_empty());

    world.bind_session(token(100, 2), 200, 300, "Can");
    assert_eq!(world.messenger.messages.len(), 1);
    assert!(!world.abandon_session(old));
}

#[test]
fn blocked_prompt_completed_after_abandon_is_deleted_as_stale() {
    let mut world = broker(30);
    let current = token(100, 1);
    world.bind_session(current, 200, 300, "Can");
    let event = heard(current, 200, 300, "請 B0 review PR #123");
    let (outcome, delivery) = world.broker.handle_final_transcript(&event);
    assert_eq!(outcome, VoiceIntentTranscriptOutcome::Proposed);
    assert!(world.abandon_session(current));
    world.post_confirmation(delivery.unwrap());
    assert_eq!(world.messenger.messages.len(), 1);
    assert!(world.messenger.visible_messages().is_empty());
}

#[test]
fn blocked_prompt_completed_after_rebind_is_deleted_as_stale() {
    let mut world = broker(30);
    let old = token(100, 1);
    world.bind_session(old, 200, 300, "Can");
    let event = heard(old, 200, 300, "請 B0 review PR #123");
    let (_, delivery) = world.broker.handle_final_transcript(&event);
    world.bind_session(token(100, 2), 200, 300, "Can");
    world.post_confirmation(delivery.unwrap());
    assert!(world.messenger.visible_messages().is_empty());
}

#[test]
fn ambiguous_prompt_retry_after_abandon_recovers_then_deletes_and_stops() {
    let mut world = broker(30);
    let current = token(100, 1);
    world.bind_session(current, 200, 300, "Can");
    world.messenger.accept_then_fail_next = true;
    propose(&mut world, current);
    assert_eq!(world.messenger.visible_messages().len(), 1);
    assert!(world.abandon_session(current));

    world.advance(confirmation_retry_delay(0));
    assert!(world.messenger.visible_messages().is_empty());
    assert_eq!(world.messenger.send_calls, 2);

    world.advance(60);
    assert_eq!(world.messenger.send_calls, 2);
}

#[test]
fn permanently_failed_prompt_retries_are_bounded_and_clear_pending_ticket() {
    let mut world = broker(30);
    let current = token(100, 1);
    world.bind_session(current, 200, 300, "Can");
    world.messenger.fail_always = true;
    propose(&mut world, current);
    for attempt in 0..MAX_CONFIRMATION_RETRY_ATTEMPTS {
        world.advance(confirmation_retry_delay(attempt));
    }
    assert_eq!(
        world.messenger.send_calls,
        1 + u64::try_from(MAX_CONFIRMATION_RETRY_ATTEMPTS).unwrap()
    );

    world.messenger.fail_always = false;
    assert_eq!(
        world.handle_final_transcript(FinalTranscriptEvent {
            token: current,
            control_channel_id: 200,
            key: TranscriptKey { speaker_id: 300, start_frame: 300, end_frame: 400 },
            text: "請 B0 run CI".to_string(),
        }),
        VoiceIntentTranscriptOutcome::Proposed
    );
    assert_eq!(world.messenger.visible_messages().len(), 1);
    assert!(world.messenger.visible_messages()[0].content.contains("run CI"));
}

#[test]
fn nonce_is_stable_and_never_exceeds_discord_limit() {
    let id = 0x00112233_4455_6677_8899_aabbccddeeff_u128;
    assert_eq!(dispatch_nonce(id), "oabv100112233445566778899");
    assert_eq!(dispatch_nonce(id).len(), 25);
    assert_eq!(confirmation_nonce(id), "oabp100112233445566778899");
    assert_eq!(confirmation_nonce(id).len(), 25);
    assert_ne!(confirmation_nonce(id), dispatch_nonce(id));
}

#[test]
fn disabled_broker_is_inert_without_targets() {
    let mut world = World::new(DiscordVoiceIntentConfig {
        enabled: false,
        confirmation_timeout_seconds: 30,
        default_to_local: false,
        targets: vec![],
    });
    assert!(!world.broker.enabled());
    assert!(!world.bind_session(token(100, 1), 200, 300, "Can"));
}

#[test]
fn a_target_needs_a_numeric_user() {
    let mut config = intent_config(30);
    config.targets[1].1.discord_user_id = "someone".to_string();
    assert!(DiscordVoiceIntentBroker::new(config).is_err());
}

#[test]
fn target_names_match_in_any_case() {
    let mut config = intent_config(30);
    config.targets[0].1.aliases.push("Ödön".to_string());
    let world = World::new(config);
    for command in ["請 ÖDÖN run CI", "請 ödön run CI", "請 sam run CI", "請 SAM run CI"] {
        assert_eq!(
            world.broker.resolve_proposal(command),
            Some(IntentProposal {
                destination: IntentDestination::Delegate { target_index: 0 },
                task: "run CI".to_string(),
            }),
            "{command}"
        );
    }
}

#[test]
fn rejected_correction_keeps_the_pending_intent() {
    let mut world = broker(30);
    let current = token(100, 1);
    world.bind_session(current, 200, 300, "Can");
    propose(&mut world, current);
    assert_eq!(
        world.handle_text_message(100, 200, 300, "更正：請 B0 跟 B1 一起 review"),
        VoiceIntentTextOutcome::CorrectionRejected
    );
    assert!(world.messenger.messages[1].content.starts_with("<@300> 我沒有理解這個修正"));
    assert_eq!(
        world.handle_text_message(100, 200, 300, "對"),
        VoiceIntentTextOutcome::Dispatched
    );
}

#[test]
fn an_answer_that_cannot_be_acknowledged_is_an_error() {
    let mut world = broker(30);
    world.bind_session(token(100, 1), 200, 300, "Can");
    propose(&mut world, token(100, 1));
    let rejected = world.broker.handle_text_message(100, 200, 300, "更正：B0 B1");
    assert_eq!(
        world.broker.apply_text_effect(rejected, false),
        Err("failed to send Discord voice correction guidance".to_string())
    );
    let cancelled = world.broker.handle_text_message(100, 200, 300, "不是");
    assert_eq!(
        world.broker.apply_text_effect(cancelled, false),
        Err("failed to acknowledge cancelled Discord voice intent".to_string())
    );
}

#[test]
fn a_transcript_heard_while_an_intent_is_pending_waits() {
    let mut world = broker(30);
    let current = token(100, 1);
    world.bind_session(current, 200, 300, "Can");
    propose(&mut world, current);
    let mut second = heard(current, 200, 300, "請 B1 run CI");
    second.key.start_frame = 300;
    second.key.end_frame = 400;
    assert_eq!(
        world.handle_final_transcript(second.clone()),
        VoiceIntentTranscriptOutcome::AwaitingConfirmation
    );
    assert_eq!(
        world.handle_final_transcript(second),
        VoiceIntentTranscriptOutcome::Ignored
    );
    assert_eq!(world.messenger.messages.len(), 1);
}

#[test]
fn a_message_that_nobody_waits_for_is_sent_twice_more_at_most() {
    let mut retry = DeliveryRetry::new();
    assert!(retry.may_send(true));
    assert!(retry.may_send(false));
    assert!(retry.may_send(false));
    assert!(!retry.may_send(false));
    let mut delays = Vec::new();
    while let Some(delay) = retry.next_delay() {
        delays.push(delay);
        retry.failed();
    }
    assert_eq!(delays, vec![1, 2, 4, 8, 8]);
}

#[test]
fn consumed_outcomes() {
    assert!(!VoiceIntentTextOutcome::NotApplicable.consumed());
    assert!(VoiceIntentTextOutcome::AlreadyProcessing.consumed());
    assert!(VoiceIntentTextOutcome::Cancelled.consumed());
}

#[test]
fn intents_get_random_ids() {
    let mut world = broker(30);
    world.bind_session(token(100, 1), 200, 300, "Can");
    let event = heard(token(100, 1), 200, 300, "請 B0 review PR #123");
    let (_, delivery) = world.broker.handle_final_transcript(&event);
    let proposed = delivery.unwrap();
    world.post_confirmation(proposed.clone());
    let corrected = match world.broker.handle_text_message(100, 200, 300, "更正：review only") {
        TextEffect::Correct(delivery) => delivery,
        other => panic!("expected a correction, got {other:?}"),
    };
    for id in [proposed.message.intent.id, corrected.message.intent.id] {
        let id = uuid::Uuid::from_u128(id);
        assert_eq!(id.get_version_num(), 4);
        assert_eq!(id.get_variant(), uuid::Variant::RFC4122);
    }
    assert_ne!(proposed.message.intent.id, corrected.message.intent.id);
}
