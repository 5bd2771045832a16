//! Turns from the prompt to the delivered answer.

use openab_core::acp::connection::{AcpConnection, ContentBlock, TurnPhase};
use openab_core::acp::protocol::{ConfigOption, JsonRpcError, JsonRpcMessage, TurnResult};
use openab_core::acp_turn::{
    DeliveryOutcome, ExecutionOutcome, LegacyDispatchDisposition, ObservedToolCall,
    ObservedToolCallStatus, TurnCompletion, TurnOutput, TurnStartError, TurnTicket, UnknownReason,
};
use openab_core::acp_turn_driver::delivery::{
    chunk_limit, finish_chunks, Delivery, DeliveryCommand, EditLoop, EditNeed, DELIVERY_FAILURE,
    MAX_CONSECUTIVE_FAILURES,
};
use openab_core::acp_turn_driver::directives::SESSION_RESET_NOTICE;
use openab_core::acp_turn_driver::display::{sanitize_title, ToolDisplay};
use openab_core::acp_turn_driver::mentions::{
    extract_mentions, mention_footer_len, propagate_mentions_to_chunks,
};
use openab_core::acp_turn_driver::turn::{
    end_failed_start, is_cancelled, response_content, start_failure, start_turn, AcpEvent,
    AcpTurnDriver, Progress, ResponseContent, Span, StreamNeed, TurnDeliveryContext, TurnEnd,
    TurnResponse, DELIVERY_SETUP_FAILURE,
};
use openab_core::acp_turn_driver::{
    classify_execution, observe_tool_call, split_delivery, TerminalObservation,
};
use openab_core::json::Json;

/// What a turn receives.
enum Incoming {
    Event(AcpEvent),
    Response(u64, TurnResponse),
    Tick { alive: bool, elapsed_ms: u64 },
}

/// A platform that records what it is told to do.
struct Recorder {
    platform: &'static str,
    fail_sends: bool,
    fail_edits: bool,
    sent: Vec<String>,
    send_attempts: usize,
    log: Vec<String>,
}

impl Recorder {
    fn new(fail_sends: bool) -> Self {
        Recorder {
            platform: "test",
            fail_sends,
            fail_edits: false,
            sent: Vec::new(),
            send_attempts: 0,
            log: Vec::new(),
        }
    }

    fn send(&mut self, text: &str) -> bool {
        self.send_attempts += 1;
        if !self.fail_sends {
            self.sent.push(text.to_string());
        }
        !self.fail_sends
    }

    fn carry_out(&mut self, command: &DeliveryCommand) -> bool {
        match command {
            DeliveryCommand::Append { text } => {
                self.log.push(format!("append {text}"));
                true
            }
            DeliveryCommand::Finish { text } => {
                self.log.push(format!("finish {text}"));
                true
            }
            DeliveryCommand::Send { text, .. } => {
                self.log.push(format!("send {text}"));
                self.send(text)
            }
            DeliveryCommand::Reply { text, to, .. } => {
                self.log.push(format!("reply {to} {text}"));
                self.send(text)
            }
            DeliveryCommand::Edit { text } => {
                self.log.push(format!("edit {text}"));
                !self.fail_edits
            }
            DeliveryCommand::Delete => {
                self.log.push("delete".to_string());
                true
            }
        }
    }
}

/// What a connection was told during a turn.
struct Connection {
    state: AcpConnection,
    ticket: TurnTicket,
    abandoned: Vec<TurnTicket>,
    completed: Vec<TurnTicket>,
    config_updates: Vec<Vec<ConfigOption>>,
    cancel_write_indeterminate: bool,
}

impl Connection {
    fn new() -> Self {
        let mut state = AcpConnection::new(7, 0);
        state.next_id = 42;
        state.acp_session_id = Some("session".to_string());
        Connection {
            state,
            ticket: TurnTicket::new(7, 42),
            abandoned: Vec::new(),
            completed: Vec::new(),
            config_updates: Vec::new(),
            cancel_write_indeterminate: false,
        }
    }

    fn assert_cleaned_once(&self) {
        // One prompt was started, and the mark of a new session is gone.
        assert_eq!(self.state.next_id, 43);
        assert!(!self.state.session_reset);
        assert_eq!(self.completed, vec![self.ticket]);
        assert_eq!(self.state.turn.phase, TurnPhase::Finished { request_id: 42 });
        assert!(self.state.pending.is_empty());
    }
}

fn context() -> TurnDeliveryContext {
    TurnDeliveryContext {
        reset: false,
        streaming: false,
        native: false,
        assistant_status: false,
        narration_display: false,
        tool_display: ToolDisplay::Off,
        prompt_hard_timeout: Span {
            secs: 1800,
            nanos: 0,
        },
        liveness_check_interval: Span { secs: 30, nanos: 0 },
    }
}

fn prompt() -> Vec<ContentBlock> {
    vec![ContentBlock::Text { text: "do the work".to_string() }]
}

fn run(
    conn: &mut Connection,
    recorder: &mut Recorder,
    context: TurnDeliveryContext,
    incoming: Vec<Incoming>,
) -> TurnCompletion {
    conn.state.session_reset = context.reset;
    let (reset, started) = start_turn(&mut conn.state, &prompt(), 1);
    let (ticket, _) = started.unwrap();
    assert_eq!(ticket, conn.ticket);
    let mut turn = AcpTurnDriver::new(ticket, TurnDeliveryContext { reset, ..context });
    if let Some(first) = turn.placeholder_text() {
        if recorder.send(&first) {
            turn.placeholder_ready("placeholder-1".to_string());
        } else {
            turn.placeholder_failed("send failed".to_string());
        }
    }
    for message in incoming {
        match message {
            Incoming::Event(event) => {
                let text = match &event {
                    AcpEvent::Text(text) => text.clone(),
                    _ => String::new(),
                };
                let step = turn.on_event(event);
                if let Some(options) = step.options {
                    conn.config_updates.push(options);
                }
                match step.stream {
                    StreamNeed::Nothing => {}
                    StreamNeed::Opening => {
                        turn.stream_opened(true);
                        turn.stream_text(&text, 0);
                    }
                    StreamNeed::Writing => {
                        turn.stream_text(&text, 0);
                    }
                }
            }
            Incoming::Response(id, response) => turn.on_response(id, response),
            Incoming::Tick { alive, elapsed_ms } => turn.on_tick(
                conn.cancel_write_indeterminate,
                alive,
                Span {
                    secs: elapsed_ms / 1000,
                    nanos: (elapsed_ms % 1000) as u32 * 1_000_000,
                },
            ),
        }
    }
    turn.on_disconnect(conn.cancel_write_indeterminate);
    if turn.must_abandon() {
        conn.abandoned.push(conn.ticket);
    }
    conn.state.prompt_done_typed(&ticket, 2);
    conn.completed.push(ticket);
    match turn.finish() {
        TurnEnd::SetupFailed(completion) => completion,
        TurnEnd::Deliver(finished) => {
            let content = finished.content.clone();
            let chunks = if content.is_empty() {
                Vec::new()
            } else {
                vec![content.clone()]
            };
            let mut delivery = Delivery::plan(finished, content, chunks, recorder.platform);
            while let Some(command) = delivery.next_command() {
                let ok = recorder.carry_out(command);
                delivery.report(ok);
            }
            delivery.complete()
        }
    }
}

fn text(text: &str) -> Incoming {
    Incoming::Event(AcpEvent::Text(text.to_string()))
}

fn tool_start(id: &str, title: &str) -> Incoming {
    Incoming::Event(AcpEvent::ToolStart {
        id: id.to_string(),
        title: title.to_string(),
    })
}

fn tool_done(id: &str, title: &str, status: &str) -> Incoming {
    Incoming::Event(AcpEvent::ToolDone {
        id: id.to_string(),
        title: title.to_string(),
        status: status.to_string(),
    })
}

fn final_result(id: u64, stop_reason: &str) -> Incoming {
    Incoming::Response(
        id,
        TurnResponse::Result(TurnResult {
            stop_reason: Some(stop_reason.to_string()),
            ..TurnResult::default()
        }),
    )
}

fn final_error(id: u64) -> Incoming {
    Incoming::Response(
        id,
        TurnResponse::Error {
            shown: "Internal error (-32603): agent failed".to_string(),
            audited: "Internal error (-32603)".to_string(),
        },
    )
}

#[test]
fn success_delivers_authoritative_display_and_speech_and_cleans_up_once() {
    let mut conn = Connection::new();
    let mut recorder = Recorder::new(false);
    let completion = run(
        &mut conn,
        &mut recorder,
        context(),
        vec![
            Incoming::Event(AcpEvent::ConfigUpdate {
                options: vec![ConfigOption {
                    id: "model".to_string(),
                    current_value: "large".to_string(),
                }],
            }),
            text("working notes"),
            tool_start("tool-1", "Edit file"),
            tool_done("tool-1", "Edit file", "completed"),
            text("authoritative answer"),
            final_result(42, "end_turn"),
        ],
    );

    assert!(matches!(
        completion.execution,
        ExecutionOutcome::Succeeded { .. }
    ));
    assert_eq!(
        completion.output,
        Some(TurnOutput {
            display_text: "authoritative answer".to_string(),
            speech_text: "authoritative answer".to_string(),
            voice_brief: None,
        })
    );
    assert_eq!(
        completion.eligible_speech_text(),
        Some("authoritative answer")
    );
    assert_eq!(completion.delivery, DeliveryOutcome::Delivered);
    assert_eq!(
        completion.legacy_dispatch,
        LegacyDispatchDisposition::Succeeded
    );
    assert_eq!(recorder.sent, vec!["authoritative answer"]);
    assert!(conn.abandoned.is_empty());
    assert_eq!(conn.config_updates.len(), 1);
    assert_eq!(conn.config_updates[0][0].id, "model");
    conn.assert_cleaned_once();
}

#[test]
fn narration_display_does_not_leak_intertool_text_into_speech() {
    let mut conn = Connection::new();
    let mut recorder = Recorder::new(false);
    let completion = run(
        &mut conn,
        &mut recorder,
        TurnDeliveryContext {
            narration_display: true,
            ..context()
        },
        vec![
            text("working notes\n"),
            tool_start("tool-1", "Inspect file"),
            tool_done("tool-1", "Inspect file", "completed"),
            text("authoritative answer"),
            final_result(42, "end_turn"),
        ],
    );
    let output = completion.output.unwrap();

    assert!(output.display_text.contains("working notes"));
    assert!(output.display_text.contains("authoritative answer"));
    assert_eq!(output.speech_text, "authoritative answer");
    conn.assert_cleaned_once();
}

#[test]
fn indeterminate_prompt_write_is_typed_unknown_and_cleans_up_once() {
    let mut conn = AcpConnection::new(7, 0);
    conn.next_id = 42;
    conn.acp_session_id = Some("session".to_string());
    conn.session_reset = true;
    let (reset, started) = start_turn(&mut conn, &prompt(), 1);
    let (ticket, _) = started.unwrap();
    let failure = conn.prompt_write_failed(&ticket, "stdin write timeout".to_string());
    let completion = end_failed_start(&mut conn, failure, 2).unwrap();

    assert!(matches!(
        completion.execution,
        ExecutionOutcome::OutcomeUnknown {
            reason: UnknownReason::PromptWriteIndeterminate { .. },
            ..
        }
    ));
    assert_eq!(completion.ticket, ticket);
    assert_eq!(completion.delivery, DeliveryOutcome::NotAttempted);
    assert_eq!(
        completion.legacy_dispatch,
        LegacyDispatchDisposition::Failed {
            error: "stdin write timeout".to_string()
        }
    );
    // One prompt was started, and the mark of a new session was taken.
    assert!(reset);
    assert!(!conn.take_session_reset());
    assert_eq!(conn.next_id, 43);
    // The turn is finished without a cancellation, and nothing of it is left.
    assert_eq!(ticket, TurnTicket::new(7, 42));
    assert_eq!(conn.turn.phase, TurnPhase::Finished { request_id: 42 });
    assert!(conn.pending.is_empty());
    assert!(!conn.subscribed);
    assert!(!conn.activity.in_flight());
}

#[test]
fn proven_prewrite_failure_remains_an_outer_error() {
    let mut conn = AcpConnection::new(7, 0);
    conn.session_reset = true;
    let (reset, started) = start_turn(&mut conn, &prompt(), 1);
    // The one start failed, and it took the mark of a new session nevertheless.
    let failure = started.unwrap_err();
    assert_eq!(
        failure,
        TurnStartError::NotStarted { error: "no session".to_string() }
    );
    assert!(reset);
    assert!(!conn.take_session_reset());

    let result = end_failed_start(&mut conn, failure, 2);
    assert_eq!(result.unwrap_err(), "no session");
    // Nothing was started, so nothing is completed or abandoned.
    assert_eq!(conn.turn.phase, TurnPhase::Idle);
    assert!(conn.pending.is_empty());
    assert!(!conn.subscribed);
    assert_eq!(conn.activity.last_active_ms(), 0);
}

#[test]
fn a_start_failure_names_its_cause() {
    assert_eq!(
        start_failure(TurnStartError::NotStarted { error: "no session".to_string() }),
        Err("no session".to_string())
    );
}

#[test]
fn a_response_is_an_error_before_it_is_a_result() {
    let error = || JsonRpcError {
        code: -32000,
        message: "quota".to_string(),
        data: Some(Json::string("secret")),
    };
    let both = JsonRpcMessage {
        id: Some(42),
        method: None,
        result: Some(Json::Bool(true)),
        error: Some(error()),
        params: None,
    };
    assert_eq!(
        response_content(&both),
        ResponseContent::Error {
            shown: &error(),
            audited: JsonRpcError { code: -32000, message: String::new(), data: None },
        }
    );
    let result = JsonRpcMessage { error: None, ..both };
    assert_eq!(response_content(&result), ResponseContent::Result(&Json::Bool(true)));
    let neither = JsonRpcMessage { result: None, ..result };
    assert_eq!(response_content(&neither), ResponseContent::Nothing);
}

#[test]
fn partial_text_then_acp_error_is_unknown_but_legacy_delivery_succeeds() {
    let mut conn = Connection::new();
    let mut recorder = Recorder::new(false);
    let completion = run(
        &mut conn,
        &mut recorder,
        context(),
        vec![text("partial answer"), final_error(42)],
    );

    assert!(matches!(
        completion.execution,
        ExecutionOutcome::OutcomeUnknown {
            reason: UnknownReason::AcpError { .. },
            ..
        }
    ));
    assert_eq!(completion.delivery, DeliveryOutcome::Delivered);
    assert_eq!(
        completion.legacy_dispatch,
        LegacyDispatchDisposition::Succeeded
    );
    assert!(completion
        .output
        .as_ref()
        .unwrap()
        .display_text
        .contains("partial answer"));
    assert_eq!(recorder.sent.len(), 1);
    assert!(conn.abandoned.is_empty());
    conn.assert_cleaned_once();
}

#[test]
fn partial_text_then_eof_is_unknown_and_abandons_and_cleans_up_once() {
    let mut conn = Connection::new();
    let mut recorder = Recorder::new(false);
    let completion = run(
        &mut conn,
        &mut recorder,
        context(),
        vec![text("partial answer")],
    );

    assert!(matches!(
        completion.execution,
        ExecutionOutcome::OutcomeUnknown {
            reason: UnknownReason::AgentExited,
            ..
        }
    ));
    assert_eq!(conn.abandoned, vec![conn.ticket]);
    conn.assert_cleaned_once();
    assert_eq!(
        recorder.sent,
        vec!["⚠️ Agent process exited unexpectedly\n\npartial answer"]
    );
}

#[test]
fn indeterminate_cancel_write_is_distinct_and_cleans_up_once() {
    let mut conn = Connection::new();
    conn.cancel_write_indeterminate = true;
    let mut recorder = Recorder::new(false);
    let completion = run(
        &mut conn,
        &mut recorder,
        context(),
        vec![text("partial answer")],
    );

    assert!(matches!(
        completion.execution,
        ExecutionOutcome::OutcomeUnknown {
            reason: UnknownReason::CancelWriteIndeterminate,
            ..
        }
    ));
    assert_eq!(conn.abandoned, vec![conn.ticket]);
    conn.assert_cleaned_once();
}

#[test]
fn hard_timeout_abandons_the_exact_ticket_once() {
    let mut conn = Connection::new();
    let mut recorder = Recorder::new(false);
    let completion = run(
        &mut conn,
        &mut recorder,
        TurnDeliveryContext {
            prompt_hard_timeout: Span { secs: 1, nanos: 0 },
            ..context()
        },
        vec![
            Incoming::Tick {
                alive: true,
                elapsed_ms: 250,
            },
            Incoming::Tick {
                alive: true,
                elapsed_ms: 1000,
            },
            Incoming::Tick {
                alive: true,
                elapsed_ms: 1250,
            },
        ],
    );

    assert!(matches!(
        completion.execution,
        ExecutionOutcome::OutcomeUnknown {
            reason: UnknownReason::HardTimeout { seconds: 1 },
            ..
        }
    ));
    assert_eq!(conn.abandoned, vec![conn.ticket]);
    conn.assert_cleaned_once();
    assert_eq!(recorder.sent, vec!["⚠️ Agent exceeded hard timeout (1s)"]);
}

#[test]
fn a_dead_agent_ends_the_turn() {
    let mut conn = Connection::new();
    let mut recorder = Recorder::new(false);
    let completion = run(
        &mut conn,
        &mut recorder,
        context(),
        vec![Incoming::Tick {
            alive: false,
            elapsed_ms: 10,
        }],
    );
    assert!(matches!(
        completion.execution,
        ExecutionOutcome::OutcomeUnknown {
            reason: UnknownReason::AgentDied,
            ..
        }
    ));
    assert_eq!(recorder.sent, vec!["⚠️ Agent process died"]);
}

#[test]
fn matching_cancelled_stop_reason_is_confirmed_cancellation() {
    let mut conn = Connection::new();
    let mut recorder = Recorder::new(false);
    let completion = run(
        &mut conn,
        &mut recorder,
        context(),
        vec![text("stopping"), final_result(42, "cancelled")],
    );

    match completion.execution {
        ExecutionOutcome::Cancelled { turn_result, .. } => {
            assert_eq!(turn_result.stop_reason.as_deref(), Some("cancelled"))
        }
        other => panic!("unexpected: {other:?}"),
    }
    assert!(conn.abandoned.is_empty());
    conn.assert_cleaned_once();
}

#[test]
fn both_spellings_of_cancellation_count() {
    for (reason, expected) in [
        ("cancelled", true),
        ("Canceled", true),
        ("CANCELLED", true),
        ("cancel", false),
        ("end_turn", false),
    ] {
        let result = TurnResult {
            stop_reason: Some(reason.to_string()),
            ..TurnResult::default()
        };
        assert_eq!(is_cancelled(&result), expected, "{reason}");
    }
    assert!(!is_cancelled(&TurnResult::default()));
}

#[test]
fn final_delivery_failure_preserves_execution_success_and_legacy_failure() {
    let mut conn = Connection::new();
    let mut recorder = Recorder::new(true);
    let completion = run(
        &mut conn,
        &mut recorder,
        context(),
        vec![text("completed work"), final_result(42, "end_turn")],
    );

    assert!(matches!(
        completion.execution,
        ExecutionOutcome::Succeeded { .. }
    ));
    assert_eq!(
        completion.delivery,
        DeliveryOutcome::Failed {
            error: DELIVERY_FAILURE.to_string(),
            partially_delivered: false,
        }
    );
    assert_eq!(
        completion.legacy_dispatch,
        LegacyDispatchDisposition::Failed {
            error: DELIVERY_FAILURE.to_string(),
        }
    );
    assert_eq!(recorder.send_attempts, 1);
    assert!(conn.abandoned.is_empty());
    conn.assert_cleaned_once();
}

#[test]
fn streaming_placeholder_failure_is_unknown_and_abandons_and_cleans_up_once() {
    let mut conn = Connection::new();
    let mut recorder = Recorder::new(true);
    let completion = run(
        &mut conn,
        &mut recorder,
        TurnDeliveryContext {
            streaming: true,
            ..context()
        },
        Vec::new(),
    );

    assert_eq!(
        completion.execution,
        ExecutionOutcome::OutcomeUnknown {
            reason: UnknownReason::DeliverySetupFailure {
                error: DELIVERY_SETUP_FAILURE.to_string(),
            },
            observed_tool_calls: Vec::new(),
        }
    );
    assert_eq!(completion.output, None);
    assert_eq!(
        completion.delivery,
        DeliveryOutcome::Failed {
            error: DELIVERY_SETUP_FAILURE.to_string(),
            partially_delivered: false,
        }
    );
    assert_eq!(
        completion.legacy_dispatch,
        LegacyDispatchDisposition::Failed {
            error: "send failed".to_string(),
        }
    );
    assert_eq!(recorder.send_attempts, 1);
    assert_eq!(conn.abandoned, vec![conn.ticket]);
    conn.assert_cleaned_once();
}

#[test]
fn stale_id_is_ignored_before_the_matching_final_response() {
    let mut conn = Connection::new();
    let mut recorder = Recorder::new(false);
    let completion = run(
        &mut conn,
        &mut recorder,
        context(),
        vec![
            final_error(999),
            text("matching answer"),
            final_result(42, "end_turn"),
        ],
    );

    assert!(matches!(
        completion.execution,
        ExecutionOutcome::Succeeded { .. }
    ));
    assert_eq!(
        completion.output.as_ref().unwrap().display_text,
        "matching answer"
    );
    assert_eq!(recorder.sent, vec!["matching answer"]);
    assert!(conn.abandoned.is_empty());
    conn.assert_cleaned_once();
}

#[test]
fn what_follows_the_response_does_not_count() {
    let mut conn = Connection::new();
    let mut recorder = Recorder::new(false);
    let completion = run(
        &mut conn,
        &mut recorder,
        context(),
        vec![
            text("answer"),
            final_result(42, "end_turn"),
            text(" and more"),
            final_error(42),
        ],
    );
    assert!(matches!(
        completion.execution,
        ExecutionOutcome::Succeeded { .. }
    ));
    assert_eq!(recorder.sent, vec!["answer"]);
}

#[test]
fn a_response_without_result_is_unknown() {
    let mut conn = Connection::new();
    let mut recorder = Recorder::new(false);
    let completion = run(
        &mut conn,
        &mut recorder,
        context(),
        vec![text("answer"), Incoming::Response(42, TurnResponse::Nothing)],
    );
    assert!(matches!(
        completion.execution,
        ExecutionOutcome::OutcomeUnknown {
            reason: UnknownReason::MissingResult,
            ..
        }
    ));
}

#[test]
fn successful_result_without_final_answer_is_unknown() {
    let outcome = classify_execution(
        TerminalObservation::Succeeded(TurnResult {
            stop_reason: Some("end_turn".to_string()),
            ..TurnResult::default()
        }),
        false,
        Vec::new(),
    );
    assert!(matches!(
        outcome,
        ExecutionOutcome::OutcomeUnknown {
            reason: UnknownReason::MissingOutput,
            ..
        }
    ));
}

#[test]
fn confirmed_cancel_preserves_tool_evidence() {
    let observed = vec![ObservedToolCall {
        id: "tool-1".to_string(),
        title: "Edit file".to_string(),
        status: ObservedToolCallStatus::Started,
    }];
    let turn_result = TurnResult {
        stop_reason: Some("cancelled".to_string()),
        ..TurnResult::default()
    };
    let outcome = classify_execution(
        TerminalObservation::Cancelled(turn_result.clone()),
        false,
        observed.clone(),
    );
    assert_eq!(
        outcome,
        ExecutionOutcome::Cancelled {
            turn_result,
            observed_tool_calls: observed
        }
    );
}

#[test]
fn output_directive_is_not_speakable_text() {
    let (_, body) = split_delivery("[[reply_to:42]]\nfinal answer", 0, false);
    assert_eq!(body, "final answer");
}

#[test]
fn tool_evidence_survives_empty_initial_title_and_tracks_terminal_update() {
    let mut observed = Vec::new();
    observe_tool_call(&mut observed, "tool-1", "", ObservedToolCallStatus::Started);
    observe_tool_call(
        &mut observed,
        "tool-1",
        "Edit\nfile",
        ObservedToolCallStatus::Completed,
    );

    assert_eq!(
        observed,
        vec![ObservedToolCall {
            id: "tool-1".to_string(),
            title: "Edit ; file".to_string(),
            status: ObservedToolCallStatus::Completed,
        }]
    );
}

#[test]
fn titles_are_shown_on_one_line_without_backticks() {
    assert_eq!(sanitize_title("run `ls`\nthen"), "run 'ls' ; then");
}

fn streaming() -> TurnDeliveryContext {
    TurnDeliveryContext {
        streaming: true,
        ..context()
    }
}

#[test]
fn a_streamed_answer_takes_the_place_of_the_placeholder() {
    let mut conn = Connection::new();
    let mut recorder = Recorder::new(false);
    run(
        &mut conn,
        &mut recorder,
        streaming(),
        vec![text("the answer"), final_result(42, "end_turn")],
    );
    assert_eq!(recorder.sent, vec!["…"]);
    assert_eq!(recorder.log, vec!["edit the answer"]);
}

#[test]
fn a_failed_edit_is_made_up_for_by_a_new_message() {
    let mut conn = Connection::new();
    let mut recorder = Recorder::new(false);
    recorder.fail_edits = true;
    let completion = run(
        &mut conn,
        &mut recorder,
        streaming(),
        vec![text("the answer"), final_result(42, "end_turn")],
    );
    assert_eq!(
        recorder.log,
        vec!["edit the answer", "delete", "send the answer"]
    );
    assert_eq!(completion.delivery, DeliveryOutcome::Delivered);
}

#[test]
fn a_streamed_reply_replaces_the_placeholder() {
    let mut conn = Connection::new();
    let mut recorder = Recorder::new(false);
    run(
        &mut conn,
        &mut recorder,
        streaming(),
        vec![
            text("[[reply_to:77]]\nthe answer"),
            final_result(42, "end_turn"),
        ],
    );
    assert_eq!(recorder.log, vec!["reply 77 the answer", "delete"]);
}

#[test]
fn a_streamed_mention_is_sent_as_a_new_message() {
    let mut conn = Connection::new();
    let mut recorder = Recorder::new(false);
    recorder.platform = "discord";
    run(
        &mut conn,
        &mut recorder,
        streaming(),
        vec![text("ask <@123>"), final_result(42, "end_turn")],
    );
    assert_eq!(recorder.log, vec!["send ask <@123>", "delete"]);
}

#[test]
fn a_native_stream_is_appended_to_and_finished() {
    let mut conn = Connection::new();
    let mut recorder = Recorder::new(false);
    run(
        &mut conn,
        &mut recorder,
        TurnDeliveryContext {
            streaming: true,
            native: true,
            ..context()
        },
        vec![text("the "), text("answer"), final_result(42, "end_turn")],
    );
    assert_eq!(
        recorder.log,
        vec!["append the answer", "finish the answer"]
    );
    assert!(recorder.sent.is_empty());
}

#[test]
fn a_reset_session_is_announced_but_not_spoken() {
    let mut conn = Connection::new();
    let mut recorder = Recorder::new(false);
    let completion = run(
        &mut conn,
        &mut recorder,
        TurnDeliveryContext {
            reset: true,
            ..context()
        },
        vec![
            text("notes"),
            tool_done("t", "Look", "failed"),
            text("answer"),
            final_result(42, "end_turn"),
        ],
    );
    let output = completion.output.unwrap();
    assert_eq!(output.display_text, format!("{SESSION_RESET_NOTICE}answer"));
    assert_eq!(output.speech_text, "answer");
}

#[test]
fn progress_is_shown_as_status() {
    let mut turn = AcpTurnDriver::new(
        TurnTicket::new(1, 1),
        TurnDeliveryContext {
            tool_display: ToolDisplay::Full,
            ..streaming()
        },
    );
    assert_eq!(turn.placeholder_text().as_deref(), Some("…"));
    turn.placeholder_ready("m1".to_string());
    let step = turn.on_event(AcpEvent::Thinking);
    assert_eq!(step.progress.status_text().as_deref(), Some("Thinking…"));
    let step = turn.on_event(AcpEvent::ToolStart {
        id: "a".to_string(),
        title: "Search".to_string(),
    });
    assert_eq!(step.progress.status_text().as_deref(), Some("Using Search…"));
    assert_eq!(step.display.as_deref(), Some("🔧 `Search`...\n\n"));
    let step = turn.on_event(AcpEvent::ToolStart {
        id: "b".to_string(),
        title: String::new(),
    });
    assert_eq!(step.progress, Progress::Unchanged);
    assert_eq!(step.display, None);
    assert_eq!(turn.on_event(AcpEvent::Unheeded).progress, Progress::Unchanged);
    assert_eq!(Progress::Unchanged.status_text(), None);
    assert!(!turn.is_over());
}

#[test]
fn native_text_waits_until_the_last_writing_is_long_ago() {
    let mut turn = AcpTurnDriver::new(TurnTicket::new(1, 1), context());
    assert_eq!(turn.stream_text("lost", 1000), None);
    turn.stream_opened(true);
    assert_eq!(turn.stream_text("a", 399), None);
    assert_eq!(turn.stream_text("b", 400).as_deref(), Some("ab"));
    assert_eq!(turn.stream_text("", 900), None);
}

#[test]
fn a_stream_that_cannot_be_opened_is_not_tried_again() {
    let mut turn = AcpTurnDriver::new(
        TurnTicket::new(1, 1),
        TurnDeliveryContext {
            native: true,
            ..context()
        },
    );
    let step = turn.on_event(AcpEvent::Text("a".to_string()));
    assert_eq!(step.stream, StreamNeed::Opening);
    turn.stream_opened(false);
    let step = turn.on_event(AcpEvent::Text("b".to_string()));
    assert_eq!(step.stream, StreamNeed::Nothing);
}

#[test]
fn mentions_are_found_once_and_not_in_code() {
    let content = "<@!1> and <@1> and <@&2>\n```\n<@3>\n```\n<@4>";
    assert_eq!(extract_mentions(content), vec!["<@1>", "<@&2>", "<@4>"]);
    assert!(extract_mentions("no <@x> here <#5>").is_empty());
}

#[test]
fn mentions_are_repeated_in_every_part() {
    let mentions = vec!["<@1>".to_string(), "<@&2>".to_string()];
    assert_eq!(mention_footer_len(&mentions), 11);
    assert_eq!(mention_footer_len(&Vec::new()), 0);
    let parts = propagate_mentions_to_chunks(
        vec!["first <@1>".to_string(), "second".to_string()],
        &mentions,
        40,
    );
    assert_eq!(parts, vec!["first <@1>\n<@&2>", "second\n<@1> <@&2>"]);
    let tight = propagate_mentions_to_chunks(
        vec!["first".to_string(), "second".to_string()],
        &mentions,
        16,
    );
    assert_eq!(tight, vec!["first\n<@1> <@&2>", "second"]);
    let single = propagate_mentions_to_chunks(vec!["only".to_string()], &mentions, 40);
    assert_eq!(single, vec!["only"]);
}

#[test]
fn room_is_left_for_mentions_on_discord_only() {
    assert_eq!(chunk_limit("hi <@1>", "discord", 2000), 1995);
    assert_eq!(chunk_limit("hi <@1>", "slack", 2000), 2000);
    assert_eq!(chunk_limit("hi <@1>", "discord", 3), 0);
    let parts = vec!["a".to_string(), "b <@1>".to_string()];
    assert_eq!(
        finish_chunks("a b <@1>", "discord", parts.clone(), 2000),
        vec!["a\n<@1>", "b <@1>"]
    );
    assert_eq!(finish_chunks("a b <@1>", "slack", parts.clone(), 2000), parts);
}

#[test]
fn cosmetic_edits_stop_after_repeated_failures() {
    let mut edits = EditLoop::new();
    assert_eq!(edits.need("short", 2000), EditNeed::Whole);
    assert_eq!(edits.need(&"x".repeat(1901), 2000), EditNeed::Tail(1900));
    assert!(edits.edited("short".to_string(), true));
    assert_eq!(edits.need("short", 2000), EditNeed::Nothing);
    assert!(edits.edited("a".to_string(), false));
    assert!(edits.edited("b".to_string(), false));
    assert!(!edits.edited("c".to_string(), false));
    assert_eq!(edits.consecutive_failures, MAX_CONSECUTIVE_FAILURES);
}
