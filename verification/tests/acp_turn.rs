//! Outcomes of turns, and what may be spoken of them.

use openab_core::acp::protocol::TurnResult;
use openab_core::acp_turn::{
    DeliveryOutcome, ExecutionOutcome, LegacyDispatchDisposition, NoEffectsProof,
    ObservedToolCall, ObservedToolCallStatus, TurnCompletion, TurnOutput, TurnTicket,
    UnknownReason,
};
use uuid::Uuid;

fn ticket() -> TurnTicket {
    TurnTicket::new(
        Uuid::parse_str("75d08a62-5142-4e11-8773-a2a3ac310dd3")
            .unwrap()
            .as_u128(),
        42,
    )
}

fn turn_result() -> TurnResult {
    TurnResult {
        stop_reason: Some("end_turn".to_string()),
        input_tokens: Some(7),
        output_tokens: Some(11),
        total_tokens: Some(18),
    }
}

fn successful_completion(speech_text: &str) -> TurnCompletion {
    TurnCompletion {
        ticket: ticket(),
        execution: ExecutionOutcome::Succeeded {
            turn_result: turn_result(),
        },
        output: Some(TurnOutput {
            display_text: "canonical result".to_string(),
            speech_text: speech_text.to_string(),
            voice_brief: Some("Short spoken result.".to_string()),
        }),
        delivery: DeliveryOutcome::Delivered,
        legacy_dispatch: LegacyDispatchDisposition::Succeeded,
    }
}

#[test]
fn turn_ticket_identity_includes_connection_and_request() {
    let first = ticket();
    let other_connection = TurnTicket::new(Uuid::new_v4().as_u128(), first.request_id());
    let other_request = TurnTicket::new(first.connection_id(), first.request_id() + 1);

    assert_eq!(
        first.connection_id(),
        Uuid::parse_str("75d08a62-5142-4e11-8773-a2a3ac310dd3")
            .unwrap()
            .as_u128()
    );
    assert_eq!(first.request_id(), 42);
    assert_ne!(first, other_connection);
    assert_ne!(first, other_request);
}

#[test]
fn legacy_disposition_preserves_old_result_shape() {
    assert!(LegacyDispatchDisposition::Succeeded.into_result().is_ok());

    let error = LegacyDispatchDisposition::Failed {
        error: "historical failure".to_string(),
    }
    .into_result()
    .unwrap_err();
    assert_eq!(error.to_string(), "historical failure");
}

#[test]
fn succeeded_and_delivered_output_is_speech_eligible() {
    let completion = successful_completion("Task completed.");
    assert_eq!(completion.eligible_speech_text(), Some("Task completed."));
}

#[test]
fn speech_requires_successful_execution() {
    let mut completion = successful_completion("Do not speak this.");
    completion.execution = ExecutionOutcome::OutcomeUnknown {
        reason: UnknownReason::AgentExited,
        observed_tool_calls: vec![ObservedToolCall {
            id: "tool-1".to_string(),
            title: "Edit file".to_string(),
            status: ObservedToolCallStatus::Started,
        }],
    };

    assert_eq!(completion.eligible_speech_text(), None);
}

#[test]
fn confirmed_cancellation_retains_turn_metadata() {
    let result = turn_result();
    let outcome = ExecutionOutcome::Cancelled {
        turn_result: result.clone(),
        observed_tool_calls: Vec::new(),
    };

    assert_eq!(
        outcome,
        ExecutionOutcome::Cancelled {
            turn_result: result,
            observed_tool_calls: Vec::new(),
        }
    );
}

#[test]
fn speech_requires_canonical_delivery() {
    let mut completion = successful_completion("Do not speak this.");
    completion.delivery = DeliveryOutcome::Failed {
        error: "platform unavailable".to_string(),
        partially_delivered: true,
    };

    assert_eq!(completion.eligible_speech_text(), None);
    assert!(matches!(
        completion.execution,
        ExecutionOutcome::Succeeded { .. }
    ));
}

#[test]
fn empty_or_missing_speech_is_not_eligible() {
    assert_eq!(successful_completion("  \n").eligible_speech_text(), None);

    let mut completion = successful_completion("unused");
    completion.output = None;
    assert_eq!(completion.eligible_speech_text(), None);
}

#[test]
fn voice_brief_is_explicit_and_never_falls_back_to_full_speech_text() {
    let mut completion = successful_completion("A very long full answer with code.");
    assert_eq!(
        completion.eligible_voice_brief(),
        Some("Short spoken result.")
    );

    completion.output.as_mut().unwrap().voice_brief = None;
    assert_eq!(completion.eligible_voice_brief(), None);
    assert_eq!(
        completion.eligible_speech_text(),
        Some("A very long full answer with code.")
    );
}

#[test]
fn failed_execution_requires_no_effects_proof() {
    let outcome = ExecutionOutcome::Failed {
        error: "sandbox rejected spawn".to_string(),
        no_effects: NoEffectsProof::new(),
    };

    assert!(matches!(outcome, ExecutionOutcome::Failed { .. }));
}

#[test]
fn a_blank_voice_brief_is_not_spoken() {
    let mut completion = successful_completion("answer");
    completion.output.as_mut().unwrap().voice_brief = Some(" \n".to_string());
    assert_eq!(completion.eligible_voice_brief(), None);
}
