//! Interpretation of what was said.

use openab_core::discord_voice_interpreter::{
    config_for_runtime, decision_schema, ensure_bounded_nonempty, extract_output_text,
    response_output, turn_input, DecisionField, InterpreterError, OpenAiVoiceTurnInterpreter,
    RawVoiceTurnAction, RawVoiceTurnDecision, VoiceIntentInterpreterConfig, VoiceTurnDecision,
    VoiceTurnInput, VoiceTurnPhase, MAX_RESPONSE_BYTES, MAX_TASK_CHARS,
};
use openab_core::json::{Json, Member};
use serde_json::Value;

#[test]
fn validates_each_bounded_decision_shape() {
    let reply = RawVoiceTurnDecision {
        action: RawVoiceTurnAction::Reply,
        destination: String::new(),
        task: String::new(),
        speech: "好的。".into(),
    }
    .validate()
    .unwrap();
    assert_eq!(
        reply,
        VoiceTurnDecision::Reply {
            speech: "好的。".into()
        }
    );

    let proposal = RawVoiceTurnDecision {
        action: RawVoiceTurnAction::Propose,
        destination: "local".into(),
        task: "查看 issue 1368".into(),
        speech: String::new(),
    }
    .validate()
    .unwrap();
    assert_eq!(
        proposal,
        VoiceTurnDecision::Propose {
            destination: "local".into(),
            task: "查看 issue 1368".into()
        }
    );
}

#[test]
fn rejects_missing_or_oversized_action_content() {
    let missing = RawVoiceTurnDecision {
        action: RawVoiceTurnAction::Reply,
        destination: String::new(),
        task: String::new(),
        speech: String::new(),
    };
    assert!(missing.validate().is_err());

    let oversized = RawVoiceTurnDecision {
        action: RawVoiceTurnAction::Propose,
        destination: "local".into(),
        task: "x".repeat(MAX_TASK_CHARS + 1),
        speech: String::new(),
    };
    assert!(oversized.validate().is_err());
}

fn object(members: Vec<(&str, Json)>) -> Json {
    let mut list = Vec::new();
    for (name, value) in members {
        list.push(Member {
            name: name.to_string(),
            value,
        });
    }
    Json::Object(list)
}

fn text(value: &str) -> Json {
    Json::Text(value.to_string())
}

#[test]
fn extracts_structured_output_text() {
    let response = object(vec![(
        "output",
        Json::List(vec![object(vec![
            ("type", text("message")),
            (
                "content",
                Json::List(vec![object(vec![
                    ("type", text("output_text")),
                    (
                        "text",
                        text("{\"action\":\"ignore\",\"destination\":\"\",\"task\":\"\",\"speech\":\"\"}"),
                    ),
                ])]),
            ),
        ])]),
    )]);
    assert!(extract_output_text(&response)
        .expect("output text")
        .contains("ignore"));
}

fn config() -> VoiceIntentInterpreterConfig {
    VoiceIntentInterpreterConfig {
        enabled: true,
        api_key: "test".into(),
        model: "small-model".into(),
        base_url: "https://example.com/v1/".into(),
        request_timeout_seconds: 10,
    }
}

/// The value of a turn as it is written. It holds no numbers.
fn written(value: &Json) -> Value {
    match value {
        Json::Text(s) => Value::String(s.clone()),
        Json::List(items) => Value::Array(items.iter().map(written).collect()),
        Json::Object(members) => Value::Object(
            members.iter().map(|m| (m.name.clone(), written(&m.value))).collect(),
        ),
        other => panic!("unexpected {other:?}"),
    }
}

#[test]
fn request_uses_strict_schema_without_tools() {
    let interpreter = OpenAiVoiceTurnInterpreter::new(&config()).unwrap();
    let input = turn_input(&VoiceTurnInput {
        transcript: "嗯".into(),
        phase: VoiceTurnPhase::Idle,
        available_destinations: vec!["local".into()],
    });
    let input = written(&input).to_string();
    let body = interpreter.request_body(&input);
    assert_eq!(body.get_str("input"), Some(input.as_str()));
    let format = body.get("text").unwrap().get("format").unwrap();
    assert_eq!(format.get("strict"), Some(&Json::Bool(true)));
    assert!(body.get("tools").is_none());
    assert_eq!(body.get("store"), Some(&Json::Bool(false)));
    assert_eq!(format.get("schema"), Some(&decision_schema()));
    assert_eq!(body.get_str("model"), Some("small-model"));
    assert_eq!(interpreter.url(), "https://example.com/v1/responses");
}

#[test]
fn settings_are_checked_one_by_one() {
    assert_eq!(config_for_runtime(&config()), Ok(()));
    let disabled = VoiceIntentInterpreterConfig {
        enabled: false,
        ..config()
    };
    assert_eq!(config_for_runtime(&disabled), Err(InterpreterError::Disabled));
    let no_key = VoiceIntentInterpreterConfig {
        api_key: " ".into(),
        ..config()
    };
    assert_eq!(config_for_runtime(&no_key), Err(InterpreterError::EmptyApiKey));
    let no_model = VoiceIntentInterpreterConfig {
        model: "".into(),
        ..config()
    };
    assert_eq!(config_for_runtime(&no_model), Err(InterpreterError::EmptyModel));
    let no_url = VoiceIntentInterpreterConfig {
        base_url: " ".into(),
        ..config()
    };
    assert_eq!(config_for_runtime(&no_url), Err(InterpreterError::EmptyBaseUrl));
    let no_time = VoiceIntentInterpreterConfig {
        request_timeout_seconds: 0,
        ..config()
    };
    assert_eq!(config_for_runtime(&no_time), Err(InterpreterError::ZeroTimeout));
    assert!(OpenAiVoiceTurnInterpreter::new(&no_time).is_err());
}

#[test]
fn the_phase_of_a_turn_is_an_object() {
    let mut input = VoiceTurnInput {
        transcript: "嗯".into(),
        phase: VoiceTurnPhase::Idle,
        available_destinations: vec!["local".into(), "B0".into()],
    };
    assert_eq!(
        turn_input(&input),
        object(vec![
            ("transcript", text("嗯")),
            ("phase", object(vec![("phase", text("idle"))])),
            ("available_destinations", Json::List(vec![text("local"), text("B0")])),
        ])
    );
    input.phase = VoiceTurnPhase::WaitingConfirmation {
        destination: "local".into(),
        task: "run CI".into(),
    };
    assert_eq!(
        turn_input(&input).get("phase"),
        Some(&object(vec![
            ("phase", text("waiting_confirmation")),
            ("destination", text("local")),
            ("task", text("run CI")),
        ]))
    );
}

#[test]
fn the_output_text_is_read_from_the_body() {
    let body = response_body("{\\\"action\\\":\\\"ignore\\\"}");
    assert_eq!(
        response_output(true, body.as_bytes()),
        Ok("{\"action\":\"ignore\"}".to_string())
    );
    // Numbers of every kind, nesting and escapes elsewhere do no harm.
    let padded = format!("{{\"usage\":[1,-2,0.5,null,true,{{}}],{}", &body[1..]);
    assert_eq!(
        response_output(true, padded.as_bytes()),
        Ok("{\"action\":\"ignore\"}".to_string())
    );
}

fn response_body(output: &str) -> String {
    format!(
        "{{\"output\":[{{\"type\":\"reasoning\"}},{{\"content\":[{{\"type\":\"output_text\",\"text\":\"{output}\"}}]}}]}}"
    )
}

#[test]
fn responses_are_checked_in_order() {
    let body = response_body("x");
    let too_long = vec![b' '; MAX_RESPONSE_BYTES + 1];
    assert_eq!(
        response_output(false, &too_long),
        Err(InterpreterError::ResponseTooLarge)
    );
    assert_eq!(
        response_output(true, &too_long),
        Err(InterpreterError::ResponseTooLarge)
    );
    assert_eq!(
        response_output(false, body.as_bytes()),
        Err(InterpreterError::FailedStatus)
    );
    assert_eq!(
        response_output(false, b"not json"),
        Err(InterpreterError::FailedStatus)
    );
    assert_eq!(
        response_output(true, &vec![b' '; MAX_RESPONSE_BYTES]),
        Err(InterpreterError::InvalidJson)
    );
    assert_eq!(
        response_output(true, b"{\"output\":[]} trailing"),
        Err(InterpreterError::InvalidJson)
    );
    assert_eq!(
        response_output(true, b"{\"output\":[]}"),
        Err(InterpreterError::MissingOutputText)
    );
    let mut exact = body.clone().into_bytes();
    exact.resize(MAX_RESPONSE_BYTES, b' ');
    assert_eq!(response_output(true, &exact), Ok("x".to_string()));
    assert_eq!(
        InterpreterError::InvalidJson.message(),
        "voice turn interpreter returned invalid JSON"
    );
}

#[test]
fn responses_must_hold_text() {
    assert_eq!(
        OpenAiVoiceTurnInterpreter::decision_text(&Json::Null),
        Err(InterpreterError::MissingOutputText)
    );
}

#[test]
fn fields_are_bounded_in_characters() {
    assert_eq!(
        ensure_bounded_nonempty(DecisionField::Task, "任務", 2),
        Ok(())
    );
    assert_eq!(
        ensure_bounded_nonempty(DecisionField::Task, "任務", 1),
        Err(InterpreterError::OversizedField(DecisionField::Task))
    );
    assert_eq!(
        ensure_bounded_nonempty(DecisionField::Speech, "", 1),
        Err(InterpreterError::EmptyField(DecisionField::Speech))
    );
    assert!(InterpreterError::OversizedField(DecisionField::Destination)
        .message()
        .contains("destination"));
}

#[test]
fn plain_actions_ignore_unused_fields() {
    for (action, decision) in [
        (RawVoiceTurnAction::Ignore, VoiceTurnDecision::Ignore),
        (RawVoiceTurnAction::Accept, VoiceTurnDecision::Accept),
        (RawVoiceTurnAction::Reject, VoiceTurnDecision::Reject),
        (RawVoiceTurnAction::Cancel, VoiceTurnDecision::Cancel),
    ] {
        let raw = RawVoiceTurnDecision {
            action,
            destination: "x".repeat(9_999),
            task: String::new(),
            speech: String::new(),
        };
        assert_eq!(raw.validate(), Ok(decision));
    }
}
