//! Permissions, cancellation, routing and environment of agent connections.

use openab_core::acp::connection::{
    build_permission_response, notification_text, pick_best_option, response_timeout_secs,
    subscriber_copy, Abandonment, AcpConnection, CancelRejection, ContentBlock, Routing,
    SessionActivity, TurnCancelState, TurnPhase,
};
use openab_core::acp::environment::{
    agent_environment, build_agent_env, expand_env, lookup, sanitize_diagnostic_line,
    termination_target, EnvVar,
};
use openab_core::acp::protocol::{ConfigOption, JsonRpcError, JsonRpcMessage};
use openab_core::acp_turn::{TurnStartError, TurnTicket};
use openab_core::json::{Json, Member};
use uuid::Uuid;

fn object(members: &[(&str, Json)]) -> Json {
    let mut list = Vec::new();
    for (name, value) in members {
        list.push(Member {
            name: name.to_string(),
            value: openab_core::json::copy(value),
        });
    }
    Json::Object(list)
}

fn text(value: &str) -> Json {
    Json::Text(value.to_string())
}

fn option(kind: &str, id: &str) -> Json {
    object(&[("kind", text(kind)), ("optionId", text(id))])
}

fn cancelled() -> Json {
    object(&[("outcome", object(&[("outcome", text("cancelled"))]))])
}

fn selected(id: &str) -> Json {
    object(&[(
        "outcome",
        object(&[("outcome", text("selected")), ("optionId", text(id))]),
    )])
}

#[test]
fn picks_allow_always_over_other_options() {
    let options = vec![
        option("allow_once", "once"),
        option("allow_always", "always"),
        option("reject_once", "reject"),
    ];

    assert_eq!(pick_best_option(&options), Some("always".to_string()));
}

#[test]
fn falls_back_to_first_unknown_non_reject_kind() {
    let options = vec![
        option("reject_once", "reject"),
        option("workspace_write", "workspace-write"),
    ];

    assert_eq!(
        pick_best_option(&options),
        Some("workspace-write".to_string())
    );
}

#[test]
fn selects_bypass_permissions_for_exit_plan_mode() {
    let options = vec![
        object(&[
            ("optionId", text("bypassPermissions")),
            ("kind", text("allow_always")),
        ]),
        object(&[
            ("optionId", text("acceptEdits")),
            ("kind", text("allow_always")),
        ]),
        object(&[("optionId", text("default")), ("kind", text("allow_once"))]),
        object(&[("optionId", text("plan")), ("kind", text("reject_once"))]),
    ];

    assert_eq!(
        pick_best_option(&options),
        Some("bypassPermissions".to_string())
    );
}

#[test]
fn returns_none_when_only_reject_options_exist() {
    let options = vec![
        option("reject_once", "reject-once"),
        option("reject_always", "reject-always"),
    ];

    assert_eq!(pick_best_option(&options), None);
}

#[test]
fn allow_once_is_taken_where_nothing_is_allowed_for_good() {
    let options = vec![
        option("reject_once", "reject"),
        option("workspace_write", "write"),
        option("allow_once", "once"),
    ];
    assert_eq!(pick_best_option(&options), Some("once".to_string()));
}

#[test]
fn builds_cancelled_outcome_when_no_selectable_option_exists() {
    let params = object(&[(
        "options",
        Json::List(vec![option("reject_once", "reject-once")]),
    )]);
    let response = build_permission_response(Some(&params));

    assert_eq!(response, cancelled());
}

#[test]
fn builds_cancelled_when_options_array_is_empty() {
    let params = object(&[("options", Json::List(Vec::new()))]);
    let response = build_permission_response(Some(&params));

    assert_eq!(response, cancelled());
}

#[test]
fn falls_back_to_allow_always_when_options_are_missing() {
    let params = object(&[("toolCall", object(&[("title", text("legacy"))]))]);
    let response = build_permission_response(Some(&params));

    assert_eq!(response, selected("allow_always"));
}

#[test]
fn falls_back_to_allow_always_when_params_is_none() {
    let response = build_permission_response(None);

    assert_eq!(response, selected("allow_always"));
}

#[test]
fn offered_options_are_answered_with_the_best_one() {
    let params = object(&[(
        "options",
        Json::List(vec![option("allow_once", "once"), option("allow_always", "all")]),
    )]);
    assert_eq!(build_permission_response(Some(&params)), selected("all"));
}

fn var(key: &str, value: &str) -> EnvVar {
    EnvVar {
        key: key.to_string(),
        value: value.to_string(),
    }
}

#[test]
fn explicit_env_takes_precedence_over_inherit_env() {
    let key = "OAB_TEST_PRECEDENCE";
    let process = vec![var(key, "from_process")];
    let explicit = vec![var(key, "from_config")];
    let inherit = vec![key.to_string()];

    let (result, inherited) = build_agent_env(&explicit, &inherit, &process, false);

    assert_eq!(lookup(&result, key).unwrap(), "from_config");
    assert!(!inherited.contains(&key.to_string()));
}

#[test]
fn inherit_env_copies_from_process() {
    let key = "OAB_TEST_INHERIT";
    let process = vec![var(key, "process_value")];
    let explicit = Vec::new();
    let inherit = vec![key.to_string()];

    let (result, inherited) = build_agent_env(&explicit, &inherit, &process, false);

    assert_eq!(lookup(&result, key).unwrap(), "process_value");
    assert!(inherited.contains(&key.to_string()));
}

#[test]
fn inherit_env_skips_missing_vars() {
    let explicit = Vec::new();
    let inherit = vec!["OAB_TEST_NONEXISTENT_VAR_12345".to_string()];

    let (result, inherited) = build_agent_env(&explicit, &inherit, &Vec::new(), false);

    assert!(lookup(&result, "OAB_TEST_NONEXISTENT_VAR_12345").is_none());
    assert!(inherited.is_empty());
}

#[test]
fn values_may_name_variables_of_the_process() {
    let process = vec![var("TOKEN", "abc")];
    assert_eq!(expand_env("${TOKEN}", &process, false), "abc");
    assert_eq!(expand_env("${MISSING}", &process, false), "");
    assert_eq!(expand_env("plain", &process, false), "plain");
    assert_eq!(expand_env("${TOKEN}!", &process, false), "${TOKEN}!");
}

#[test]
fn agents_get_a_minimal_environment() {
    let process = vec![
        var("PATH", "/bin"),
        var("USER", "bot"),
        var("SECRET", "hidden"),
    ];
    let explicit = vec![var("MODE", "${USER}")];
    let (vars, _) = agent_environment("/work", &explicit, &Vec::new(), &process, false);
    assert_eq!(lookup(&vars, "PATH"), Some("/bin"));
    assert_eq!(lookup(&vars, "HOME"), Some("/work"));
    assert_eq!(lookup(&vars, "MODE"), Some("bot"));
    assert_eq!(lookup(&vars, "SECRET"), None);
}

#[test]
fn only_named_variables_reach_an_agent() {
    let process = vec![
        var("HOME", "/home/bot"),
        var("BOT_TOKEN", "hidden"),
        var("LANG", "C"),
        var("SystemRoot", "C:/Windows"),
    ];
    let explicit = vec![var("MODE", "fast")];
    let inherit = vec!["LANG".to_string()];
    for windows in [false, true] {
        let (vars, inherited) = agent_environment("/work", &explicit, &inherit, &process, windows);
        assert_eq!(lookup(&vars, "MODE"), Some("fast"));
        assert_eq!(lookup(&vars, "LANG"), Some("C"));
        assert_eq!(inherited, vec!["LANG".to_string()]);
        assert_eq!(lookup(&vars, "BOT_TOKEN"), None);
        assert_eq!(lookup(&vars, "SystemRoot").is_some(), windows);
    }
}

#[test]
fn windows_finds_variables_in_any_case() {
    let process = vec![
        var("Path", "C:/bin"),
        var("SYSTEMROOT", "C:/Windows"),
        var("Token", "abc"),
    ];
    let explicit = vec![var("MODE", "${TOKEN}")];
    let inherit = vec!["token".to_string(), "mode".to_string()];
    let (vars, inherited) = agent_environment("/work", &explicit, &inherit, &process, true);
    assert_eq!(lookup(&vars, "PATH"), Some("C:/bin"));
    assert_eq!(lookup(&vars, "SystemRoot"), Some("C:/Windows"));
    assert_eq!(lookup(&vars, "MODE"), Some("abc"));
    assert_eq!(lookup(&vars, "token"), Some("abc"));
    assert_eq!(inherited, vec!["token".to_string()]);

    let (vars, inherited) = agent_environment("/work", &explicit, &inherit, &process, false);
    assert_eq!(lookup(&vars, "PATH"), Some("/usr/local/bin:/usr/bin:/bin"));
    assert_eq!(lookup(&vars, "MODE"), Some(""));
    assert!(inherited.is_empty());
}

#[test]
fn a_subscriber_gets_the_response_without_method_and_params() {
    let error = || JsonRpcError {
        code: -32000,
        message: "quota".to_string(),
        data: Some(Json::List(vec![text("secret"), Json::Integer(7)])),
    };
    let response = JsonRpcMessage {
        id: Some(4),
        method: Some("session/update".to_string()),
        result: Some(object(&[("stopReason", text("end_turn"))])),
        error: Some(error()),
        params: Some(Json::Null),
    };
    assert_eq!(
        subscriber_copy(&response),
        JsonRpcMessage {
            id: Some(4),
            method: None,
            result: Some(object(&[("stopReason", text("end_turn"))])),
            error: Some(error()),
            params: None,
        }
    );
    let bare = JsonRpcMessage { result: None, error: None, ..response };
    assert_eq!(
        subscriber_copy(&bare),
        JsonRpcMessage { id: Some(4), method: None, result: None, error: None, params: None }
    );
}

#[test]
fn started_connections_have_ids_of_their_own() {
    let first = AcpConnection::started(5);
    let second = AcpConnection::started(5);
    assert_ne!(first.connection_id, second.connection_id);
    assert_eq!(Uuid::from_u128(first.connection_id).get_version_num(), 4);
    assert_eq!(first.activity.last_active_ms(), 5);
    assert_eq!(first.turn.phase, TurnPhase::Idle);
}

#[test]
fn notifications_are_written_as_json() {
    let notification = object(&[
        ("text", text("a \"quoted\" line\n")),
        (
            "list",
            Json::List(vec![
                Json::Null,
                Json::Bool(true),
                Json::Integer(-3),
                Json::Real("0.5".to_string()),
            ]),
        ),
    ]);
    assert_eq!(
        notification_text(&notification).unwrap(),
        "{\"list\":[null,true,-3,0.5],\"text\":\"a \\\"quoted\\\" line\\n\"}"
    );
    assert_eq!(notification_text(&Json::Integer(i128::MAX)), None);
    assert_eq!(notification_text(&Json::Real("one".to_string())), None);
}

#[test]
fn diagnostic_lines_lose_control_characters() {
    assert_eq!(
        sanitize_diagnostic_line("  warn\u{7}ing\u{1b} \n"),
        Some("warning".to_string())
    );
    assert_eq!(sanitize_diagnostic_line(" \t\n"), None);
}

#[test]
fn only_real_process_groups_are_terminated() {
    assert_eq!(termination_target(Some(42)), Some(42));
    assert_eq!(termination_target(Some(0)), None);
    assert_eq!(termination_target(Some(-1)), None);
    assert_eq!(termination_target(None), None);
}

fn connection_id() -> u128 {
    Uuid::new_v4().as_u128()
}

#[test]
fn targeted_cancel_rejects_stale_ticket_after_later_turn_starts() {
    let connection_id = connection_id();
    let first = TurnTicket::new(connection_id, 10);
    let second = TurnTicket::new(connection_id, 11);
    let mut state = TurnCancelState::default();

    assert!(state.activate(first.request_id(), "session-a".into()));
    assert!(state.finish(connection_id, &first));
    assert!(state.activate(second.request_id(), "session-a".into()));

    assert!(!state.finish(connection_id, &first));
    assert_eq!(
        state.begin_cancel(connection_id, &first),
        Err(CancelRejection::StaleRequest)
    );
    assert_eq!(
        state.phase,
        TurnPhase::InFlight {
            request_id: second.request_id(),
            session_id: "session-a".into(),
        }
    );
}

#[test]
fn targeted_cancel_rejects_duplicate_request() {
    let connection_id = connection_id();
    let ticket = TurnTicket::new(connection_id, 20);
    let mut state = TurnCancelState::default();
    assert!(state.activate(ticket.request_id(), "session-b".into()));

    assert_eq!(
        state.begin_cancel(connection_id, &ticket),
        Ok("session-b".into())
    );
    assert_eq!(
        state.begin_cancel(connection_id, &ticket),
        Err(CancelRejection::Duplicate)
    );
}

#[test]
fn failed_cancel_write_is_distinct_from_duplicate_request() {
    let id = connection_id();
    let ticket = TurnTicket::new(id, 21);
    let mut state = TurnCancelState::default();
    assert!(state.activate(ticket.request_id(), "session-b".into()));
    assert_eq!(state.begin_cancel(id, &ticket), Ok("session-b".into()));

    assert!(state.cancel_write_failed(id, &ticket));
    assert!(state.cancel_write_is_indeterminate(id, &ticket));
    assert!(!state.cancel_write_is_indeterminate(connection_id(), &ticket));
    assert_eq!(
        state.begin_cancel(id, &ticket),
        Err(CancelRejection::WriteIndeterminate)
    );
    assert_eq!(
        state.phase,
        TurnPhase::CancelWriteIndeterminate {
            request_id: ticket.request_id()
        }
    );
}

#[test]
fn targeted_cancel_rejects_finished_turn() {
    let connection_id = connection_id();
    let ticket = TurnTicket::new(connection_id, 30);
    let mut state = TurnCancelState::default();
    assert!(state.activate(ticket.request_id(), "session-c".into()));
    assert!(state.finish(connection_id, &ticket));

    assert_eq!(
        state.begin_cancel(connection_id, &ticket),
        Err(CancelRejection::Finished)
    );
}

#[test]
fn targeted_cancel_rejects_ticket_from_another_connection() {
    let id = connection_id();
    let ticket = TurnTicket::new(connection_id(), 40);
    let mut state = TurnCancelState::default();
    assert!(state.activate(ticket.request_id(), "session-d".into()));

    assert_eq!(
        state.begin_cancel(id, &ticket),
        Err(CancelRejection::DifferentConnection)
    );
}

#[test]
fn targeted_cancel_needs_an_active_turn() {
    let id = connection_id();
    let mut state = TurnCancelState::default();
    assert_eq!(
        state.begin_cancel(id, &TurnTicket::new(id, 1)),
        Err(CancelRejection::NoActiveTurn)
    );
    assert_eq!(state.current_ticket(id), None);
    assert!(state.can_start());
}

#[test]
fn cancel_rejections_describe_themselves() {
    assert_eq!(
        CancelRejection::DifferentConnection.message(),
        "turn ticket belongs to a different ACP connection"
    );
    assert_eq!(
        CancelRejection::NoActiveTurn.message(),
        "there is no active ACP turn to cancel"
    );
    assert_eq!(CancelRejection::StaleRequest.message(), "turn ticket is stale");
    assert_eq!(
        CancelRejection::Duplicate.message(),
        "cancellation was already requested for this turn"
    );
    assert_eq!(
        CancelRejection::WriteIndeterminate.message(),
        "the previous cancellation write had an indeterminate outcome"
    );
    assert_eq!(
        CancelRejection::Finished.message(),
        "ACP turn has already finished"
    );
}

fn message(id: Option<u64>, method: Option<&str>, result: Option<Json>) -> JsonRpcMessage {
    JsonRpcMessage {
        id,
        method: method.map(|m| m.to_string()),
        result,
        error: None,
        params: None,
    }
}

#[test]
fn stale_id_response_is_forwarded_without_pending_entry() {
    let mut conn = AcpConnection::new(1, 0);
    conn.subscribed = true;
    let stale = message(Some(42), None, Some(object(&[("stopReason", text("ok"))])));
    assert_eq!(conn.route(&stale), Routing::Forward);
    assert!(conn.pending.is_empty());
}

#[test]
fn matched_id_response_resolves_pending_and_forwards() {
    let mut conn = AcpConnection::new(1, 0);
    conn.pending.insert(7);
    conn.subscribed = true;
    let response = message(
        Some(7),
        None,
        Some(object(&[("stopReason", text("end_turn"))])),
    );
    assert_eq!(
        conn.route(&response),
        Routing::Resolve {
            id: 7,
            forward: true
        }
    );
    assert!(conn.pending.is_empty());
}

#[test]
fn nobody_gets_what_nobody_waits_for() {
    let mut conn = AcpConnection::new(1, 0);
    assert_eq!(
        conn.route(&message(None, Some("session/update"), None)),
        Routing::Drop
    );
}

#[test]
fn permission_requests_are_answered_at_once() {
    let mut conn = AcpConnection::new(1, 0);
    let request = message(Some(3), Some("session/request_permission"), None);
    assert_eq!(
        conn.route(&request),
        Routing::Reply {
            id: 3,
            outcome: selected("allow_always")
        }
    );
}

#[test]
fn a_turn_runs_from_prompt_to_cleanup() {
    let mut conn = AcpConnection::new(9, 0);
    let blocks = vec![ContentBlock::Text {
        text: "do it".to_string(),
    }];
    match conn.session_prompt_typed(&blocks, 5) {
        Err(TurnStartError::NotStarted { error }) => assert_eq!(error, "no session"),
        other => panic!("unexpected: {other:?}"),
    }

    let response = message(
        Some(1),
        None,
        Some(object(&[("sessionId", text("session-1"))])),
    );
    assert_eq!(
        conn.session_created(&response, Vec::new()),
        Ok("session-1".to_string())
    );
    let (ticket, request) = conn.session_prompt_typed(&blocks, 6).unwrap();
    assert_eq!(request.method, "session/prompt");
    assert_eq!(ticket.request_id(), request.id);
    assert_eq!(request.params.get_str("sessionId"), Some("session-1"));
    assert!(conn.activity.in_flight());
    assert!(conn.session_prompt_typed(&blocks, 7).is_err());

    let notification = conn.begin_cancel(&ticket).unwrap();
    assert_eq!(notification.get_str("method"), Some("session/cancel"));
    assert_eq!(
        notification_text(&notification).unwrap(),
        "{\"jsonrpc\":\"2.0\",\"method\":\"session/cancel\",\"params\":{\"sessionId\":\"session-1\"}}"
    );
    conn.cancel_write_failed(&ticket);
    assert!(conn.cancel_write_is_indeterminate(&ticket));
    assert!(conn.prompt_done_typed(&ticket, 8));
    assert!(!conn.activity.in_flight());
}

#[test]
fn an_abandoned_request_is_cancelled_once() {
    let mut conn = AcpConnection::new(9, 0);
    let response = message(Some(1), None, Some(object(&[("sessionId", text("s"))])));
    conn.session_created(&response, Vec::new()).unwrap();
    let blocks = vec![ContentBlock::Image {
        media_type: "image/png".to_string(),
        data: "AA==".to_string(),
    }];
    let (ticket, request) = conn.session_prompt_typed(&blocks, 1).unwrap();
    assert!(conn.pending.contains(&request.id));
    match conn.abandon_request_typed(&ticket) {
        Abandonment::Cancel { notification } => {
            assert_eq!(notification.get_str("method"), Some("session/cancel"))
        }
        other => panic!("unexpected: {other:?}"),
    }
    assert!(!conn.pending.contains(&request.id));
    conn.abandon_finished(&ticket, true);
    assert_eq!(conn.abandon_request_typed(&ticket), Abandonment::NotCurrent);
    assert!(conn.alive());
}

#[test]
fn a_write_that_may_be_partial_poisons_the_connection() {
    let mut conn = AcpConnection::new(9, 0);
    let ticket = TurnTicket::new(9, 4);
    match conn.prompt_write_failed(&ticket, "stdin write timeout".to_string()) {
        TurnStartError::WriteIndeterminate { ticket: t, error } => {
            assert_eq!(t, ticket);
            assert_eq!(error, "stdin write timeout");
        }
        other => panic!("unexpected: {other:?}"),
    }
    assert!(!conn.alive());
}

#[test]
fn a_closed_reader_fails_what_waits() {
    let mut conn = AcpConnection::new(9, 0);
    conn.pending.insert(1);
    conn.reader_closed();
    assert!(conn.pending.is_empty());
    assert!(!conn.alive());
    let error: JsonRpcError = AcpConnection::closed_error().error.unwrap();
    assert_eq!(error.code, -1);
    assert_eq!(error.message, "connection closed");
}

#[test]
fn session_setup_requests_name_their_methods() {
    let mut conn = AcpConnection::new(9, 0);
    let request = conn.initialize();
    assert_eq!(request.method, "initialize");
    conn.initialized(&message(
        Some(request.id),
        None,
        Some(object(&[(
            "agentCapabilities",
            object(&[("loadSession", Json::Bool(true))]),
        )])),
    ));
    assert!(conn.supports_load_session);
    assert_eq!(conn.session_new("/work").method, "session/new");
    let load = conn.session_load("old", "/work");
    assert_eq!(load.method, "session/load");
    assert_eq!(load.params.get_str("sessionId"), Some("old"));
    let missing = message(Some(load.id), None, None);
    assert!(conn.session_created(&missing, Vec::new()).is_err());
}

#[test]
fn chosen_options_are_kept() {
    let mut conn = AcpConnection::new(9, 0);
    assert!(conn.set_config_option("model", "large").is_err());
    conn.acp_session_id = Some("s".to_string());
    conn.config_options = vec![ConfigOption {
        id: "model".to_string(),
        current_value: "small".to_string(),
    }];
    assert!(conn.set_config_option("model", "large").is_ok());
    conn.config_option_chosen("model", "large");
    assert_eq!(conn.config_options[0].current_value, "large");
}

#[test]
fn starting_a_session_may_take_longer() {
    assert!(response_timeout_secs("session/new") > response_timeout_secs("session/cancel"));
}

#[test]
fn session_activity_touch_advances_last_active() {
    let mut activity = SessionActivity::new(10);
    activity.touch(0);
    let before = activity.last_active_ms();
    activity.touch(20);
    assert!(activity.last_active_ms() > before);
    activity.touch(0);
    assert!(activity.age(20) >= 10);
    activity.touch(20);
    assert!(activity.age(20) < 60_000);
    activity.touch(u64::MAX);
    assert_eq!(activity.age(20), 0);
}

#[test]
fn session_activity_set_in_flight_round_trips() {
    let mut activity = SessionActivity::new(0);
    assert!(!activity.in_flight());
    activity.set_in_flight(true);
    assert!(activity.in_flight());
    activity.set_in_flight(false);
    assert!(!activity.in_flight());
}

#[test]
fn a_new_session_is_announced_once() {
    let mut connection = AcpConnection::new(connection_id(), 0);
    assert!(!connection.take_session_reset());
    connection.session_reset = true;
    assert!(connection.take_session_reset());
    assert!(!connection.take_session_reset());
}

#[test]
fn announced_settings_replace_the_known_ones() {
    let mut connection = AcpConnection::new(connection_id(), 0);
    let options = vec![ConfigOption { id: "model".to_string(), current_value: "a".to_string() }];
    connection.update_config_options(options.clone());
    assert_eq!(connection.config_options, options);
}
