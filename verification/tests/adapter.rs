//! What is delivered of an agent's output, and how channels are told apart.

use openab_core::acp::connection::ContentBlock;
use openab_core::acp::protocol::TurnResult;
use openab_core::acp_turn_driver::{
    classify_empty_turn, compose_display, contains_bot_mention, finalize_body,
    parse_output_directives, select_delivery_text, split_delivery, ToolDisplay, ToolEntry,
    ToolState, SILENT_FAILURE_MSG,
};
use openab_core::adapter::{
    AdapterRouter, ChannelRef, ChatAdapter, MessageContext, MessageRef, ReactionTiming,
    ReactionsConfig, SenderContext, TableMode,
};
use std::collections::HashMap;

struct TestAdapter;

impl ChatAdapter for TestAdapter {
    fn platform(&self) -> &'static str {
        "test"
    }

    fn message_limit(&self) -> usize {
        2000
    }

    fn use_streaming(&self, _other_bot_present: bool) -> bool {
        false
    }
}

#[test]
fn use_streaming_is_required_method() {
    let adapter = TestAdapter;
    assert!(!adapter.use_streaming(false));
    assert!(!adapter.renders_native_tables("discord"));
}

#[test]
fn adapters_are_plain_unless_they_say_otherwise() {
    let adapter = TestAdapter;
    assert_eq!(adapter.platform(), "test");
    assert_eq!(adapter.message_limit(), 2000);
    assert!(!adapter.uses_native_streaming(false));
    assert!(!adapter.uses_assistant_status());
    assert!(adapter.show_streaming_placeholder());
}

#[test]
fn select_delivery_text_send_once_keeps_only_final_block() {
    let full = "n1[tool]n2[tool]the final answer";
    let answer_start = "n1[tool]n2[tool]".len();
    assert_eq!(
        select_delivery_text(full, answer_start, false),
        "the final answer"
    );
}

#[test]
fn select_delivery_text_streaming_keeps_full_buffer() {
    // Streaming already showed the text live, so the whole buffer is kept
    // regardless of answer_start.
    let full = "narration then answer";
    assert_eq!(select_delivery_text(full, 10, true), full);
}

#[test]
fn select_delivery_text_send_once_no_tools_keeps_everything() {
    // No tool ever completed → answer_start stays 0 → the whole (tool-free)
    // reply is delivered, including a leading session-reset notice.
    let full = "⚠️ _Session expired, starting fresh..._\n\njust the answer";
    assert_eq!(select_delivery_text(full, 0, false), full);
}

#[test]
fn select_delivery_text_stale_offset_falls_back_to_full() {
    // A byte offset past the end (or a non-char-boundary) must not panic —
    // get(..) returns None and we fall back to the full buffer.
    let full = "abc";
    assert_eq!(select_delivery_text(full, 999, false), full);
    // 1 is a non-boundary inside the multi-byte '✓' (3 bytes); fallback.
    assert_eq!(select_delivery_text("✓x", 1, false), "✓x");
}

#[test]
fn split_delivery_send_once_preserves_leading_directive_across_tools() {
    let full = "[[reply_to:101]]\nlet me check...[tool]the final answer";
    let answer_start = "[[reply_to:101]]\nlet me check...[tool]".len();
    let (directives, body) = split_delivery(full, answer_start, false);
    assert_eq!(directives.reply_to.as_deref(), Some("101"));
    assert_eq!(body, "the final answer");
}

#[test]
fn split_delivery_send_once_no_tools_strips_directive_from_body() {
    // No tool ran (answer_start == 0): the slice still carries the header,
    // so the body must have it stripped while directives are still parsed.
    let full = "[[reply_to:55]]\njust the answer";
    let (directives, body) = split_delivery(full, 0, false);
    assert_eq!(directives.reply_to.as_deref(), Some("55"));
    assert_eq!(body, "just the answer");
}

#[test]
fn split_delivery_streaming_keeps_full_body_and_directive() {
    // Streaming keeps the full buffer; directive parsed and stripped once.
    let full = "[[reply_to:7]]\nnarration then answer";
    let (directives, body) = split_delivery(full, 5, true);
    assert_eq!(directives.reply_to.as_deref(), Some("7"));
    assert_eq!(body, "narration then answer");
}

#[test]
fn finalize_body_reset_send_once_with_tools_prepends_notice() {
    // Reset turn, send-once trimming, a tool advanced answer_start past
    // the notice → the slice no longer contains it → re-prepend.
    let body = "the final answer".to_string();
    let out = finalize_body(true, false, 42, body);
    assert_eq!(
        out, "⚠️ _Session expired, starting fresh..._\n\nthe final answer",
        "send-once + reset + tool ran → notice must be re-prepended"
    );
}

#[test]
fn finalize_body_reset_send_once_no_tools_passes_through() {
    // answer_start == 0 means the slice still equals the full buffer,
    // which already starts with the notice → re-prepending would
    // duplicate it.
    let body = "⚠️ _Session expired, starting fresh..._\n\nthe final answer".to_string();
    let out = finalize_body(true, false, 0, body.clone());
    assert_eq!(
        out, body,
        "send-once + reset + no tools → body already carries notice, pass through"
    );
}

#[test]
fn finalize_body_reset_keep_full_passes_through() {
    // keep_full_text means the slice is the whole buffer (incl. the
    // notice) → must not duplicate, regardless of answer_start.
    let body = "⚠️ _Session expired, starting fresh..._\n\nnarration then answer".to_string();
    let out = finalize_body(true, true, 42, body.clone());
    assert_eq!(
        out, body,
        "keep_full_text → body already carries notice, pass through even with tools"
    );
}

#[test]
fn finalize_body_no_reset_send_once_passes_through() {
    // Non-reset turn: there is no notice to manage regardless of other flags.
    let body = "the final answer".to_string();
    assert_eq!(
        finalize_body(false, false, 42, body.clone()),
        body,
        "no reset → never prepend (send-once + tools)"
    );
}

#[test]
fn finalize_body_no_reset_keep_full_passes_through() {
    // Non-reset turn with keep_full_text: notice is absent, pass through.
    let body = "the final answer".to_string();
    assert_eq!(
        finalize_body(false, true, 0, body.clone()),
        body,
        "no reset → never prepend (keep_full + no tools)"
    );
}



#[test]
fn origin_event_id_excluded_from_eq() {
    let a = ChannelRef {
        platform: "line".into(),
        channel_id: "U123".into(),
        thread_id: None,
        parent_id: None,
        origin_event_id: Some("evt_aaa".into()),
    };
    let b = ChannelRef {
        platform: "line".into(),
        channel_id: "U123".into(),
        thread_id: None,
        parent_id: None,
        origin_event_id: Some("evt_bbb".into()),
    };
    assert_eq!(a, b, "same channel with different event IDs must be equal");
}

#[test]
fn origin_event_id_excluded_from_hash() {
    let a = ChannelRef {
        platform: "line".into(),
        channel_id: "U123".into(),
        thread_id: None,
        parent_id: None,
        origin_event_id: Some("evt_aaa".into()),
    };
    let b = ChannelRef {
        platform: "line".into(),
        channel_id: "U123".into(),
        thread_id: None,
        parent_id: None,
        origin_event_id: Some("evt_bbb".into()),
    };
    let mut map = HashMap::new();
    map.insert(a, "first");
    // b should hit the same bucket and overwrite
    map.insert(b, "second");
    assert_eq!(map.len(), 1);
    assert_eq!(map.values().next(), Some(&"second"));
}

#[test]
fn origin_event_id_survives_clone() {
    let ch = ChannelRef {
        platform: "line".into(),
        channel_id: "U123".into(),
        thread_id: None,
        parent_id: None,
        origin_event_id: Some("evt_abc".into()),
    };
    // Simulates create_thread propagation: clone preserves origin_event_id
    let thread_ch = ChannelRef {
        thread_id: Some("topic_1".into()),
        origin_event_id: ch.origin_event_id.clone(),
        ..ch.clone()
    };
    assert_eq!(thread_ch.origin_event_id.as_deref(), Some("evt_abc"));
}

fn tool(id: &str, title: &str, state: ToolState) -> ToolEntry {
    ToolEntry {
        id: id.into(),
        title: title.into(),
        state,
    }
}

#[test]
fn compose_display_full_shows_complete_title() {
    let tools = vec![tool(
        "1",
        "curl -s https://example.com",
        ToolState::Completed,
    )];
    let out = compose_display(&tools, "done", false, ToolDisplay::Full);
    assert!(out.contains("`curl -s https://example.com`"));
}

#[test]
fn compose_display_compact_shows_count_summary() {
    let tools = vec![
        tool("1", "curl -s https://example.com", ToolState::Completed),
        tool("2", "grep -r pattern src/", ToolState::Completed),
        tool("3", "cat /etc/hosts", ToolState::Failed),
    ];
    let out = compose_display(&tools, "done", false, ToolDisplay::Compact);
    assert!(out.contains("✅ 2"), "expected completed count: {out}");
    assert!(out.contains("❌ 1"), "expected failed count: {out}");
    assert!(out.contains("tool(s)"), "expected tool(s) label: {out}");
    // Must NOT contain individual tool names
    assert!(!out.contains("curl"), "should not show tool names: {out}");
    assert!(!out.contains("grep"), "should not show tool names: {out}");
}

#[test]
fn compose_display_compact_shows_running_count() {
    let tools = vec![
        tool("1", "curl", ToolState::Completed),
        tool("2", "npm install", ToolState::Running),
    ];
    let out = compose_display(&tools, "", true, ToolDisplay::Compact);
    assert!(out.contains("✅ 1"), "expected completed count: {out}");
    assert!(out.contains("🔧 1"), "expected running count: {out}");
}

#[test]
fn compose_display_none_hides_tools() {
    let tools = vec![tool(
        "1",
        "curl -s https://example.com",
        ToolState::Completed,
    )];
    let out = compose_display(&tools, "response text", false, ToolDisplay::Off);
    assert_eq!(out, "response text");
}

#[test]
fn contains_bot_mention_user() {
    assert!(contains_bot_mention("hello <@1234567890> world"));
}

#[test]
fn contains_bot_mention_nickname() {
    assert!(contains_bot_mention("hey <@!9876543210>"));
}

#[test]
fn contains_bot_mention_role() {
    assert!(contains_bot_mention("calling <@&1496247626675257384>"));
}

#[test]
fn contains_bot_mention_no_match() {
    assert!(!contains_bot_mention("hello world"));
    assert!(!contains_bot_mention("email user@example.com"));
    assert!(!contains_bot_mention("<@not_a_number>"));
    assert!(!contains_bot_mention("<#123456>")); // channel mention
}

#[test]
fn contains_bot_mention_embedded() {
    assert!(contains_bot_mention("請問 <@1501788608439386172> 1+1=?"));
}

#[test]
fn parse_reply_to_directive() {
    let input = "[[reply_to:1502606076451885136]]\nHello world";
    let (directives, content) = parse_output_directives(input);
    assert_eq!(directives.reply_to, Some("1502606076451885136".to_string()));
    assert_eq!(content, "Hello world");
}

#[test]
fn parse_no_directives() {
    let input = "Just plain content\nwith multiple lines";
    let (directives, content) = parse_output_directives(input);
    assert_eq!(directives.reply_to, None);
    assert_eq!(content, input);
}

#[test]
fn parse_multiple_directives() {
    let input = "[[reply_to:123456]]\n[[unknown_key:value]]\nContent here";
    let (directives, content) = parse_output_directives(input);
    assert_eq!(directives.reply_to, Some("123456".to_string()));
    assert_eq!(content, "Content here");
}

#[test]
fn parse_invalid_reply_to_rejects_whitespace() {
    let input = "[[reply_to:has spaces]]\nContent";
    let (directives, content) = parse_output_directives(input);
    assert_eq!(directives.reply_to, None);
    assert_eq!(content, "Content");
}

#[test]
fn parse_slack_ts_format_accepted() {
    let input = "[[reply_to:1234567890.123456]]\nContent";
    let (directives, content) = parse_output_directives(input);
    assert_eq!(directives.reply_to, Some("1234567890.123456".to_string()));
    assert_eq!(content, "Content");
}

#[test]
fn parse_empty_reply_to() {
    let input = "[[reply_to:]]\nContent";
    let (directives, content) = parse_output_directives(input);
    assert_eq!(directives.reply_to, None);
    assert_eq!(content, "Content");
}

#[test]
fn parse_crlf_line_endings() {
    let input = "[[reply_to:999]]\r\nContent with CRLF";
    let (directives, content) = parse_output_directives(input);
    assert_eq!(directives.reply_to, Some("999".to_string()));
    assert_eq!(content, "Content with CRLF");
}

#[test]
fn parse_directive_only_no_content() {
    let input = "[[reply_to:123]]";
    let (directives, content) = parse_output_directives(input);
    assert_eq!(directives.reply_to, Some("123".to_string()));
    assert_eq!(content, "");
}

#[test]
fn parse_non_directive_line_stops_parsing() {
    let input = "Normal first line\n[[reply_to:123]]\nMore content";
    let (directives, content) = parse_output_directives(input);
    assert_eq!(directives.reply_to, None);
    assert_eq!(content, input);
}

#[test]
fn parse_duplicate_reply_to_last_wins() {
    let input = "[[reply_to:111]]\n[[reply_to:222]]\nContent";
    let (directives, content) = parse_output_directives(input);
    // Last value wins
    assert_eq!(directives.reply_to, Some("222".to_string()));
    assert_eq!(content, "Content");
}

#[test]
fn parse_crlf_multiple_directives() {
    let input = "[[reply_to:456]]\r\n[[unknown:x]]\r\nContent after CRLF";
    let (directives, content) = parse_output_directives(input);
    assert_eq!(directives.reply_to, Some("456".to_string()));
    assert_eq!(content, "Content after CRLF");
}

#[test]
fn parse_bracket_without_colon_preserved() {
    // [[Note]] has no colon — not a directive, preserved as content
    let input = "[[Summary]]\nThis is body text";
    let (directives, content) = parse_output_directives(input);
    assert_eq!(directives.reply_to, None);
    assert_eq!(content, input);
}

#[test]
fn parse_reply_to_with_inline_content() {
    // Agent puts content on same line as directive — should still parse
    let input = "[[reply_to:1502724086474870926]]  @BOT I'm on standby";
    let (directives, content) = parse_output_directives(input);
    assert_eq!(directives.reply_to, Some("1502724086474870926".to_string()));
    assert_eq!(content, "@BOT I'm on standby");
}

#[test]
fn parse_reply_to_inline_with_more_lines() {
    let input = "[[reply_to:123]]  First line\nSecond line\nThird line";
    let (directives, content) = parse_output_directives(input);
    assert_eq!(directives.reply_to, Some("123".to_string()));
    assert_eq!(content, "First line\nSecond line\nThird line");
}

#[test]
fn parse_reply_to_no_space_before_content() {
    // No space between ]] and content
    let input = "[[reply_to:1502724086474870926]]收到";
    let (directives, content) = parse_output_directives(input);
    assert_eq!(directives.reply_to, Some("1502724086474870926".to_string()));
    assert_eq!(content, "收到");
}

#[test]
fn parse_reply_to_inline_with_mention() {
    // Real-world case: directive followed by Discord mention
    let input = "[[reply_to:1502724086474870926]]  <@1490365068863606784> 我 standby";
    let (directives, content) = parse_output_directives(input);
    assert_eq!(directives.reply_to, Some("1502724086474870926".to_string()));
    assert_eq!(content, "<@1490365068863606784> 我 standby");
}

#[test]
fn parse_reply_to_inline_only_spaces() {
    // Trailing spaces only — no real content, should be empty
    let input = "[[reply_to:123]]   ";
    let (directives, content) = parse_output_directives(input);
    assert_eq!(directives.reply_to, Some("123".to_string()));
    assert_eq!(content, "");
}

#[test]
fn parse_reply_to_with_brackets_in_content() {
    // Content after ]] contains brackets — should not confuse parser
    let input = "[[reply_to:456]]  看看 [[這個]] 怎麼樣";
    let (directives, content) = parse_output_directives(input);
    assert_eq!(directives.reply_to, Some("456".to_string()));
    assert_eq!(content, "看看 [[這個]] 怎麼樣");
}


#[test]
fn empty_turn_silent_failure_produces_diagnostic() {
    let tr = TurnResult {
        stop_reason: Some("end_turn".into()),
        output_tokens: Some(0),
        input_tokens: Some(0),
        total_tokens: Some(0),
    };
    let result = classify_empty_turn(None, &tr);
    assert_eq!(result, SILENT_FAILURE_MSG);
}

#[test]
fn empty_turn_silent_failure_nonzero_input_still_diagnostic() {
    let tr = TurnResult {
        stop_reason: Some("end_turn".into()),
        output_tokens: Some(0),
        input_tokens: Some(150),
        total_tokens: Some(150),
    };
    let result = classify_empty_turn(None, &tr);
    assert_eq!(result, SILENT_FAILURE_MSG);
}

#[test]
fn empty_turn_response_error_takes_precedence() {
    let tr = TurnResult {
        stop_reason: Some("end_turn".into()),
        output_tokens: Some(0),
        input_tokens: Some(0),
        total_tokens: Some(0),
    };
    let result = classify_empty_turn(Some("Agent process died"), &tr);
    assert_eq!(result, "⚠️ Agent process died");
}

#[test]
fn empty_turn_missing_usage_shows_no_response() {
    let tr = TurnResult::default();
    let result = classify_empty_turn(None, &tr);
    assert_eq!(result, "_(no response)_");
}

#[test]
fn empty_turn_nonzero_output_shows_no_response() {
    let tr = TurnResult {
        stop_reason: Some("end_turn".into()),
        output_tokens: Some(50),
        input_tokens: Some(10),
        total_tokens: Some(60),
    };
    let result = classify_empty_turn(None, &tr);
    assert_eq!(result, "_(no response)_");
}

#[test]
fn empty_turn_different_stop_reason_shows_no_response() {
    let tr = TurnResult {
        stop_reason: Some("max_tokens".into()),
        output_tokens: Some(0),
        input_tokens: Some(10),
        total_tokens: Some(10),
    };
    let result = classify_empty_turn(None, &tr);
    assert_eq!(result, "_(no response)_");
}

fn text(text: &str) -> ContentBlock {
    ContentBlock::Text {
        text: text.to_string(),
    }
}

fn image() -> ContentBlock {
    ContentBlock::Image {
        media_type: "image/png".to_string(),
        data: "AAAA".to_string(),
    }
}

#[test]
fn arrival_packs_sender_transcripts_prompt_and_images_in_order() {
    let blocks = AdapterRouter::pack_arrival_event(
        "{\"schema\":\"s\"}",
        "look at this",
        vec![image(), text("transcript one"), text("transcript two")],
    );
    assert_eq!(
        blocks,
        vec![
            text("<sender_context>\n{\"schema\":\"s\"}\n</sender_context>"),
            text("transcript one"),
            text("transcript two"),
            text("look at this"),
            image(),
        ]
    );
}

#[test]
fn arrival_without_prompt_has_no_empty_block() {
    let blocks = AdapterRouter::pack_arrival_event("{}", "", vec![image()]);
    assert_eq!(
        blocks,
        vec![text("<sender_context>\n{}\n</sender_context>"), image()]
    );
}

fn channel(thread_id: Option<&str>) -> ChannelRef {
    ChannelRef {
        platform: "slack".into(),
        channel_id: "C1".into(),
        thread_id: thread_id.map(|id| id.to_string()),
        parent_id: None,
        origin_event_id: None,
    }
}

#[test]
fn session_key_prefers_the_thread() {
    assert_eq!(AdapterRouter::thread_key("slack", &channel(Some("1.2"))), "slack:1.2");
    assert_eq!(AdapterRouter::thread_key("slack", &channel(None)), "slack:C1");
}

#[test]
fn channels_differ_in_each_part_of_their_identity() {
    let a = channel(None);
    assert_ne!(a, channel(Some("1.2")));
    assert_ne!(
        a,
        ChannelRef {
            platform: "discord".into(),
            ..channel(None)
        }
    );
    assert_ne!(
        a,
        ChannelRef {
            channel_id: "C2".into(),
            ..channel(None)
        }
    );
    assert_ne!(
        a,
        ChannelRef {
            parent_id: Some("C0".into()),
            ..channel(None)
        }
    );
}

fn router(remove_after_reply: bool) -> AdapterRouter {
    AdapterRouter::new(
        ReactionsConfig {
            enabled: true,
            remove_after_reply,
            tool_display: ToolDisplay::Compact,
            narration_display: true,
            timing: ReactionTiming {
                done_hold_ms: 1500,
                error_hold_ms: 2500,
            },
        },
        TableMode::Code,
        1800,
        30,
        vec![("docs".to_string(), "/home/bot/docs".to_string())],
        "/home/bot".to_string(),
    )
}

#[test]
fn router_hands_out_its_configuration() {
    let router = router(false);
    assert!(router.reactions_config().enabled);
    assert_eq!(
        router.workspace_aliases_map(),
        vec![("docs".to_string(), "/home/bot/docs".to_string())]
    );
    assert_eq!(router.bot_home_path(), "/home/bot");
    assert!(!router.checks_too_seldom());
    assert_eq!(router.effective_table_mode(false), TableMode::Code);
    assert_eq!(router.effective_table_mode(true), TableMode::Off);
    let context = router.delivery_context(true, false, false, true);
    assert!(context.reset && context.assistant_status && context.narration_display);
    assert_eq!(context.tool_display, ToolDisplay::Compact);
    assert_eq!(context.prompt_hard_timeout.secs, 1800);
    assert_eq!(context.liveness_check_interval.secs, 30);
}

#[test]
fn checks_that_come_after_the_time_limit_are_too_seldom() {
    let timing = ReactionTiming {
        done_hold_ms: 0,
        error_hold_ms: 0,
    };
    let config = ReactionsConfig {
        enabled: false,
        remove_after_reply: false,
        tool_display: ToolDisplay::Full,
        narration_display: false,
        timing,
    };
    let router = AdapterRouter::new(config, TableMode::Off, 30, 30, Vec::new(), String::new());
    assert!(router.checks_too_seldom());
}

#[test]
fn reactions_end_by_outcome_and_stay_unless_they_are_removed() {
    let end = router(true).reaction_end(false, true).unwrap();
    assert!(end.done);
    assert_eq!(end.clear_after_ms, Some(1500));
    let end = router(true).reaction_end(false, false).unwrap();
    assert!(!end.done);
    assert_eq!(end.clear_after_ms, Some(2500));
    assert_eq!(router(false).reaction_end(false, true).unwrap().clear_after_ms, None);
    assert_eq!(router(true).reaction_end(true, true), None);
}

#[test]
fn errors_are_marked_for_users() {
    assert_eq!(AdapterRouter::error_notice("no agent"), "⚠️ no agent");
}

#[test]
fn message_types_hold_what_they_are_given() {
    let message = MessageRef {
        channel: channel(None),
        message_id: "m1".to_string(),
    };
    let context = MessageContext {
        thread_channel: channel(Some("1.2")),
        sender_json: "{}".to_string(),
        prompt: "hello".to_string(),
        extra_blocks: vec![image()],
        trigger_msg: message.clone(),
        other_bot_present: true,
    };
    assert_eq!(context.trigger_msg.message_id, "m1");
    assert_eq!(context.trigger_msg.channel, context.trigger_msg.channel.clone());
    let sender = SenderContext {
        schema: "openab.sender.v1".to_string(),
        sender_id: "U1".to_string(),
        sender_name: "user".to_string(),
        display_name: "User".to_string(),
        channel: "slack".to_string(),
        channel_id: "C1".to_string(),
        thread_id: None,
        is_bot: false,
        timestamp: None,
        message_id: Some("m1".to_string()),
        receiver_id: None,
    };
    assert_eq!(sender.clone().message_id.as_deref(), Some("m1"));
}
