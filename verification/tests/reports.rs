//! Reports of tool calls, deleting in steps, edits by position and file names.

use kokoro::approval::{approved_outcome, rejected_outcome};
use kokoro::bot_config::{normalize_telegram_config_env, BotConfig, TelegramConfig};
use kokoro::bot_runtime::BotRuntimeService;
use kokoro::chat_turn::RoundStream;
use kokoro::conversation::locate_by_index;
use kokoro::history::{delete_last_messages, MessageRow};
use kokoro::json::JsonValue;
use kokoro::paths::{bot_config_path, legacy_telegram_config_path, FilePath};
use kokoro::text_map::TextMap;
use kokoro::tool_trace::{
    base_tool_trace_payload, tool_trace_payload, ActionResult, PermissionDecision,
    ToolExecutionOutcome,
};
use kokoro::webhook::WebhookTurn;

fn outcome(result: Result<&str, &str>) -> ToolExecutionOutcome {
    ToolExecutionOutcome {
        tool_call_id: None,
        args: TextMap::new(),
        tool_name: "read_file".to_string(),
        tool_id: "mcp__files__read_file".to_string(),
        source: Some("mcp".to_string()),
        server_name: Some("files".to_string()),
        tool_needs_feedback: Some(true),
        permission_level: Some("safe".to_string()),
        risk_tags: vec!["read".to_string()],
        result: match result {
            Ok(message) => Ok(action(message)),
            Err(error) => Err(error.to_string()),
        },
        needs_feedback: true,
        permission_decision: Some(PermissionDecision::Allow),
    }
}

fn action(message: &str) -> ActionResult {
    ActionResult {
        success: true,
        message: message.to_string(),
        data: None,
    }
}

fn row(id: i64, role: &str) -> MessageRow {
    MessageRow {
        id,
        role: role.to_string(),
        content: format!("m{id}"),
        metadata: None,
    }
}

#[test]
fn calls_are_reported_with_their_result() {
    let done = outcome(Ok("42 lines"));
    let base = base_tool_trace_payload(&done, "turn-1");
    assert_eq!(base.get_str("turn_id"), Some("turn-1"));
    assert_eq!(base.get_str("tool_id"), Some("mcp__files__read_file"));
    assert_eq!(base.get_str("server_name"), Some("files"));
    assert!(base.get("error").is_none());
    let report = tool_trace_payload(&done, "turn-1");
    assert!(report.get("error").is_none());
    assert!(report.get("deny_kind").is_none());

    let failed = outcome(Err("disk on fire"));
    let report = tool_trace_payload(&failed, "turn-1");
    assert_eq!(report.get_str("error"), Some("disk on fire"));
    assert_eq!(report.get_str("deny_kind"), Some("execution_error"));
}

#[test]
fn decisions_are_reported() {
    let call = outcome(Err("Denied pending approval: ask first"));
    let (words, payload) = rejected_outcome(&call, "turn-1", Some("no".to_string()), "req-1");
    assert_eq!(words, "Denied pending approval: no");
    assert_eq!(payload.get_str("approval_status"), Some("rejected"));
    assert_eq!(payload.get_str("approval_request_id"), Some("req-1"));
    assert_eq!(payload.get_str("error"), Some("Denied pending approval: no"));
    let (words, _) = rejected_outcome(&call, "turn-1", Some("  ".to_string()), "req-1");
    assert_eq!(words, "Denied pending approval: rejected by user");

    let payload = approved_outcome(&call, "turn-1", &Ok(action("done")), "req-2");
    assert_eq!(payload.get_str("approval_status"), Some("approved"));
    assert!(payload.get("error").is_none());
    let payload = approved_outcome(&call, "turn-1", &Err("broke".to_string()), "req-2");
    assert_eq!(payload.get_str("approval_status"), Some("approved"));
    assert_eq!(payload.get_str("error"), Some("broke"));
}

#[test]
fn deleting_in_two_steps_deletes_as_much_as_at_once() {
    let all = || {
        vec![
            row(1, "user"),
            row(2, "tool"),
            row(3, "assistant"),
            row(4, "user"),
            row(5, "tool"),
            row(6, "assistant"),
        ]
    };
    let first = delete_last_messages(&all(), 1);
    assert_eq!(first, vec![5, 6]);
    let left: Vec<MessageRow> = all()
        .into_iter()
        .filter(|row| !first.contains(&row.id))
        .collect();
    let second = delete_last_messages(&left, 2);
    assert_eq!(second, vec![2, 3, 4]);
    assert_eq!(delete_last_messages(&all(), 3), vec![2, 3, 4, 5, 6]);
}

#[test]
fn a_position_counts_visible_messages_only() {
    let rows = vec![row(1, "user"), row(2, "tool"), row(3, "assistant")];
    let target = locate_by_index("conv".to_string(), 1, &rows, "new".to_string()).unwrap();
    assert_eq!(target.message_id, 3);
    assert!(locate_by_index("conv".to_string(), 2, &rows, "new".to_string()).is_err());
}

#[test]
fn unknown_characters_are_refused_where_they_were_named() {
    let turn = |explicit: bool| WebhookTurn {
        text: "hi".to_string(),
        images: Vec::new(),
        character_id: "rin".to_string(),
        explicit,
        conversation_key: None,
        conversation_id: "webhook-1".to_string(),
    };
    assert!(!turn(true).profile_applied(Ok(true)).unwrap());
    assert!(turn(false).profile_applied(Ok(false)).unwrap());
    let refused = turn(true).profile_applied(Ok(false)).unwrap_err();
    assert_eq!(refused.status, 400);
    assert_eq!(refused.message, "Unknown character: rin");
    let failed = turn(false).profile_applied(Err("io".to_string())).unwrap_err();
    assert_eq!(failed.status, 500);
    assert_eq!(failed.message, "Failed to load character profile: io");
}

fn shown(path: &FilePath) -> String {
    String::from_utf8(path.bytes().clone()).expect("the path should be text")
}

#[test]
fn configuration_files_lie_in_the_data_directory() {
    assert!(shown(&bot_config_path()).ends_with("com.chyin.kokoro/bot_config.json"));
    assert!(shown(&legacy_telegram_config_path()).ends_with("com.chyin.kokoro/telegram_config.json"));
}

#[test]
fn the_token_variable_of_telegram_is_fixed() {
    let mut config = TelegramConfig::default();
    config.bot_token = Some("t".to_string());
    config.bot_token_env = Some("OTHER".to_string());
    let fixed = normalize_telegram_config_env(config);
    assert_eq!(fixed.bot_token_env.as_deref(), Some("TELEGRAM_BOT_TOKEN"));
    assert_eq!(fixed.bot_token.as_deref(), Some("t"));
}

#[test]
fn enabled_platforms_start_with_the_application() {
    let mut config = BotConfig::default();
    assert_eq!(
        BotRuntimeService::new(config.copy()).start_enabled(),
        (false, false, false)
    );
    config.discord.enabled = true;
    config.line.enabled = true;
    let mut runtime = BotRuntimeService::new(config);
    assert_eq!(runtime.start_enabled(), (false, true, true));
    assert!(!runtime.is_discord_running());
    assert_eq!(
        runtime.start_discord(Some("token".to_string())),
        Ok("token".to_string())
    );
    assert!(runtime.is_discord_running());
    runtime.discord_finished();
    assert!(!runtime.is_discord_running());
}

#[test]
fn a_stream_ends_with_what_was_held_back() {
    let stream = RoundStream::new()
        .text("Hi [TOOL_CALL:look] there")
        .thought("hm")
        .data(JsonValue::Bool(true));
    let (stream, shown) = stream.show(3);
    assert_eq!(shown.as_deref(), Some("Hi "));
    assert_eq!(stream.remainder().as_deref().map(str::trim), Some("there"));
    let (response, reasoning, data) = stream.done();
    assert_eq!(response, "Hi [TOOL_CALL:look] there");
    assert_eq!(reasoning, "hm");
    assert_eq!(data.len(), 1);
    let tag_only = RoundStream::new().text("[TOOL_CALL:look]");
    assert_eq!(tag_only.remainder(), None);
}
