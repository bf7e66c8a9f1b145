//! What is visible of a conversation, deleting its last messages, and settings.

use kokoro::context::{
    context_settings_value, get_jailbreak_prompt, session_has_summary, set_context_settings,
    set_user_name, set_user_persona, summary_model, summary_request, summary_to_store,
    switch_value, ContextSettings, EndSessionRequest, UserProfileSettings,
};
use kokoro::history::{
    align_history, delete_last_in_memory, delete_last_messages, is_visible_message_meta,
    is_visible_message_raw, message_of_row, sync_after_delete, sync_history_window,
    truncate_message_content, Message,
    MessageRow,
};
use kokoro::json::{JsonObject, JsonValue};
use kokoro::paths::{
    app_file, context_settings_path, failure_events_log_path, jailbreak_prompt_path,
    memory_config_path, memory_upgrade_config_path, proactive_enabled_path,
    rotated_failure_events_log_path, user_profile_settings_path, FilePath,
};

fn shown(path: &FilePath) -> String {
    String::from_utf8(path.bytes().clone()).expect("the path should be text")
}

fn row(id: i64, role: &str, content: &str, metadata: Option<&str>) -> MessageRow {
    MessageRow {
        id,
        role: role.to_string(),
        content: content.to_string(),
        metadata: metadata.map(str::to_string),
    }
}

fn without(rows: Vec<MessageRow>, gone: &Vec<i64>) -> Vec<MessageRow> {
    rows.into_iter()
        .filter(|row| !gone.contains(&row.id))
        .collect()
}

fn ids(rows: &Vec<MessageRow>) -> Vec<i64> {
    rows.iter().map(|row| row.id).collect()
}

const CALLS: Option<&str> = Some("{\"type\":\"assistant_tool_calls\"}");
const RESULT: Option<&str> = Some("{\"type\":\"tool_result\"}");

fn typed(kind: &str) -> JsonValue {
    JsonObject::new()
        .with("type", JsonValue::Text(kind.to_string()))
        .done()
}

fn message(role: &str, content: &str, metadata: Option<JsonValue>) -> Message {
    Message {
        role: role.to_string(),
        content: content.to_string(),
        metadata,
    }
}

#[test]
fn memory_upgrade_config_roundtrip_uses_shared_path_rules() {
    let path = shown(&memory_upgrade_config_path());
    assert!(
        path.ends_with("com.chyin.kokoro/memory_upgrade_config.json")
            || path.ends_with("com.chyin.kokoro\\memory_upgrade_config.json")
    );
}

#[test]
fn application_files_have_their_names() {
    assert!(shown(&memory_config_path()).ends_with("com.chyin.kokoro/memory_system_config.json"));
    assert!(shown(&jailbreak_prompt_path()).ends_with("com.chyin.kokoro/jailbreak_prompt.json"));
    assert!(shown(&proactive_enabled_path()).ends_with("com.chyin.kokoro/proactive_enabled.json"));
    assert!(shown(&context_settings_path()).ends_with("com.chyin.kokoro/context_settings.json"));
    assert!(shown(&failure_events_log_path()).ends_with("com.chyin.kokoro/failure_events.jsonl"));
    assert!(
        shown(&rotated_failure_events_log_path()).ends_with("com.chyin.kokoro/failure_events.1.jsonl")
    );
    assert_eq!(
        shown(&user_profile_settings_path(&FilePath::from_text("/data/app"))),
        "/data/app/user_profile.json"
    );
    assert_eq!(shown(&app_file(None, "a.json")), "./com.chyin.kokoro/a.json");
    assert_eq!(
        shown(&app_file(Some(FilePath::from_text("/home/u/")), "a.json")),
        "/home/u/com.chyin.kokoro/a.json"
    );
}

#[test]
fn paths_need_not_be_text() {
    let home = FilePath::from_bytes(vec![b'/', 0xff, 0xfe]);
    assert_eq!(
        app_file(Some(home.copy()), "é").bytes().as_slice(),
        b"/\xff\xfe/com.chyin.kokoro/\xc3\xa9"
    );
    assert_eq!(shown(&home.join("/etc/a")), "/etc/a");
    assert_eq!(shown(&FilePath::from_text("").join("a")), "a");
    assert_eq!(shown(&FilePath::from_text("a").join("")), "a/");
}

#[test]
fn test_is_visible_message_classification() {
    assert!(!is_visible_message_raw("tool", None));
    assert!(!is_visible_message_raw(
        "tool",
        Some(r#"{"type":"tool_result"}"#)
    ));
    assert!(!is_visible_message_raw(
        "assistant",
        Some(r#"{"type":"assistant_tool_calls"}"#)
    ));
    assert!(!is_visible_message_raw(
        "assistant",
        Some(r#"{"type":"translation_instruction"}"#)
    ));

    assert!(is_visible_message_raw("user", None));
    assert!(is_visible_message_raw("user", Some(r#"{"images":[]}"#)));
    assert!(is_visible_message_raw("assistant", None));
    assert!(is_visible_message_raw(
        "assistant",
        Some(r#"{"turn_id":"t-1","translation":"hello"}"#)
    ));
    assert!(is_visible_message_raw(
        "context",
        Some(r#"{"type":"vision_context"}"#)
    ));
}

#[test]
fn metadata_decide_visibility_only_by_a_known_type() {
    assert!(!is_visible_message_meta("assistant", Some(&typed("tool_result"))));
    assert!(is_visible_message_meta("assistant", Some(&typed("other"))));
    assert!(is_visible_message_meta("assistant", None));
    assert!(is_visible_message_raw("assistant", Some("not json")));
}

#[test]
fn test_delete_last_messages_cleans_assistant_tool_calls_and_results() {
    let rows = || {
        vec![
            row(1, "user", "What is the weather?", None),
            row(2, "assistant", "call weather", CALLS),
            row(3, "tool", "{\"temp\": 25}", RESULT),
            row(4, "assistant", "It is 25C.", None),
        ]
    };
    let gone = delete_last_messages(&rows(), 1);
    let remaining = without(rows(), &gone);
    assert_eq!(
        ids(&remaining),
        vec![1],
        "Orphan assistant_tool_calls and tool_result rows must be deleted along with the assistant message"
    );

    let hist = sync_history_window(&remaining, 2000);
    assert_eq!(hist.len(), 1);
    assert_eq!(hist[0].role, "user");
    assert_eq!(hist[0].content, "What is the weather?");
}

#[test]
fn test_delete_last_messages_preserves_earlier_turns_tool_calls() {
    let rows = vec![
        row(1, "user", "Turn 1 User", None),
        row(2, "assistant", "Turn 1 ToolCall", CALLS),
        row(3, "tool", "Turn 1 Result", RESULT),
        row(4, "assistant", "Turn 1 Answer", None),
        row(5, "user", "Turn 2 User", None),
        row(6, "assistant", "Turn 2 ToolCall", CALLS),
        row(7, "tool", "Turn 2 Result", RESULT),
        row(8, "assistant", "Turn 2 Answer", None),
    ];

    let gone = delete_last_messages(&rows, 1);
    let remaining = without(rows, &gone);
    assert_eq!(ids(&remaining), vec![1, 2, 3, 4, 5]);

    let gone = delete_last_messages(&remaining, 2);
    let remaining = without(remaining, &gone);
    assert_eq!(ids(&remaining), vec![1]);
}

#[test]
fn test_delete_last_messages_in_memory_mode() {
    let mut hist = vec![
        message("user", "User prompt", None),
        message("assistant", "calling", Some(typed("assistant_tool_calls"))),
        message("tool", "result", Some(typed("tool_result"))),
        message("assistant", "Final answer", None),
    ];
    let boundary = delete_last_in_memory(&mut hist, 1, 3);
    assert_eq!(hist.len(), 1);
    assert_eq!(hist[0].role, "user");
    assert_eq!(hist[0].content, "User prompt");
    assert_eq!(boundary, 1);
}

#[test]
fn test_delete_last_messages_enforces_20_limit_and_truncation() {
    let mut rows = Vec::new();
    for i in 0..35 {
        let role = if i % 2 == 0 { "user" } else { "assistant" };
        let content = if i == 30 {
            "L".repeat(100)
        } else {
            format!("Message {i}")
        };
        rows.push(row(i, role, &content, None));
    }

    let gone = delete_last_messages(&rows, 1);
    let remaining = without(rows, &gone);
    assert_eq!(remaining.len(), 34);

    let (hist, boundary) = sync_after_delete(&remaining, 40);
    assert_eq!(
        hist.len(),
        20,
        "Memory history must enforce 20 message window limit"
    );
    assert_eq!(hist[0].content, "Message 14");
    let msg_30 = hist
        .iter()
        .find(|m| m.content.starts_with("LLLL"))
        .expect("Message 30 should be in history");
    assert!(msg_30.content.ends_with("…[truncated]"));
    assert_eq!(msg_30.content, format!("{}…[truncated]", "L".repeat(40)));
    assert_eq!(boundary, 20);
}

#[test]
fn the_boundary_after_a_deletion_is_the_length_of_the_history() {
    let rows = vec![row(1, "user", "u", None), row(2, "assistant", "a", CALLS)];
    let (hist, boundary) = sync_after_delete(&rows, 40);
    assert_eq!(hist.len(), 2);
    assert_eq!(boundary, 2);
    assert_eq!(sync_after_delete(&Vec::new(), 40).1, 0);
}

#[test]
fn stored_messages_come_back_in_full() {
    let long = "x".repeat(100);
    let kept = message_of_row(row(1, "assistant", &long, CALLS));
    assert_eq!(kept.role, "assistant");
    assert_eq!(kept.content, long);
    assert_eq!(
        kept.metadata.unwrap().get_str("type"),
        Some("assistant_tool_calls")
    );
    assert!(message_of_row(row(2, "user", "u", Some("not json"))).metadata.is_none());
}

#[test]
fn deleting_nothing_or_everything() {
    let rows = || vec![row(1, "tool", "r", RESULT), row(2, "user", "u", None)];
    assert_eq!(delete_last_messages(&rows(), 0), Vec::<i64>::new());
    assert_eq!(delete_last_messages(&rows(), 1), vec![1, 2]);
    assert_eq!(delete_last_messages(&rows(), 9), vec![1, 2]);
    let mut hist = vec![message("user", "u", None)];
    assert_eq!(delete_last_in_memory(&mut hist, 0, 9), 9);
    assert_eq!(hist.len(), 1);
}

#[test]
fn history_is_aligned_within_the_window() {
    let mut hist = Vec::new();
    for i in 0..20 {
        hist.push(message("assistant", &format!("a{i}"), None));
    }
    align_history(&mut hist, "question");
    assert_eq!(hist.len(), 20);
    assert_eq!(hist[0].content, "a1");
    assert_eq!(hist[19].role, "user");
    align_history(&mut hist, "other");
    assert_eq!(hist[19].content, "question");
}

#[test]
fn contents_are_cut_at_the_limit() {
    assert_eq!(truncate_message_content("héllo", 5), "héllo");
    assert_eq!(truncate_message_content("héllo", 2), "hé…[truncated]");
}

#[test]
fn context_settings_are_kept_within_bounds() {
    let low = set_context_settings(ContextSettings {
        strategy: "other".to_string(),
        max_message_chars: 3,
    });
    assert_eq!(low.strategy, "window");
    assert_eq!(low.max_message_chars, 100);
    let high = set_context_settings(ContextSettings {
        strategy: "summary".to_string(),
        max_message_chars: 60_000,
    });
    assert_eq!(high.strategy, "summary");
    assert_eq!(high.max_message_chars, 50_000);
    let value = context_settings_value(&high);
    assert_eq!(value.get_str("strategy"), Some("summary"));
    assert_eq!(value.get_u64("max_message_chars"), Some(50_000));
    assert_eq!(switch_value(true).get_bool("enabled"), Some(true));
}

#[test]
fn user_profile_keeps_what_is_not_changed() {
    let named = set_user_name(None, "Ann".to_string());
    assert_eq!(named.user_name, "Ann");
    assert_eq!(named.user_persona, "");
    let stored = UserProfileSettings {
        user_name: "Ann".to_string(),
        user_persona: "x".to_string(),
    };
    let changed = set_user_persona(Some(stored), "curious".to_string());
    assert_eq!(changed.user_name, "Ann");
    assert_eq!(changed.user_persona, "curious");
    assert_eq!(set_user_persona(None, "p".to_string()).user_name, "User");
}

#[test]
fn jailbreak_prompt_prefers_memory() {
    let s = |t: &str| Some(t.to_string());
    assert_eq!(get_jailbreak_prompt(s("m"), s("d")), ("m".to_string(), false));
    assert_eq!(get_jailbreak_prompt(None, s("d")), ("d".to_string(), true));
    assert_eq!(get_jailbreak_prompt(None, None), (String::new(), false));
}

#[test]
fn sessions_are_summed_up_only_with_memory_and_messages() {
    assert!(session_has_summary(true, 2));
    assert!(!session_has_summary(true, 1));
    assert!(!session_has_summary(false, 9));
    let messages = vec![message("user", "hi", None), message("assistant", "hello", None)];
    let (instruction, question) = summary_request(&messages, " Latin ");
    assert!(instruction.contains("Write the summary in Latin. If the conversation uses another language, translate or summarize it into Latin."));
    assert_eq!(
        question,
        "Summarize this conversation:\n\nuser: hi\nassistant: hello"
    );
    let (instruction, _) = summary_request(&messages, "  ");
    assert!(instruction.contains("in the language the users were speaking."));
    let request = EndSessionRequest {
        api_key: "k".to_string(),
        endpoint: None,
        model: None,
    };
    assert_eq!(summary_model(&request), "gpt-4");
    assert_eq!(summary_to_store(" done ", true).as_deref(), Some("done"));
    assert_eq!(summary_to_store(" done ", false), None);
    assert_eq!(summary_to_store("  ", true), None);
}
