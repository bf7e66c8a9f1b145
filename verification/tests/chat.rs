//! Chat turns: payloads, tool reports, approvals and cancelling.

use kokoro::approval::{PendingToolApprovalState, ToolApprovalDecision};
use kokoro::cancellation::TurnCancellationState;
use kokoro::chat::{
    apply_before_llm_request_payload, build_before_llm_request_payload, build_chat_error_event,
    build_chat_hook_payload, build_effective_before_llm_request,
    insert_vision_context_before_latest_user, is_proactive_noop_response, plain_llm_message,
    vision_context_metadata_value, BeforeLlmRequestMessage, BeforeLlmRequestPayload, HookPayload,
    VisionObservation,
};
use kokoro::error::KokoroError;
use kokoro::history::{
    delete_last_messages, resolve_trailing_visible_user_message,
    should_insert_user_message_for_request, Message, MessageRow,
};
use kokoro::json::JsonValue;
use kokoro::memory::{should_use_structured_extraction, MemoryEventIngressOptions};
use kokoro::text_map::TextMap;
use kokoro::tool_trace::{
    approved_tool_error_payload, approved_tool_trace_payload, deny_kind_for_tool_error,
    pending_tool_trace_payload, rejected_tool_trace_payload, tool_error_payload,
    tool_success_payload, ActionResult, PermissionDecision, ToolExecutionOutcome,
};

fn build_memory_extraction_options_for_test(
    structured: bool,
    event_trigger: bool,
    intent_routing: bool,
) -> bool {
    should_use_structured_extraction(
        structured,
        &MemoryEventIngressOptions {
            enabled: event_trigger,
            event_cooldown_secs: 120,
            intent_routing_enabled: intent_routing,
        },
    )
}

fn sample_action_result(message: &str) -> ActionResult {
    ActionResult {
        success: true,
        message: message.to_string(),
        data: None,
    }
}

fn sample_tool_outcome_with_decision(
    permission_decision: PermissionDecision,
    result: Result<ActionResult, String>,
) -> ToolExecutionOutcome {
    ToolExecutionOutcome {
        tool_call_id: Some("call-1".to_string()),
        args: TextMap::new().with("path".to_string(), "README.md".to_string()),
        tool_name: "read_file".to_string(),
        tool_id: "mcp__filesystem__read_file".to_string(),
        source: Some("mcp".to_string()),
        server_name: Some("filesystem".to_string()),
        tool_needs_feedback: Some(true),
        permission_level: Some("safe".to_string()),
        risk_tags: vec!["read".to_string()],
        result,
        needs_feedback: true,
        permission_decision: Some(permission_decision),
    }
}

fn sample_tool_trace_outcome_for_test() -> ToolExecutionOutcome {
    sample_tool_outcome_with_decision(PermissionDecision::Allow, Ok(sample_action_result("ok")))
}

fn tool_error_payload_for_test(tool: &str, turn_id: &str, error: &str) -> JsonValue {
    let mut outcome =
        sample_tool_outcome_with_decision(PermissionDecision::Allow, Err(error.to_string()));
    outcome.tool_name = tool.to_string();
    tool_error_payload(&outcome, turn_id, error)
}

fn tool_trace_error_deny_kind(error: &str) -> Option<String> {
    tool_error_payload_for_test("tool", "turn-1", error)
        .get_str("deny_kind")
        .map(ToString::to_string)
}

fn tool_trace_error_message(error: &str) -> Option<String> {
    tool_error_payload_for_test("tool", "turn-1", error)
        .get_str("error")
        .map(ToString::to_string)
}

fn tool_trace_success_has_no_deny_kind() -> bool {
    tool_success_payload(
        &sample_tool_trace_outcome_for_test(),
        "turn-1",
        &sample_action_result("ok"),
    )
    .get("deny_kind")
    .is_none()
}

fn tool_trace_success_message() -> Option<String> {
    tool_success_payload(
        &sample_tool_trace_outcome_for_test(),
        "turn-1",
        &sample_action_result("ok"),
    )
    .get("result")
    .and_then(|value| value.get_str("message"))
    .map(ToString::to_string)
}

fn array_len(value: &JsonValue, key: &str) -> Option<usize> {
    match value.get(key) {
        Some(JsonValue::Array(items)) => Some(items.len()),
        _ => None,
    }
}

#[test]
fn chat_memory_ingress_structured_path_requires_both_flags() {
    assert!(build_memory_extraction_options_for_test(true, true, true));
    assert!(!build_memory_extraction_options_for_test(true, true, false));
    assert!(!build_memory_extraction_options_for_test(true, false, true));
}

#[test]
fn chat_memory_ingress_keeps_structured_disabled_without_flag() {
    assert!(!build_memory_extraction_options_for_test(false, true, true));
}

#[test]
fn chat_memory_ingress_keeps_structured_disabled_without_event_trigger() {
    assert!(!build_memory_extraction_options_for_test(true, false, true));
}

#[test]
fn chat_memory_ingress_keeps_structured_disabled_without_intent_routing() {
    assert!(!build_memory_extraction_options_for_test(true, true, false));
}

#[test]
fn chat_memory_ingress_enables_structured_when_all_flags_on() {
    assert!(build_memory_extraction_options_for_test(true, true, true));
}

#[test]
fn chat_memory_ingress_no_structured_without_enable_flag() {
    assert!(!build_memory_extraction_options_for_test(false, true, true));
}

#[test]
fn chat_memory_ingress_no_structured_without_trigger_flag() {
    assert!(!build_memory_extraction_options_for_test(true, false, true));
}

#[test]
fn chat_memory_ingress_no_structured_without_routing_flag() {
    assert!(!build_memory_extraction_options_for_test(true, true, false));
}

#[test]
fn chat_memory_ingress_structured_enabled_only_when_all_are_enabled() {
    assert!(build_memory_extraction_options_for_test(true, true, true));
}

#[test]
fn test_build_chat_error_event_contains_observability_fields() {
    let payload = build_chat_error_event("llm_stream", "provider timeout", "turn-123", true);

    assert_eq!(payload.code, "CHAT_STREAM_ERROR");
    assert_eq!(payload.stage, "llm_stream");
    assert_eq!(payload.retryable, true);
    assert_eq!(payload.trace_id, "turn-123");
    assert_eq!(payload.message, "provider timeout");
}

#[test]
fn test_chat_error_event_serializes_to_json_with_trace_id() {
    let payload = build_chat_error_event("llm_stream", "provider timeout", "turn-abc", true);
    let value = payload.to_value();

    assert_eq!(value.get_str("trace_id"), Some("turn-abc"));
    assert_eq!(value.get_str("stage"), Some("llm_stream"));
    assert_eq!(value.get_str("code"), Some("CHAT_STREAM_ERROR"));
}

#[test]
fn test_build_chat_hook_payload_preserves_character_and_hidden() {
    let payload = build_chat_hook_payload(
        Some("conv-1".to_string()),
        "char-1",
        Some("turn-1".to_string()),
        Some("hello".to_string()),
        None,
        None,
        true,
    );

    let HookPayload::Chat(chat) = payload;

    assert_eq!(chat.conversation_id.as_deref(), Some("conv-1"));
    assert_eq!(chat.character_id, "char-1");
    assert_eq!(chat.turn_id.as_deref(), Some("turn-1"));
    assert_eq!(chat.message.as_deref(), Some("hello"));
    assert!(chat.hidden);
}

#[test]
fn test_build_chat_hook_payload_keeps_final_response_only() {
    let payload = build_chat_hook_payload(
        None,
        "char-2",
        Some("turn-2".to_string()),
        Some("user".to_string()),
        Some("final response".to_string()),
        None,
        false,
    );

    let HookPayload::Chat(chat) = payload;

    assert_eq!(chat.response.as_deref(), Some("final response"));
    assert_eq!(chat.tool_round, None);
    assert!(!chat.hidden);
}

#[test]
fn test_apply_before_llm_request_payload_uses_modified_request_for_hidden_message() {
    let payload = BeforeLlmRequestPayload {
        conversation_id: Some("conv-1".to_string()),
        character_id: "char-1".to_string(),
        turn_id: Some("turn-1".to_string()),
        hidden: true,
        request_message: "modified hidden".to_string(),
        messages: vec![
            BeforeLlmRequestMessage {
                role: "system".to_string(),
                content: "system prompt".to_string(),
            },
            BeforeLlmRequestMessage {
                role: "user".to_string(),
                content: "modified user".to_string(),
            },
        ],
    };

    let original_prompt_messages = vec![
        Message {
            role: "system".to_string(),
            content: "system prompt".to_string(),
            metadata: None,
        },
        Message {
            role: "user".to_string(),
            content: "hello".to_string(),
            metadata: None,
        },
    ];

    let (request_message, client_messages) =
        apply_before_llm_request_payload(payload, &original_prompt_messages);

    assert_eq!(request_message, "modified hidden");
    assert_eq!(client_messages.len(), 2);
    assert_eq!(client_messages[0].content, "system prompt");
    assert_eq!(client_messages[1].content, "modified user");
}

#[test]
fn test_build_effective_before_llm_request_preserves_prompt_order() {
    let prompt_messages = vec![
        Message {
            role: "system".to_string(),
            content: "system prompt".to_string(),
            metadata: None,
        },
        Message {
            role: "user".to_string(),
            content: "hello".to_string(),
            metadata: None,
        },
    ];

    let (request_message, client_messages) = build_effective_before_llm_request(
        Some("conv-1".to_string()),
        "char-1",
        Some("turn-1".to_string()),
        "hello".to_string(),
        false,
        &prompt_messages,
    );

    assert_eq!(request_message, "hello");
    assert_eq!(client_messages.len(), 2);
    assert_eq!(client_messages[0].content, "system prompt");
    assert_eq!(client_messages[1].content, "hello");
}

#[test]
fn metadata_stay_with_a_message_whose_role_is_unchanged() {
    let prompt_messages = vec![Message {
        role: "user".to_string(),
        content: "hello".to_string(),
        metadata: Some(JsonValue::Bool(true)),
    }];
    let mut payload = build_before_llm_request_payload(
        None,
        "char-1",
        None,
        "hello".to_string(),
        false,
        &prompt_messages,
    );
    payload.messages[0].content = "changed".to_string();
    let (_, kept) = apply_before_llm_request_payload(payload, &prompt_messages);
    assert!(matches!(kept[0].metadata, Some(JsonValue::Bool(true))));

    let mut payload = build_before_llm_request_payload(
        None,
        "char-1",
        None,
        "hello".to_string(),
        false,
        &prompt_messages,
    );
    payload.messages[0].role = "system".to_string();
    let (_, lost) = apply_before_llm_request_payload(payload, &prompt_messages);
    assert!(lost[0].metadata.is_none());
}

#[test]
fn proactive_noop_accepts_empty_and_pass_only() {
    assert!(is_proactive_noop_response(""));
    assert!(is_proactive_noop_response("  \n"));
    assert!(is_proactive_noop_response("PASS"));
    assert!(is_proactive_noop_response(" pass "));
    assert!(!is_proactive_noop_response("pass for now"));
    assert!(!is_proactive_noop_response("A short comment"));
}

#[test]
fn vision_context_inserts_before_current_hidden_user_message() {
    let observation = VisionObservation {
        id: "obs-1".to_string(),
        captured_at: "2026-01-01T00:00:00+00:00".to_string(),
        analyzed_at: "2026-01-01T00:00:00+00:00".to_string(),
        summary: "Current screen summary".to_string(),
        source: "auto".to_string(),
    };
    let mut messages = vec![
        plain_llm_message("system", "system"),
        plain_llm_message("user", "older visible user"),
        plain_llm_message("user", "current hidden instruction"),
    ];

    insert_vision_context_before_latest_user(
        &mut messages,
        plain_llm_message("user", "[Screen context]\nCurrent screen summary"),
    );

    assert_eq!(messages.len(), 4);
    assert_eq!(messages[0].text, "system");
    assert_eq!(messages[1].text, "older visible user");
    assert_eq!(messages[2].text, "[Screen context]\nCurrent screen summary");
    assert_eq!(messages[3].text, "current hidden instruction");

    let metadata = vision_context_metadata_value(&observation);
    assert_eq!(metadata.get_str("type"), Some("vision_observation"));
    assert_eq!(metadata.get_str("observation_id"), Some("obs-1"));
}

#[test]
fn test_deny_kind_for_tool_error_maps_known_prefixes() {
    assert_eq!(
        deny_kind_for_tool_error(
            "Denied pending approval: permission level 'elevated' requires approval"
        ),
        "pending_approval"
    );
    assert_eq!(
        deny_kind_for_tool_error("Denied by fail-closed policy: blocked risk tag 'sensitive'"),
        "fail_closed"
    );
    assert_eq!(
        deny_kind_for_tool_error("Denied by policy: blocked risk tag 'read'"),
        "policy_denied"
    );
    assert_eq!(
        deny_kind_for_tool_error("Denied by hook: blocked"),
        "hook_denied"
    );
}

#[test]
fn test_deny_kind_for_tool_error_defaults_to_execution_error() {
    assert_eq!(
        deny_kind_for_tool_error("database timeout"),
        "execution_error"
    );
}

#[test]
fn test_tool_error_payload_includes_deny_kind_and_original_error() {
    assert_eq!(
        tool_trace_error_deny_kind("Denied by policy: blocked risk tag 'read'"),
        Some("policy_denied".to_string())
    );
    assert_eq!(
        tool_trace_error_message("Denied by policy: blocked risk tag 'read'"),
        Some("Denied by policy: blocked risk tag 'read'".to_string())
    );
}

#[test]
fn tool_error_payload_prefers_permission_decision_over_error_prefix() {
    let outcome = sample_tool_outcome_with_decision(
        PermissionDecision::DenyFailClosed {
            reason: "boom".into(),
        },
        Err("custom message without prefix".to_string()),
    );
    let payload = tool_error_payload(&outcome, "turn-1", "custom message without prefix");
    assert_eq!(payload.get_str("deny_kind"), Some("fail_closed"));
}

#[test]
fn tool_trace_error_deny_kind_prefers_outcome_decision_when_available() {
    let outcome = sample_tool_outcome_with_decision(
        PermissionDecision::DenyPolicy {
            reason: "blocked risk tag 'read'".into(),
        },
        Err("random message without prefix".to_string()),
    );
    let payload = tool_error_payload(&outcome, "turn-1", "random message without prefix");

    assert_eq!(payload.get_str("deny_kind"), Some("policy_denied"));
}

#[test]
fn test_tool_success_payload_keeps_result_without_deny_kind() {
    assert!(tool_trace_success_has_no_deny_kind());
    assert_eq!(tool_trace_success_message(), Some("ok".to_string()));
}

#[test]
fn test_pending_approval_trace_payload_includes_request_id_and_requested_status() {
    let payload = pending_tool_trace_payload(
        &sample_tool_trace_outcome_for_test(),
        "turn-1",
        "Denied pending approval: risk tag 'write' requires approval",
        "req-1",
    );
    assert_eq!(payload.get_str("approval_request_id"), Some("req-1"));
    assert_eq!(payload.get_str("approval_status"), Some("requested"));
    assert_eq!(payload.get_str("deny_kind"), Some("pending_approval"));
}

#[test]
fn test_approval_result_payloads_include_resolved_status() {
    let outcome = sample_tool_trace_outcome_for_test();
    let approved =
        approved_tool_trace_payload(&outcome, "turn-1", &sample_action_result("ok"), "req-1");
    assert_eq!(approved.get_str("approval_status"), Some("approved"));
    assert_eq!(approved.get_str("approval_request_id"), Some("req-1"));

    let rejected = rejected_tool_trace_payload(
        &outcome,
        "turn-1",
        "Denied pending approval: rejected by user",
        "req-1",
    );
    assert_eq!(rejected.get_str("approval_status"), Some("rejected"));
    assert_eq!(rejected.get_str("approval_request_id"), Some("req-1"));
}

fn check_identity(payload: &JsonValue) {
    assert_eq!(payload.get_str("source"), Some("mcp"));
    assert_eq!(payload.get_str("server_name"), Some("filesystem"));
    assert_eq!(payload.get_bool("needs_feedback"), Some(true));
    assert_eq!(payload.get_str("permission_level"), Some("safe"));
    assert_eq!(array_len(payload, "risk_tags"), Some(1));
}

#[test]
fn test_tool_trace_payloads_include_identity_and_permission_fields() {
    let outcome = sample_tool_trace_outcome_for_test();
    let success = tool_success_payload(&outcome, "turn-1", &sample_action_result("ok"));
    assert_eq!(success.get_str("tool"), Some("read_file"));
    assert_eq!(
        success.get_str("tool_id"),
        Some("mcp__filesystem__read_file")
    );
    check_identity(&success);

    let pending = pending_tool_trace_payload(
        &outcome,
        "turn-1",
        "Denied pending approval: permission level 'elevated' requires approval",
        "req-1",
    );
    check_identity(&pending);
    assert_eq!(pending.get_str("approval_request_id"), Some("req-1"));
    assert_eq!(pending.get_str("approval_status"), Some("requested"));

    let approved =
        approved_tool_trace_payload(&outcome, "turn-1", &sample_action_result("ok"), "req-1");
    check_identity(&approved);
    assert_eq!(approved.get_str("approval_status"), Some("approved"));

    let rejected = rejected_tool_trace_payload(
        &outcome,
        "turn-1",
        "Denied pending approval: rejected by user",
        "req-1",
    );
    check_identity(&rejected);
    assert_eq!(rejected.get_str("approval_status"), Some("rejected"));

    let approved_error =
        approved_tool_error_payload(&outcome, "turn-1", "execution failed", "req-1");
    check_identity(&approved_error);
    assert_eq!(approved_error.get_str("approval_status"), Some("approved"));
}

#[test]
fn test_pending_tool_approval_state_generates_request_id_and_resolves_approve() {
    let mut state = PendingToolApprovalState::new();
    let request_id = state.register(
        "turn-1".to_string(),
        "builtin__write_note".to_string(),
        "write_note".to_string(),
        TextMap::new().with("query".to_string(), "kokoro".to_string()),
    );

    assert!(!request_id.is_empty());
    assert!(state.take_receiver(&request_id));
    assert!(!state.take_receiver(&request_id));
    assert!(state
        .resolve(&request_id, ToolApprovalDecision::Approved, true)
        .is_ok());
    match state.decision(&request_id).expect("decision should resolve") {
        ToolApprovalDecision::Approved => {}
        other => panic!("expected approved decision, got {other:?}"),
    }
}

#[test]
fn test_pending_tool_approval_state_resolves_reject_and_unknown_id_errors() {
    let mut state = PendingToolApprovalState::new();
    let request_id = state.register(
        "turn-2".to_string(),
        "builtin__write_note".to_string(),
        "write_note".to_string(),
        TextMap::new(),
    );

    assert!(state.take_receiver(&request_id));
    let rejection = ToolApprovalDecision::Rejected {
        reason: Some("user rejected".to_string()),
    };
    assert!(state.resolve(&request_id, rejection, true).is_ok());
    match state.decision(&request_id).expect("decision should resolve") {
        ToolApprovalDecision::Rejected { reason } => {
            assert_eq!(reason.as_deref(), Some("user rejected"));
        }
        other => panic!("expected rejected decision, got {other:?}"),
    }
    assert!(state
        .resolve("missing", ToolApprovalDecision::Approved, true)
        .is_err());
}

#[test]
fn pending_tool_approval_state_rejects_second_resolution() {
    let mut state = PendingToolApprovalState::new();
    let request_id = state.register(
        "turn-1".into(),
        "tool-1".into(),
        "tool".into(),
        TextMap::new(),
    );

    assert!(state
        .resolve(&request_id, ToolApprovalDecision::Approved, true)
        .is_ok());

    match state.resolve(
        &request_id,
        ToolApprovalDecision::Rejected { reason: None },
        true,
    ) {
        Err(KokoroError::Validation(message)) => {
            assert!(message.contains("already resolved"));
        }
        other => panic!("expected already-resolved validation error, got {other:?}"),
    }
    assert!(matches!(
        state.decision(&request_id),
        Ok(ToolApprovalDecision::Approved)
    ));
}

#[test]
fn pending_tool_approval_state_keeps_unknown_id_error_distinct() {
    let mut state = PendingToolApprovalState::new();
    match state.resolve("missing", ToolApprovalDecision::Approved, true) {
        Err(KokoroError::Validation(message)) => {
            assert!(message.contains("Unknown approval request"));
        }
        other => panic!("expected unknown-request validation error, got {other:?}"),
    }
}

#[test]
fn a_decision_that_reaches_nobody_is_refused_and_forgotten() {
    let mut state = PendingToolApprovalState::new();
    state.register_as(
        "req-1",
        "turn-1".into(),
        "tool-1".into(),
        "tool".into(),
        TextMap::new(),
    );
    assert!(state.take_receiver("req-1"));
    match state.resolve("req-1", ToolApprovalDecision::Approved, false) {
        Err(KokoroError::Validation(message)) => {
            assert_eq!(
                message,
                "Approval request 'req-1' for tool 'tool' is no longer pending"
            );
        }
        other => panic!("expected an error, got {other:?}"),
    }
    match state.decision("req-1") {
        Err(KokoroError::Validation(message)) => {
            assert_eq!(message, "Approval request 'req-1' was dropped");
        }
        other => panic!("expected an error, got {other:?}"),
    }
    match state.resolve("req-1", ToolApprovalDecision::Approved, true) {
        Err(KokoroError::Validation(message)) => {
            assert_eq!(message, "Unknown approval request 'req-1'");
        }
        other => panic!("expected an error, got {other:?}"),
    }
}

#[test]
fn turn_cancellation_state_register_cancel_and_idempotent() {
    let mut state = TurnCancellationState::new();

    state.register_turn("turn-1");
    assert!(!state.is_cancelled("turn-1"));

    assert!(state.cancel_turn("turn-1", Some("user".into())).is_ok());
    assert!(state.is_cancelled("turn-1"));

    assert!(state.cancel_turn("turn-1", Some("again".into())).is_ok());
    assert!(state.is_cancelled("turn-1"));
}

#[test]
fn cancelled_turn_stops_before_tool_execution() {
    let mut state = TurnCancellationState::new();
    state.register_turn("turn-1");
    state
        .cancel_turn("turn-1", Some("user".into()))
        .expect("cancel should succeed");

    let mut tool_execute_count = 0usize;
    let result = state.ensure_turn_not_cancelled("turn-1");
    if result.is_ok() {
        tool_execute_count += 1;
    }

    assert!(result.is_err());
    assert_eq!(tool_execute_count, 0);
}

#[test]
fn cancelled_turn_skips_delta_emit_payload_generation() {
    let mut state = TurnCancellationState::new();
    state.register_turn("turn-1");
    state
        .cancel_turn("turn-1", Some("user".into()))
        .expect("cancel should succeed");

    let payload = state.build_turn_delta_payload_if_not_cancelled("turn-1", "hello", None);
    assert!(payload.is_err());
}

#[test]
fn cancel_chat_turn_returns_error_for_unknown_turn_id() {
    let mut state = TurnCancellationState::new();
    let result = state.cancel_turn("not-exists", Some("user".into()));
    assert!(result.is_err());
    assert!(result.err().unwrap().contains("unknown turn_id"));
}

#[test]
fn should_insert_user_message_skips_when_hidden() {
    assert!(!should_insert_user_message_for_request(true, false, false));
    assert!(!should_insert_user_message_for_request(true, true, false));
    assert!(!should_insert_user_message_for_request(true, true, true));
}

#[test]
fn should_insert_user_message_always_inserts_for_normal_non_hidden_turn() {
    assert!(should_insert_user_message_for_request(false, false, false));
    assert!(should_insert_user_message_for_request(false, false, true));
}

#[test]
fn should_insert_user_message_skips_when_regenerating_and_history_has_trailing_user() {
    assert!(!should_insert_user_message_for_request(false, true, true));
}

#[test]
fn should_insert_user_message_heals_when_regenerating_but_history_lacks_trailing_user() {
    assert!(should_insert_user_message_for_request(false, true, false));
}

fn row(id: i64, role: &str, content: &str, metadata: Option<&str>) -> MessageRow {
    MessageRow {
        id,
        role: role.to_string(),
        content: content.to_string(),
        metadata: metadata.map(str::to_string),
    }
}

fn newest_first(rows: Vec<MessageRow>) -> Vec<MessageRow> {
    rows.into_iter().rev().take(50).collect()
}

fn weather_rows() -> Vec<MessageRow> {
    vec![
        row(1, "user", "What is the weather?", None),
        row(
            2,
            "assistant",
            "call weather",
            Some("{\"type\":\"assistant_tool_calls\"}"),
        ),
        row(
            3,
            "tool",
            "{\"temperature\": 25}",
            Some("{\"type\":\"tool_result\"}"),
        ),
        row(4, "assistant", "The weather is 25C sunny.", None),
    ]
}

#[test]
fn test_resolve_trailing_visible_user_message_with_tools() {
    let trailing_before = resolve_trailing_visible_user_message(&newest_first(weather_rows()));
    assert!(trailing_before.is_none());

    let gone = delete_last_messages(&weather_rows(), 1);
    assert_eq!(gone, vec![2, 3, 4]);
    let remaining: Vec<MessageRow> = weather_rows()
        .into_iter()
        .filter(|row| !gone.contains(&row.id))
        .collect();

    let trailing_after = resolve_trailing_visible_user_message(&newest_first(remaining));
    assert_eq!(
        trailing_after,
        Some((1, "What is the weather?".to_string()))
    );
    assert!(!should_insert_user_message_for_request(
        false,
        true,
        trailing_after.is_some()
    ));
}

#[test]
fn test_resolve_trailing_visible_user_message_in_long_conversation() {
    let mut rows = Vec::new();
    for i in 1..=25 {
        rows.push(row(2 * i - 1, "user", &format!("User question {}", i), None));
        rows.push(row(2 * i, "assistant", &format!("Assistant reply {}", i), None));
    }
    rows.retain(|row| row.id != 50);

    let trailing = resolve_trailing_visible_user_message(&newest_first(rows));
    assert!(trailing.is_some());
    let (id, content) = trailing.unwrap();
    assert_eq!(id, 49);
    assert_eq!(content, "User question 25");
    assert!(!should_insert_user_message_for_request(false, true, true));
}
