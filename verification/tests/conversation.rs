//! Listing, loading and editing conversations.

use kokoro::conversation::{
    current_after_delete, is_pinned_conversation_state, list_conversations, load_conversation,
    locate_by_id, locate_by_index, plan_edit, update_conversation_state, ConversationInfo,
    ConversationMessage, EditConversationMessageRequest, EditLocator, EditTarget,
    UpdateConversationStateRequest,
};
use kokoro::error::KokoroError;
use kokoro::history::{sync_history_window, MessageRow};

fn row(id: i64, role: &str, content: &str, metadata: Option<&str>) -> MessageRow {
    MessageRow {
        id,
        role: role.to_string(),
        content: content.to_string(),
        metadata: metadata.map(str::to_string),
    }
}

fn request(
    conversation_id: Option<&str>,
    message_id: Option<i64>,
    visible_index: Option<usize>,
    new_content: &str,
) -> EditConversationMessageRequest {
    EditConversationMessageRequest {
        conversation_id: conversation_id.map(str::to_string),
        message_id,
        visible_index,
        new_content: new_content.to_string(),
    }
}

/// Finds the message of an edit in a store of one table.
fn locate(
    request: EditConversationMessageRequest,
    store: &Vec<(String, MessageRow)>,
    max_chars: usize,
) -> Result<EditTarget, KokoroError> {
    let plan = plan_edit(request, max_chars)?;
    match plan.locator {
        EditLocator::ById(id, wanted) => {
            let owner = store
                .iter()
                .find(|(_, row)| row.id == id)
                .map(|(conversation, _)| conversation.clone());
            locate_by_id(id, wanted.as_deref(), owner, plan.content)
        }
        EditLocator::ByIndex(conversation, index) => {
            let rows: Vec<MessageRow> = store
                .iter()
                .filter(|(owner, _)| *owner == conversation)
                .map(|(_, r)| row(r.id, &r.role, &r.content, r.metadata.as_deref()))
                .collect();
            locate_by_index(conversation, index, &rows, plan.content)
        }
    }
}

fn owned(conversation: &str, rows: Vec<MessageRow>) -> Vec<(String, MessageRow)> {
    rows.into_iter()
        .map(|row| (conversation.to_string(), row))
        .collect()
}

#[test]
fn test_edit_conversation_message_by_id_and_history_sync() {
    let mut store = owned("conv-1", vec![row(1, "user", "original message", None)]);
    let target = locate(
        request(Some("conv-1"), Some(1), None, "edited message content"),
        &store,
        2000,
    )
    .unwrap();
    assert!(target.message_written(1).is_ok());
    assert!(target.conversation_marked(1).is_ok());
    assert!(target.concerns(Some("conv-1")));
    let res = target.response();
    assert_eq!(res.message_id, 1);
    assert_eq!(res.updated_content, "edited message content");

    store[0].1.content = res.updated_content;
    let rows: Vec<MessageRow> = store.into_iter().map(|(_, row)| row).collect();
    let synced = sync_history_window(&rows, 2000);
    assert_eq!(synced.len(), 1);
    assert_eq!(synced[0].content, "edited message content");
}

#[test]
fn test_edit_conversation_message_rejects_cross_conversation_ownership() {
    let store = owned("conv-a", vec![row(1, "user", "message-a", None)]);
    let error = locate(
        request(Some("conv-b"), Some(1), None, "must-not-be-written"),
        &store,
        2000,
    )
    .unwrap_err();
    match error {
        KokoroError::Validation(words) => assert_eq!(
            words,
            "Message with id 1 does not belong to conversation conv-b"
        ),
        other => panic!("expected a validation error, got {other:?}"),
    }
}

#[test]
fn test_edit_conversation_message_by_id_uses_authoritative_conversation() {
    let store = owned("conv-a", vec![row(1, "user", "message-a", None)]);
    let target = locate(
        request(None, Some(1), None, "edited-message-a"),
        &store,
        2000,
    )
    .unwrap();
    assert_eq!(target.conversation_id, "conv-a");
    assert!(target.concerns(Some("conv-a")));
    assert!(!target.concerns(Some("conv-b")));
    assert!(!target.concerns(None));
    let response = target.response();
    assert_eq!(response.message_id, 1);
    assert_eq!(response.updated_content, "edited-message-a");
}

#[test]
fn test_edit_conversation_message_by_visible_index() {
    let store = owned(
        "conv-2",
        vec![
            row(1, "user", "question", None),
            row(
                2,
                "assistant",
                "calls",
                Some("{\"type\":\"assistant_tool_calls\"}"),
            ),
            row(3, "assistant", "answer", None),
        ],
    );
    let res = locate(
        request(Some("conv-2"), None, Some(1), "new answer content"),
        &store,
        2000,
    )
    .unwrap()
    .response();
    assert_eq!(res.message_id, 3);
    assert_eq!(res.updated_content, "new answer content");
}

#[test]
fn test_edit_conversation_message_with_interleaved_tools_projection() {
    let store = owned(
        "conv-tools",
        vec![
            row(1, "user", "Search web for weather", None),
            row(
                2,
                "assistant",
                "call tool",
                Some("{\"type\":\"assistant_tool_calls\"}"),
            ),
            row(
                3,
                "tool",
                "{\"temperature\": 25}",
                Some("{\"type\":\"tool_result\",\"tool\":\"weather\"}"),
            ),
            row(4, "assistant", "The weather is 25C sunny.", None),
            row(5, "user", "Thanks for the weather info!", None),
        ],
    );
    let res = locate(
        request(
            Some("conv-tools"),
            None,
            Some(2),
            "Thanks! What about tomorrow?",
        ),
        &store,
        2000,
    )
    .unwrap()
    .response();
    assert_eq!(
        res.message_id, 5,
        "visible_index 2 must resolve to id 5, skipping both assistant_tool_calls and tool_result"
    );
    assert_eq!(res.updated_content, "Thanks! What about tomorrow?");

    let res_by_id = locate(
        request(
            Some("conv-tools"),
            Some(5),
            None,
            "Direct message_id edit on user question",
        ),
        &store,
        2000,
    )
    .unwrap()
    .response();
    assert_eq!(res_by_id.message_id, 5);
    assert_eq!(
        res_by_id.updated_content,
        "Direct message_id edit on user question"
    );
}

#[test]
fn test_edit_conversation_message_validation_and_errors() {
    let store = Vec::new();
    let err = locate(request(Some("conv-1"), Some(1), None, "   "), &store, 2000).unwrap_err();
    assert!(matches!(err, KokoroError::Validation(_)));

    let err2 = locate(request(None, None, None, "valid text"), &store, 2000).unwrap_err();
    assert!(matches!(err2, KokoroError::Validation(_)));

    let err3 = locate(request(None, Some(999), None, "valid text"), &store, 2000).unwrap_err();
    assert!(matches!(err3, KokoroError::NotFound(_)));
}

#[test]
fn edits_that_meet_no_row_are_refused() {
    let words = |r: Result<(), KokoroError>| match r {
        Err(KokoroError::NotFound(words)) => words,
        other => panic!("expected an error, got {other:?}"),
    };
    let target = EditTarget {
        message_id: -4,
        conversation_id: "c".to_string(),
        content: "x".to_string(),
    };
    assert_eq!(
        words(target.message_written(0)),
        "Message with id -4 not found in conversation c"
    );
    assert_eq!(
        words(target.conversation_marked(2)),
        "Conversation c not found"
    );
    match locate_by_index("c".to_string(), 3, &Vec::new(), "x".to_string()) {
        Err(KokoroError::NotFound(words)) => {
            assert_eq!(words, "Message at index 3 not found in conversation c")
        }
        other => panic!("expected an error, got {other:?}"),
    }
}

#[test]
fn test_edit_conversation_message_truncates_overlong_content() {
    let store = owned("conv-trunc", vec![row(1, "user", "short text", None)]);
    let long_text = "12345678901234567890EXTRA_TEXT_EXCEEDING_LIMIT_HERE!";
    let res = locate(
        request(Some("conv-trunc"), Some(1), None, long_text),
        &store,
        20,
    )
    .unwrap()
    .response();
    assert_eq!(res.message_id, 1);
    assert_eq!(res.updated_content, "12345678901234567890…[truncated]");
}

fn info(id: &str, pinned_state: &str, updated_at: &str) -> ConversationInfo {
    ConversationInfo {
        id: id.to_string(),
        character_id: "char-1".to_string(),
        title: id.to_string(),
        topic: String::new(),
        pinned_state: pinned_state.to_string(),
        created_at: updated_at.to_string(),
        updated_at: updated_at.to_string(),
    }
}

#[test]
fn test_list_conversations_pinned_priority_and_updated_at() {
    let list = list_conversations(vec![
        info("conv-1", "", "2026-01-01T00:00:00Z"),
        info("conv-2", "{}", "2026-01-03T00:00:00Z"),
        info("conv-3", "{\"pinned\":true}", "2026-01-02T00:00:00Z"),
        info("conv-4", "{\"pinned\":false}", "2026-01-05T00:00:00Z"),
        info("conv-5", "{\"topic\":\"science\"}", "2026-01-04T00:00:00Z"),
    ]);

    assert_eq!(list.len(), 5);
    assert_eq!(list[0].id, "conv-3");
    assert_eq!(list[1].id, "conv-4");
    assert_eq!(list[2].id, "conv-5");
    assert_eq!(list[3].id, "conv-2");
    assert_eq!(list[4].id, "conv-1");
}

#[test]
fn conversations_of_the_same_time_keep_their_order() {
    let list = list_conversations(vec![
        info("a", "", "2026"),
        info("b", "", "2026"),
        info("c", "", "20260"),
    ]);
    let ids: Vec<&str> = list.iter().map(|c| c.id.as_str()).collect();
    assert_eq!(ids, vec!["c", "a", "b"]);
}

#[test]
fn test_is_pinned_conversation_state_matches_frontend_contract() {
    assert!(!is_pinned_conversation_state(""));
    assert!(!is_pinned_conversation_state("{}"));
    assert!(!is_pinned_conversation_state("   "));
    assert!(!is_pinned_conversation_state("not-json"));
    assert!(!is_pinned_conversation_state("{invalid"));
    assert!(!is_pinned_conversation_state("{\"topic\": \"science\"}"));
    assert!(!is_pinned_conversation_state("{\"pinned\": false}"));
    assert!(!is_pinned_conversation_state("{\"pinned\": 0}"));
    assert!(!is_pinned_conversation_state("{\"pinned\": null}"));
    assert!(!is_pinned_conversation_state("{\"pinned\": \"true\"}"));

    assert!(is_pinned_conversation_state("{\"pinned\": true}"));
    assert!(is_pinned_conversation_state(
        "{\"pinned\": true, \"pinned_at\": \"2026-01-01T00:00:00Z\"}"
    ));
}

#[test]
fn loading_keeps_tool_results_but_not_calls() {
    let message = |id: i64, metadata: Option<&str>| ConversationMessage {
        id,
        role: "assistant".to_string(),
        content: String::new(),
        metadata: metadata.map(str::to_string),
        created_at: String::new(),
    };
    let shown = load_conversation(vec![
        message(1, None),
        message(2, Some("{\"type\":\"assistant_tool_calls\"}")),
        message(3, Some("{\"type\":\"tool_result\"}")),
        message(4, Some("{\"type\":\"translation_instruction\"}")),
        message(5, Some("broken")),
    ]);
    let ids: Vec<i64> = shown.iter().map(|m| m.id).collect();
    assert_eq!(ids, vec![1, 3, 5]);
}

#[test]
fn deleting_the_current_conversation_leaves_none() {
    assert_eq!(current_after_delete(Some("a".to_string()), "a"), None);
    assert_eq!(
        current_after_delete(Some("a".to_string()), "b").as_deref(),
        Some("a")
    );
    assert_eq!(current_after_delete(None, "b"), None);
}

#[test]
fn conversation_state_keeps_what_is_not_given() {
    let request = UpdateConversationStateRequest {
        id: "c".to_string(),
        topic: None,
        pinned_state: Some("{\"pinned\":true}".to_string()),
    };
    assert_eq!(
        update_conversation_state(request, "t".to_string(), "{}".to_string()),
        ("t".to_string(), "{\"pinned\":true}".to_string())
    );
}
