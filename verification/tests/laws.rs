//! What holds over several calls, on concrete values.

use kokoro::bot_config::{load_bot_config_from_paths, BotConfig, TelegramConfig};
use kokoro::bot_reply::{ReplyRounds, ReplyStyle};
use kokoro::bot_runtime::{BotRuntimeService, KnownSecrets};
use kokoro::cancellation::TurnCancellationState;
use kokoro::chat_turn::{AfterTools, ChatTurn, DraftAction};
use kokoro::history::{
    delete_last_messages, resolve_trailing_visible_user_message,
    should_insert_user_message_for_request, MessageRow,
};
use kokoro::line::verify_line_signature;
use kokoro::tags::parse_tool_call_tags;
use kokoro::webhook::{map_webhook_conversation_to_character, webhook_conversation_key};

fn secrets() -> KnownSecrets {
    KnownSecrets {
        telegram_token: true,
        qq_app_id: true,
        qq_app_secret: true,
        discord_token: true,
        line_access_token: true,
        line_secret: true,
    }
}

#[test]
fn a_plain_response_is_sent_as_it_is() {
    for style in [ReplyStyle::Bot, ReplyStyle::Telegram] {
        let mut rounds = ReplyRounds::new(style, 3);
        assert!(rounds.next_round());
        assert!(rounds.round_response("  Hello there, friend. ").is_empty());
        assert!(!rounds.next_round());
        let reply = rounds.finish().unwrap();
        assert_eq!(reply.reply, "Hello there, friend.");
        assert_eq!(reply.translation, None);
        assert!(reply.image_prompts.is_empty());
    }
}

#[test]
fn an_unclosed_tag_keeps_those_before_it() {
    let (text, calls) = parse_tool_call_tags("[TOOL_CALL:a] x [TOOL_CALL:b");
    assert_eq!(text, "[TOOL_CALL:a] x [TOOL_CALL:b");
    assert!(calls.is_empty());
    let (text, calls) = parse_tool_call_tags("[TOOL_CALL:a] x [TOOL_CALL:b]");
    assert_eq!(text, "x");
    assert_eq!(calls.len(), 2);
    assert_eq!(calls[0].name, "a");
    assert_eq!(calls[1].name, "b");
}

#[test]
fn the_model_is_asked_as_often_as_allowed() {
    let mut rounds = ReplyRounds::new(ReplyStyle::Bot, 2);
    let mut asked = 0;
    while rounds.next_round() {
        asked += 1;
        assert_eq!(rounds.round_response("[TOOL_CALL:again]").len(), 1);
        let told = rounds.tools_ran(&vec!["- again: ok".to_string()], true, Vec::new());
        assert_eq!(
            told.as_deref(),
            Some("[Tool results]\n- again: ok\nContinue your response naturally.")
        );
    }
    assert_eq!(asked, 2);

    let mut never = ReplyRounds::new(ReplyStyle::Bot, 0);
    assert!(never.next_round());
    assert!(!never.next_round());
}

#[test]
fn a_hidden_turn_stores_nothing_while_it_runs() {
    let turns = TurnCancellationState::new();
    let mut turn = ChatTurn::new("t".to_string(), "c".to_string(), None, true, 2);
    let mut asked = 0;
    while turn.begin_round(&turns).unwrap() {
        asked += 1;
        turn.round_response("Hi [TOOL_CALL:look]", "");
        assert!(matches!(turn.draft_action(false), DraftAction::Nothing));
        let next = turn.after_tools(false, true, &vec!["- look: x".to_string()]);
        assert!(matches!(next, AfterTools::Told(_)));
    }
    assert_eq!(asked, 2);
    assert_eq!(turn.full_response(), "Hi Hi");
}

#[test]
fn a_late_end_does_not_stop_a_newer_connection() {
    let mut config = BotConfig::default();
    config.qq.enabled = true;
    let mut runtime = BotRuntimeService::new(config);
    let first = runtime.start_qq(secrets()).unwrap();
    assert!(runtime.start_qq(secrets()).is_err());
    assert_eq!(runtime.stop_qq(), Ok(first));
    let second = runtime.start_qq(secrets()).unwrap();
    assert_ne!(first, second);
    runtime.qq_finished(first);
    assert!(runtime.is_qq_started());
    runtime.qq_finished(second);
    assert!(!runtime.is_qq_started());
}

#[test]
fn groups_and_users_have_conversations_of_their_own() {
    let group = |user: &str| {
        webhook_conversation_key(Some("group"), Some("g1"), Some(user), Some("app"))
    };
    assert_eq!(group("ann"), group("bob"));
    let private = |place: &str| webhook_conversation_key(None, Some(place), Some("g1"), None);
    assert_eq!(private("here"), private("there"));
    assert_ne!(group("ann"), private("here"));
    let key = group("ann");
    assert_ne!(
        map_webhook_conversation_to_character("a", key.as_deref()),
        map_webhook_conversation_to_character("a:group", key.as_deref())
    );
}

#[test]
fn names_with_colons_can_meet() {
    assert_eq!(
        map_webhook_conversation_to_character("a:b", Some("c")),
        map_webhook_conversation_to_character("a", Some("b:c"))
    );
}

#[test]
fn a_configuration_that_was_taken_over_is_found_again() {
    let mut legacy = TelegramConfig::default();
    legacy.enabled = true;
    legacy.bot_token = Some("token".to_string());
    let (config, migrated) = load_bot_config_from_paths(false, BotConfig::default(), Some(legacy));
    assert!(migrated);
    assert_eq!(config.telegram.bot_token.as_deref(), Some("token"));
    let (again, migrated) = load_bot_config_from_paths(true, config.copy(), None);
    assert!(!migrated);
    assert_eq!(again.telegram.bot_token.as_deref(), Some("token"));
    let mut other = TelegramConfig::default();
    other.bot_token = Some("other".to_string());
    let (kept, migrated) = load_bot_config_from_paths(true, config, Some(other));
    assert!(!migrated);
    assert_eq!(kept.telegram.bot_token.as_deref(), Some("token"));
}

#[test]
fn a_reply_made_anew_finds_the_message_it_answers() {
    let row = |id: i64, role: &str| MessageRow {
        id,
        role: role.to_string(),
        content: format!("m{id}"),
        metadata: None,
    };
    let rows = vec![row(1, "user"), row(2, "tool"), row(3, "assistant")];
    let gone = delete_last_messages(&rows, 1);
    let newest: Vec<MessageRow> = rows
        .into_iter()
        .filter(|row| !gone.contains(&row.id))
        .rev()
        .collect();
    let trailing = resolve_trailing_visible_user_message(&newest);
    assert_eq!(trailing, Some((1, "m1".to_string())));
    assert!(!should_insert_user_message_for_request(
        false,
        true,
        trailing.is_some()
    ));
}

#[test]
fn an_empty_secret_signs_too() {
    // HMAC-SHA256 of the empty message under the empty key, in base64.
    let signature = "thNnmggU2ex3L5XXeMNfxf8Wl8STcVZTxscSFEKSxa0=";
    assert!(verify_line_signature("", b"", signature));
    assert!(verify_line_signature("", b"", &format!(" {signature}\n")));
    assert!(!verify_line_signature("", b"x", signature));
}
