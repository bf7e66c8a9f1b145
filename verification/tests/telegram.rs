//! The Telegram bot's text, commands and limits.

use kokoro::bot_config::TelegramConfig;
use kokoro::bot_reply::{ReplyRounds, ReplyStyle};
use kokoro::reply_text::extract_translate_tags;
use kokoro::telegram::{
    handle_message, image_prompts_of, is_chat_allowed, parse_command, photo_caption,
    photo_data_url, photo_sync_text, route_message, telegram_answer, telegram_character,
    telegram_reply_text,
    voice_gate, voice_outcome, Command, MessageRoute, MessageStep, RateLimiter, SessionMode,
    Sessions, VoiceOutcome, RATE_LIMIT_MAX, RATE_LIMIT_WINDOW_NANOS,
};
use kokoro::telegram_text::{compact_newlines, parse_tool_call_tags, strip_control_tags};

#[test]
fn test_compact_newlines_removes_ellipsis_only_lines() {
    let input = "Hello\n…\nWorld";
    assert_eq!(compact_newlines(input), "Hello\nWorld");
}

#[test]
fn test_compact_newlines_removes_dot_only_lines() {
    let input = "Hello\n...\nWorld";
    assert_eq!(compact_newlines(input), "Hello\nWorld");
}

#[test]
fn test_compact_newlines_no_change_needed() {
    let input = "Hello\nWorld";
    assert_eq!(compact_newlines(input), "Hello\nWorld");
}

#[test]
fn test_compact_newlines_empty_string() {
    assert_eq!(compact_newlines(""), "");
}

#[test]
fn test_strip_control_tags_removes_action_tag() {
    let input = "Hello [ACTION:wave] world";
    assert_eq!(strip_control_tags(input), "Helloworld");
}

#[test]
fn test_strip_control_tags_removes_emotion_tag() {
    let input = "[EMOTION:happy] Nice to meet you";
    assert_eq!(strip_control_tags(input), "Nice to meet you");
}

#[test]
fn test_strip_control_tags_no_tags_unchanged() {
    let input = "Just a normal message";
    assert_eq!(strip_control_tags(input), "Just a normal message");
}

#[test]
fn test_strip_control_tags_multiple_tags() {
    let input = "[ACTION:nod] Hello [EMOTION:curious] there";
    let result = strip_control_tags(input);
    assert!(!result.contains("[ACTION:"));
    assert!(!result.contains("[EMOTION:"));
    assert!(result.contains("Hello"));
    assert!(result.contains("there"));
}

#[test]
fn test_extract_translate_tags_basic() {
    let input = "こんにちは [TRANSLATE:Hello]";
    let (text, translation) = extract_translate_tags(input);
    assert_eq!(text, "こんにちは");
    assert_eq!(translation, Some("Hello".to_string()));
}

#[test]
fn test_extract_translate_tags_none() {
    let input = "Hello world";
    let (text, translation) = extract_translate_tags(input);
    assert_eq!(text, "Hello world");
    assert!(translation.is_none());
}

#[test]
fn test_parse_tool_call_tags_no_tags() {
    let input = "Just a response";
    let (text, calls) = parse_tool_call_tags(input);
    assert_eq!(text, "Just a response");
    assert!(calls.is_empty());
}

#[test]
fn test_parse_tool_call_tags_with_params() {
    let input = "Sure! [TOOL_CALL:get_time|tz=UTC]";
    let (text, calls) = parse_tool_call_tags(input);
    assert_eq!(calls.len(), 1);
    assert_eq!(calls[0].name, "get_time");
    assert_eq!(calls[0].args.get("tz"), Some(&"UTC".to_string()));
    assert!(!text.contains("[TOOL_CALL:"));
}

#[test]
fn image_tags_do_not_appear_in_telegram() {
    assert_eq!(strip_control_tags("[IMAGE_PROMPT:x]"), "");
    assert_eq!(
        strip_control_tags("Look [IMAGE_PROMPT:a cat] here [EMOTION:happy]"),
        "Lookhere"
    );
    assert_eq!(strip_control_tags("a [IMAGE_PROMPT:open"), "a [IMAGE_PROMPT:open");
}

fn finished(response: &str) -> ReplyRounds {
    let mut rounds = ReplyRounds::new(ReplyStyle::Telegram, 1);
    assert!(rounds.next_round());
    rounds.round_response(response);
    rounds
}

#[test]
fn images_are_made_though_their_tags_are_not_shown() {
    let reply = finished("Look! [IMAGE_PROMPT: a cat ] [ACTION:wave]")
        .finish()
        .unwrap();
    assert_eq!(reply.reply, "Look!");
    assert_eq!(reply.image_prompts, vec!["a cat"]);

    let only_image = || finished("[IMAGE_PROMPT:a dog]").finish();
    let answer = telegram_answer(only_image(), true).unwrap();
    assert_eq!(answer.reply, "");
    assert_eq!(answer.image_prompts, vec!["a dog"]);
    assert_eq!(
        telegram_answer(only_image(), false).unwrap_err(),
        "(No response from AI)"
    );
    assert_eq!(
        telegram_answer(finished("").finish(), true).unwrap_err(),
        "(No response from AI)"
    );
    assert_eq!(
        telegram_answer(finished("hi").finish(), false).unwrap().reply,
        "hi"
    );
}

#[test]
fn only_listed_chats_are_allowed() {
    let mut config = TelegramConfig::default();
    config.allowed_chat_ids = vec![5, -7];
    assert!(is_chat_allowed(&config, -7));
    assert!(!is_chat_allowed(&config, 6));
}

#[test]
fn rate_limit_admits_ten_messages_to_a_window() {
    let mut limiter = RateLimiter::new();
    for i in 0..RATE_LIMIT_MAX {
        assert!(limiter.count_message(1, i));
    }
    assert!(!limiter.count_message(1, RATE_LIMIT_MAX));
    assert!(limiter.count_message(2, RATE_LIMIT_MAX));
    assert!(limiter.count_message(1, RATE_LIMIT_WINDOW_NANOS + RATE_LIMIT_MAX));
}

const SECOND: u64 = RATE_LIMIT_WINDOW_NANOS / 60;

#[test]
fn the_rate_limit_slides_with_the_clock() {
    let mut limiter = RateLimiter::new();
    assert!(limiter.count_message(1, 0));
    for _ in 0..9 {
        assert!(limiter.count_message(1, 59 * SECOND));
    }
    assert!(limiter.count_message(1, 60 * SECOND));
    assert!(!limiter.count_message(1, 61 * SECOND));
    assert!(!limiter.count_message(1, 119 * SECOND - 1));
    assert!(limiter.count_message(1, 119 * SECOND));
}

#[test]
fn held_back_messages_do_not_count() {
    let mut limiter = RateLimiter::new();
    for _ in 0..RATE_LIMIT_MAX {
        assert!(limiter.count_message(1, 0));
    }
    for i in 1..60 {
        assert!(!limiter.count_message(1, i * SECOND));
    }
    assert!(limiter.count_message(1, 60 * SECOND));
}

#[test]
fn a_message_over_the_limit_reaches_no_handler() {
    let mut config = TelegramConfig::default();
    config.allowed_chat_ids = vec![5];
    let mut limiter = RateLimiter::new();
    for i in 0..20 {
        assert!(matches!(
            handle_message(&config, &mut limiter, 6, i, Some("hi"), false, false),
            MessageStep::Ignored
        ));
    }
    for i in 0..RATE_LIMIT_MAX {
        assert!(matches!(
            handle_message(&config, &mut limiter, 5, i * SECOND, Some("hi"), false, false),
            MessageStep::Handle(MessageRoute::Text)
        ));
    }
    match handle_message(&config, &mut limiter, 5, 10 * SECOND, Some("/new"), false, false) {
        MessageStep::Note(note) => {
            assert_eq!(note, "⚠️ Too many messages. Please wait a moment.");
        }
        other => panic!("expected a note, got {other:?}"),
    }
    assert!(matches!(
        handle_message(&config, &mut limiter, 5, 60 * SECOND, None, true, false),
        MessageStep::Handle(MessageRoute::Voice)
    ));
}

#[test]
fn voice_is_refused_where_nothing_can_transcribe_it() {
    assert_eq!(voice_gate(true), None);
    assert_eq!(
        voice_gate(false).as_deref(),
        Some("⚠️ STT service not available.")
    );
}

#[test]
fn messages_are_routed_by_what_they_hold() {
    assert!(matches!(
        route_message(Some("/start"), false, false),
        MessageRoute::Command
    ));
    assert!(matches!(
        route_message(None, true, false),
        MessageRoute::Voice
    ));
    assert!(matches!(
        route_message(None, false, true),
        MessageRoute::Photo
    ));
    assert!(matches!(
        route_message(Some("hi"), false, false),
        MessageRoute::Text
    ));
    assert!(matches!(
        route_message(None, false, false),
        MessageRoute::Nothing
    ));
}

#[test]
fn sessions_follow_commands_for_each_chat() {
    let mut sessions = Sessions::new();
    assert!(matches!(sessions.mode(1), SessionMode::Continue));
    assert!(matches!(parse_command("/new"), Command::New));
    assert!(sessions.command(1, Command::New, 3).is_some());
    assert!(matches!(sessions.mode(1), SessionMode::New));
    assert!(matches!(sessions.mode(2), SessionMode::Continue));
    assert_eq!(
        sessions.command(1, Command::Status, 3).as_deref(),
        Some("📊 Session: New conversation\n💬 History: 3 messages")
    );
    assert!(sessions.command(1, Command::Continue, 3).is_some());
    assert!(sessions.command(1, Command::Text, 3).is_none());
    assert!(sessions.command(1, Command::Nothing, 3).is_none());
    assert!(matches!(parse_command("///"), Command::Nothing));
    assert!(matches!(parse_command("/dance now"), Command::Text));
    assert!(matches!(sessions.mode(1), SessionMode::Continue));
}

#[test]
fn telegram_helpers_shape_text_and_images() {
    let mut config = TelegramConfig::default();
    config.character_id = Some("hiyori".to_string());
    assert_eq!(telegram_character(&config, "mem", Some("disk")), "hiyori");
    config.character_id = None;
    assert_eq!(telegram_character(&config, "mem", Some("disk")), "mem");
    assert_eq!(telegram_character(&config, "default", Some("disk")), "disk");
    assert_eq!(telegram_character(&config, "", None), "default");
    assert_eq!(
        telegram_reply_text("hi", &Some("salut".to_string())),
        "hi\n\n📝 salut"
    );
    assert_eq!(telegram_reply_text("hi", &None), "hi");
    assert!(matches!(voice_outcome(None), VoiceOutcome::Note(_)));
    assert!(matches!(voice_outcome(Some("words")), VoiceOutcome::Answer(_)));
    assert_eq!(
        photo_data_url(b"hello", "a.png"),
        "data:image/png;base64,aGVsbG8="
    );
    assert_eq!(photo_caption(Some("a cat")), "a cat");
    assert!(photo_sync_text("a cat").contains("a cat"));
    assert_eq!(image_prompts_of("x [IMAGE_PROMPT:cat] y"), vec!["cat"]);
}
