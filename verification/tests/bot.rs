//! The bots: configuration, replies and the webhook.

use kokoro::bot_config::{
    load_bot_config_from_paths, needs_legacy_telegram_config, normalize_bot_config_envs, BotConfig,
    DiscordBotConfig, TelegramConfig,
};
use kokoro::discord::discord_message_allowed_by_scope;
use kokoro::media::normalize_image_reference;
use kokoro::reply_text::{extract_image_prompt_tags, extract_translate_tags, strip_control_tags};
use kokoro::tags::parse_tool_call_tags;
use kokoro::webhook::{
    map_webhook_conversation_to_character, parse_generic_webhook_payload,
    resolve_webhook_character_id, validate_generic_webhook_body, verify_webhook_bearer,
    GenericWebhookMessage, MAX_GENERIC_WEBHOOK_BODY_BYTES,
};

fn text_of(value: &serde_json::Value, key: &str) -> Option<String> {
    value.get(key).and_then(|v| v.as_str()).map(str::to_string)
}

fn webhook_message(body: &[u8]) -> Result<GenericWebhookMessage, String> {
    let value: serde_json::Value =
        serde_json::from_slice(body).map_err(|error| error.to_string())?;
    Ok(GenericWebhookMessage {
        text: text_of(&value, "text"),
        message: text_of(&value, "message"),
        image: text_of(&value, "image"),
        images: value.get("images").and_then(|v| v.as_array()).map(|items| {
            items
                .iter()
                .filter_map(|item| item.as_str())
                .map(str::to_string)
                .collect()
        }),
        image_base64: text_of(&value, "image_base64"),
        image_mime_type: text_of(&value, "image_mime_type"),
        audio_base64: text_of(&value, "audio_base64"),
        audio_format: text_of(&value, "audio_format"),
        character_id: text_of(&value, "character_id"),
        conversation_id: text_of(&value, "conversation_id"),
        conversation_type: text_of(&value, "conversation_type"),
        user_id: text_of(&value, "user_id"),
        source: text_of(&value, "source"),
    })
}

#[test]
fn bot_config_defaults_cover_all_non_telegram_platforms() {
    let config = BotConfig::default();
    assert_eq!(config.selected_platform, "telegram");
    assert_eq!(
        config.telegram.bot_token_env.as_deref(),
        Some("TELEGRAM_BOT_TOKEN")
    );
    assert_eq!(
        config.discord.bot_token_env.as_deref(),
        Some("DISCORD_BOT_TOKEN")
    );
    assert!(!config.discord.send_voice_reply);
    assert_eq!(
        config.line.channel_access_token_env.as_deref(),
        Some("LINE_CHANNEL_ACCESS_TOKEN")
    );
    assert_eq!(config.line.webhook_path, "/line/webhook");
    assert_eq!(config.webhook.bind_host, "127.0.0.1");
    assert_eq!(config.webhook.port, 8787);
    assert!(!config.webhook.send_voice_reply);
}

#[test]
fn bot_config_normalization_enforces_fixed_env_names() {
    let mut config = BotConfig::default();
    config.telegram.bot_token_env = Some("CUSTOM_TELEGRAM".to_string());
    config.discord.bot_token_env = Some("CUSTOM_DISCORD".to_string());
    config.line.channel_access_token_env = Some("CUSTOM_LINE_TOKEN".to_string());
    config.line.channel_secret_env = Some("CUSTOM_LINE_SECRET".to_string());
    config.webhook.bearer_token_env = Some("CUSTOM_WEBHOOK".to_string());

    let normalized = normalize_bot_config_envs(config);

    assert_eq!(
        normalized.telegram.bot_token_env.as_deref(),
        Some("TELEGRAM_BOT_TOKEN")
    );
    assert_eq!(
        normalized.discord.bot_token_env.as_deref(),
        Some("DISCORD_BOT_TOKEN")
    );
    assert_eq!(
        normalized.line.channel_access_token_env.as_deref(),
        Some("LINE_CHANNEL_ACCESS_TOKEN")
    );
    assert_eq!(
        normalized.line.channel_secret_env.as_deref(),
        Some("LINE_CHANNEL_SECRET")
    );
    assert_eq!(
        normalized.webhook.bearer_token_env.as_deref(),
        Some("KOKORO_WEBHOOK_TOKEN")
    );
}

#[test]
fn load_bot_config_migrates_legacy_telegram_and_removes_old_file() {
    let legacy = TelegramConfig {
        enabled: true,
        bot_token: Some("legacy-token".to_string()),
        bot_token_env: Some("CUSTOM_TELEGRAM_ENV".to_string()),
        allowed_chat_ids: vec![12345],
        send_voice_reply: true,
        character_id: Some("hiyori".to_string()),
    };

    assert!(needs_legacy_telegram_config(false, &BotConfig::default()));
    let (config, migrated) =
        load_bot_config_from_paths(false, BotConfig::default(), Some(legacy));

    assert!(migrated);
    assert_eq!(config.telegram.enabled, true);
    assert_eq!(config.telegram.bot_token.as_deref(), Some("legacy-token"));
    assert_eq!(
        config.telegram.bot_token_env.as_deref(),
        Some("TELEGRAM_BOT_TOKEN")
    );
    assert_eq!(config.telegram.allowed_chat_ids, vec![12345]);
    assert_eq!(config.telegram.send_voice_reply, true);
    assert_eq!(config.telegram.character_id.as_deref(), Some("hiyori"));
}

#[test]
fn load_bot_config_keeps_existing_telegram_when_already_configured() {
    let mut current = BotConfig::default();
    current.telegram.bot_token = Some("current-token".to_string());

    assert!(!needs_legacy_telegram_config(true, &current));
    let (config, migrated) = load_bot_config_from_paths(true, current, None);

    assert_eq!(config.telegram.bot_token.as_deref(), Some("current-token"));
    assert!(!migrated);
}

#[test]
fn bot_parse_tool_call_tags_supports_explicit_and_short_forms() {
    let (cleaned, calls) =
        parse_tool_call_tags("Hi [TOOL_CALL:store_memory|fact=likes tea] [play_cue|name=smile]");

    assert_eq!(cleaned, "Hi");
    assert_eq!(calls.len(), 2);
    assert_eq!(calls[0].name, "store_memory");
    assert_eq!(
        calls[0].args.get("fact").map(String::as_str),
        Some("likes tea")
    );
    assert_eq!(calls[1].name, "play_cue");
    assert_eq!(calls[1].args.get("name").map(String::as_str), Some("smile"));
}

#[test]
fn bot_extract_translate_tags_strips_and_returns_translation() {
    let (cleaned, translation) = extract_translate_tags("Hello [TRANSLATE:こんにちは]");

    assert_eq!(cleaned, "Hello");
    assert_eq!(translation.as_deref(), Some("こんにちは"));
}

#[test]
fn bot_extract_image_prompt_tags_strips_and_collects_prompts() {
    let (cleaned, prompts) =
        extract_image_prompt_tags("Here [IMAGE_PROMPT:cat cafe] and [IMAGE_PROMPT: sunset]");

    assert_eq!(cleaned, "Here and");
    assert_eq!(prompts, vec!["cat cafe", "sunset"]);
}

#[test]
fn bot_normalize_image_reference_accepts_urls_and_wraps_base64() {
    assert_eq!(
        normalize_image_reference("https://example.com/a.png", "image/png").as_deref(),
        Some("https://example.com/a.png")
    );
    assert_eq!(
        normalize_image_reference("abcd", "image/png").as_deref(),
        Some("data:image/png;base64,abcd")
    );
}

#[test]
fn bot_discord_empty_channel_allowlist_allows_dm_only() {
    let mut config = DiscordBotConfig::default();
    assert!(discord_message_allowed_by_scope(&config, "123", true));
    assert!(!discord_message_allowed_by_scope(&config, "123", false));

    config.allow_direct_messages = false;
    assert!(!discord_message_allowed_by_scope(&config, "123", true));

    config.allowed_channel_ids = vec!["123".to_string()];
    assert!(discord_message_allowed_by_scope(&config, "123", false));
    assert!(!discord_message_allowed_by_scope(&config, "999", false));
}

#[test]
fn bot_strip_control_tags_removes_platform_unsafe_tags() {
    let cleaned =
        strip_control_tags("Hello [ACTION:wave] <emotion>happy</emotion> [IMAGE_PROMPT:cat] world");

    assert_eq!(cleaned, "Hello  happy  world");
}

#[test]
fn webhook_character_resolution_prefers_request_then_config_then_active() {
    assert_eq!(
        resolve_webhook_character_id(Some("request"), Some("configured"), Some("active")),
        "request"
    );
    assert_eq!(
        resolve_webhook_character_id(None, Some("configured"), Some("active")),
        "configured"
    );
    assert_eq!(
        resolve_webhook_character_id(None, None, Some("active")),
        "active"
    );
}

#[test]
fn webhook_bearer_auth_requires_exact_bearer_token() {
    assert!(verify_webhook_bearer(Some("Bearer secret"), Some("secret")).is_ok());
    assert_eq!(
        verify_webhook_bearer(None, Some("secret")).unwrap_err(),
        "Missing Authorization header"
    );
    assert_eq!(
        verify_webhook_bearer(Some("Basic secret"), Some("secret")).unwrap_err(),
        "Invalid bearer token"
    );
    assert!(verify_webhook_bearer(None, None).is_ok());
}

#[test]
fn webhook_payload_parser_normalizes_text_images_and_audio() {
    let parsed = parse_generic_webhook_payload(webhook_message(
        br#"{
                "message": "  hello  ",
                "images": ["https://example.com/photo.png", "abcd"],
                "image_mime_type": "image/png",
                "audio_base64": "aGVsbG8=",
                "audio_format": "wav",
                "conversation_type": "private",
                "user_id": "user-7"
            }"#,
    ))
    .expect("valid webhook payload");

    assert_eq!(parsed.text, "hello");
    assert_eq!(
        parsed.images,
        vec![
            "https://example.com/photo.png".to_string(),
            "data:image/png;base64,abcd".to_string()
        ]
    );
    assert_eq!(parsed.audio.as_deref(), Some(&b"hello"[..]));
    assert_eq!(parsed.audio_format.as_deref(), Some("wav"));
    assert_eq!(parsed.conversation_key.as_deref(), Some("private:user-7"));
}

#[test]
fn webhook_payload_parser_maps_group_identity_before_persistence() {
    let parsed = parse_generic_webhook_payload(webhook_message(
        br#"{
                "text": "hello",
                "conversation_type": "group",
                "conversation_id": "group-42",
                "user_id": "user-7"
            }"#,
    ))
    .expect("valid group webhook payload");

    assert_eq!(parsed.conversation_key.as_deref(), Some("group:group-42"));
    assert_eq!(
        map_webhook_conversation_to_character("char-2", parsed.conversation_key.as_deref()),
        "char-2:group:group-42"
    );
}

#[test]
fn webhook_payload_parser_falls_back_to_conversation_when_user_is_blank() {
    let parsed = parse_generic_webhook_payload(webhook_message(
        br#"{
                "text": "hello",
                "conversation_type": "private",
                "conversation_id": "private-session-9",
                "user_id": "   "
            }"#,
    ))
    .expect("valid private webhook payload");

    assert_eq!(
        parsed.conversation_key.as_deref(),
        Some("private:private-session-9")
    );
}

#[test]
fn webhook_payload_parser_returns_json_error_for_malformed_input() {
    let error = parse_generic_webhook_payload(webhook_message(br#"{"text":"unterminated}"#))
        .expect_err("malformed JSON must be rejected");

    assert!(error.starts_with("Invalid JSON:"));
}

#[test]
fn webhook_payload_parser_rejects_empty_text_without_media() {
    let error = parse_generic_webhook_payload(webhook_message(br#"{"text":"   "}"#))
        .expect_err("empty webhook messages must be rejected");

    assert_eq!(error, "Missing text or media");
}

#[test]
fn webhook_payload_parser_rejects_invalid_image_base64() {
    let error = parse_generic_webhook_payload(webhook_message(
        br#"{"image_base64":"not*base64","image_mime_type":"image/png"}"#,
    ))
    .expect_err("invalid image base64 must be rejected");

    assert!(error.starts_with("Invalid image base64:"));
}

#[test]
fn webhook_body_limit_rejects_payloads_over_four_megabytes() {
    let body = vec![b'x'; MAX_GENERIC_WEBHOOK_BODY_BYTES + 1];

    assert_eq!(
        validate_generic_webhook_body(&body).unwrap_err(),
        "Webhook body exceeds the 4194304 byte limit"
    );
}
