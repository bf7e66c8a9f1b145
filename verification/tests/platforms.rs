//! The bot platforms: what runs, and what each of them lets in and answers.

use kokoro::bot_config::{BotConfig, DiscordBotConfig, LineBotConfig, TelegramConfig};
use kokoro::bot_reply::BotReply;
use kokoro::bot_runtime::{
    platform_runtime, BotRuntimeService, KnownSecrets, PlatformRuntime, QqAuthorization,
};
use kokoro::discord::{
    attachment_audio_format, attachment_mime_type, discord_content, discord_heartbeat,
    discord_message_text, discord_socket_url, read_discord_message, reconnect_delay_secs,
    DiscordAction, DiscordEvent, DiscordSession, DiscordSessionExit,
};
use kokoro::json::{json_text, JsonObject, JsonValue};
use kokoro::line::{
    admit_line_webhook, line_audio_outcome, line_image_url, line_message_text, line_reply_text,
    line_work, verify_line_signature, wants_images, LineAudio, LineEvent, LineMessage, LineSource,
    LineTask, LineWebhookPayload,
};
use kokoro::webhook::{
    admit_webhook_request, normalize_path, prepare_webhook_conversation, route_http_bot_request,
    webhook_conversation_key, webhook_reply_error, GenericWebhookMessage, HttpRoute,
    ParsedGenericWebhookPayload,
};

fn all_secrets() -> KnownSecrets {
    KnownSecrets {
        telegram_token: true,
        qq_app_id: true,
        qq_app_secret: true,
        discord_token: true,
        line_access_token: true,
        line_secret: true,
    }
}

#[test]
fn saving_a_configuration_from_an_older_revision_is_refused() {
    let mut service = BotRuntimeService::new(BotConfig::default());
    let first = service.save_config(service.current_config()).unwrap();
    assert_eq!(first.revision, 1);
    let stale = service.current_config();
    service.update_config(first);
    assert_eq!(
        service.save_config(stale).unwrap_err(),
        "Bot configuration changed; reload settings before saving"
    );
    assert!(service.save_config(service.current_config()).is_ok());
}

#[test]
fn approving_a_qq_request_lists_its_sender_once() {
    let mut service = BotRuntimeService::new(BotConfig::default());
    let request = QqAuthorization::new(" r1 ", " user_1 ", Some(" ")).unwrap();
    assert_eq!(request.user_openid, "user_1");
    assert_eq!(request.group_openid, None);
    let response = service
        .respond_to_qq_authorization(&request, true, true)
        .unwrap();
    assert_eq!(response.revision, 1);
    assert_eq!(response.approved_user_openid.as_deref(), Some("user_1"));
    service.update_config(response.persist.expect("something changed"));
    let again = service
        .respond_to_qq_authorization(&request, true, true)
        .unwrap();
    assert!(again.persist.is_none());
    assert_eq!(again.revision, 1);
    let refused = service
        .respond_to_qq_authorization(&request, true, false)
        .unwrap();
    assert!(refused.persist.is_none());
    assert_eq!(
        service
            .respond_to_qq_authorization(&request, false, true)
            .unwrap_err(),
        "QQ authorization request is no longer pending"
    );
}

#[test]
fn a_group_request_lists_the_user_only_where_users_are_listed() {
    let service = BotRuntimeService::new(BotConfig::default());
    let request = QqAuthorization::new("r", "u", Some("g")).unwrap();
    let response = service
        .respond_to_qq_authorization(&request, true, true)
        .unwrap();
    assert_eq!(response.approved_group_openid.as_deref(), Some("g"));
    assert_eq!(response.approved_user_openid, None);
    let config = response.persist.unwrap();
    assert_eq!(config.qq.allowed_group_openids, vec!["g"]);
    assert!(config.qq.allowed_user_openids.is_empty());
}

#[test]
fn qq_requests_with_bad_names_are_refused() {
    assert_eq!(
        QqAuthorization::new("  ", "u", None).unwrap_err(),
        "invalid QQ authorization request ID"
    );
    assert_eq!(
        QqAuthorization::new("r", "no spaces", None).unwrap_err(),
        "invalid QQ user OpenID"
    );
    assert_eq!(
        QqAuthorization::new("r", "u", Some("g!")).unwrap_err(),
        "invalid QQ group OpenID"
    );
}

#[test]
fn platforms_start_once_and_stop() {
    let mut config = BotConfig::default();
    let mut service = BotRuntimeService::new(config.copy());
    assert_eq!(
        service.start_qq(all_secrets()).unwrap_err(),
        "QQ bot is not enabled"
    );
    assert_eq!(
        service.start_discord(Some("t".to_string())).unwrap_err(),
        "Discord bot is not enabled"
    );
    assert_eq!(
        service.start_http(None).unwrap_err(),
        "LINE and Webhook bots are not enabled"
    );
    config.qq.enabled = true;
    config.discord.enabled = true;
    config.webhook.enabled = true;
    service.update_config(config);

    let mut missing = all_secrets();
    missing.qq_app_secret = false;
    assert_eq!(
        service.start_qq(missing).unwrap_err(),
        "No QQ AppSecret configured"
    );
    let id = service.start_qq(all_secrets()).unwrap();
    assert!(service.is_qq_started());
    assert!(!service.is_qq_connected());
    service.qq_connected(id);
    assert!(service.is_qq_connected());
    assert_eq!(
        service.start_qq(all_secrets()).unwrap_err(),
        "QQ bot is already running or connecting"
    );
    assert_eq!(service.stop_qq().unwrap(), id);
    assert!(!service.is_qq_started());
    let next = service.start_qq(all_secrets()).unwrap();
    service.qq_finished(id);
    assert!(service.is_qq_started());
    service.qq_finished(next);
    assert!(!service.is_qq_started());

    assert_eq!(
        service.start_discord(None).unwrap_err(),
        "No Discord bot token configured"
    );
    assert_eq!(service.start_discord(Some("t".to_string())).unwrap(), "t");
    assert_eq!(
        service.start_discord(Some("t".to_string())).unwrap_err(),
        "Discord bot is already running"
    );
    assert!(service.stop_discord().is_ok());
    assert!(service.stop_discord().is_err());

    assert_eq!(
        service.start_http(Some("bad")).unwrap_err(),
        "Invalid bind host: bad"
    );
    assert_eq!(service.start_http(None).unwrap(), 8787);
    assert_eq!(
        service.start_http(None).unwrap_err(),
        "Bot HTTP server is already running"
    );
    let status = service.get_bot_status(&TelegramConfig::default(), false, all_secrets());
    assert!(status.webhook.running && status.webhook.connected);
    assert!(!status.line.running);
    assert!(status.line.configured);
    service.http_finished();
    assert!(!service.is_http_running());
    assert!(service.stop_http().is_err());
}

#[test]
fn platform_names_lead_to_runtimes() {
    assert!(matches!(platform_runtime("qq"), Ok(PlatformRuntime::Qq)));
    assert!(matches!(
        platform_runtime("discord"),
        Ok(PlatformRuntime::Discord)
    ));
    assert!(matches!(platform_runtime("line"), Ok(PlatformRuntime::Http)));
    assert!(matches!(
        platform_runtime("webhook"),
        Ok(PlatformRuntime::Http)
    ));
    assert_eq!(
        platform_runtime("telegram").unwrap_err(),
        "Unsupported bot platform runtime: telegram"
    );
}

const HELLO_SIGNATURE: &str = "iKqz7ejTrflNJquQ07r9SiCDBww7zOnAFO4EpEOEfAs=";

#[test]
fn line_signatures_are_checked() {
    assert!(verify_line_signature("secret", b"hello", HELLO_SIGNATURE));
    assert!(verify_line_signature(
        "secret",
        b"hello",
        &format!(" {HELLO_SIGNATURE} ")
    ));
    assert!(!verify_line_signature("secret", b"hello!", HELLO_SIGNATURE));
    assert!(!verify_line_signature("other", b"hello", HELLO_SIGNATURE));
}

#[test]
fn line_calls_are_refused_in_order() {
    let payload = || Ok(LineWebhookPayload { events: Vec::new() });
    let refused = |secret, signature, token_known, payload| {
        let error = admit_line_webhook(secret, signature, b"hello", token_known, payload)
            .err()
            .expect("refused");
        (error.status, error.message)
    };
    assert_eq!(
        refused(None, None, false, payload()),
        (500, "LINE channel secret is not configured".to_string())
    );
    assert_eq!(
        refused(Some("secret"), None, false, payload()),
        (401, "Missing LINE signature".to_string())
    );
    assert_eq!(
        refused(Some("secret"), Some("x"), false, payload()),
        (401, "Invalid LINE signature".to_string())
    );
    assert_eq!(
        refused(Some("secret"), Some(HELLO_SIGNATURE), false, payload()),
        (500, "LINE channel access token is not configured".to_string())
    );
    assert_eq!(
        refused(
            Some("secret"),
            Some(HELLO_SIGNATURE),
            true,
            Err("eof".to_string())
        ),
        (400, "Invalid JSON: eof".to_string())
    );
    assert!(admit_line_webhook(
        Some("secret"),
        Some(HELLO_SIGNATURE),
        b"hello",
        true,
        payload()
    )
    .is_ok());
}

fn line_event(message_type: &str, text: Option<&str>, user: Option<&str>) -> LineEvent {
    LineEvent {
        event_type: "message".to_string(),
        reply_token: Some("token".to_string()),
        source: Some(LineSource {
            user_id: user.map(str::to_string),
        }),
        message: Some(LineMessage {
            id: Some("7".to_string()),
            message_type: message_type.to_string(),
            text: text.map(str::to_string),
        }),
    }
}

#[test]
fn line_events_lead_to_work() {
    let mut config = LineBotConfig::default();
    let work = line_work(&config, line_event("text", Some("hi"), None)).unwrap();
    assert_eq!(work.reply_token, "token");
    assert!(matches!(work.task, LineTask::Say(t) if t == "hi"));
    assert!(line_work(&config, line_event("text", Some("  "), None)).is_none());
    assert!(line_work(&config, line_event("sticker", None, None)).is_none());
    let work = line_work(&config, line_event("audio", None, None)).unwrap();
    assert!(matches!(
        work.task,
        LineTask::Audio(url) if url == "https://api-data.line.me/v2/bot/message/7/content"
    ));
    config.allowed_user_ids = vec!["u1".to_string()];
    assert!(line_work(&config, line_event("image", None, Some("u2"))).is_none());
    assert!(line_work(&config, line_event("image", None, None)).is_none());
    assert!(line_work(&config, line_event("image", None, Some("u1"))).is_some());
}

fn reply(text: &str, translation: Option<&str>, prompts: usize) -> BotReply {
    BotReply {
        reply: text.to_string(),
        translation: translation.map(str::to_string),
        images: Vec::new(),
        audio: None,
        image_prompts: vec!["cat".to_string(); prompts],
        generated_image_count: 0,
    }
}

#[test]
fn line_replies_tell_of_images() {
    assert!(wants_images(&reply("x", None, 1)));
    assert!(!wants_images(&reply("x", None, 0)));
    assert_eq!(
        line_reply_text(&reply("hi", Some("salut"), 0), false),
        "hi\n\nTranslation: salut"
    );
    assert_eq!(
        line_reply_text(&reply("hi", None, 1), true),
        "hi\n\nImage generation was requested, but Kokoro Engine could not create the image. Please check the Kokoro Engine client."
    );
    let mut made = reply("", None, 1);
    made.generated_image_count = 1;
    assert_eq!(
        line_reply_text(&made, true),
        "Image generated in Kokoro Engine. Please open the Kokoro Engine client to view it."
    );
    assert_eq!(
        line_image_url(b"hello", None),
        "data:image/jpeg;base64,aGVsbG8="
    );
    assert!(matches!(
        line_audio_outcome(Ok(Some("said".to_string()))),
        LineAudio::Message(t) if t == "said"
    ));
    assert!(matches!(
        line_audio_outcome(Ok(None)),
        LineAudio::Note(t) if t == "(Could not recognize speech)"
    ));
    assert!(matches!(
        line_audio_outcome(Err("x".to_string())),
        LineAudio::Note(t) if t == "Failed to transcribe audio message."
    ));
    assert_eq!(line_message_text("short"), "short");
}

fn frame(raw: &str) -> DiscordEvent {
    DiscordEvent::Text(raw.to_string())
}

#[test]
fn a_discord_session_greets_once_then_handles_messages() {
    let mut session = DiscordSession::new();
    assert!(matches!(
        session.event("tok", frame(r#"{"op":0,"t":"MESSAGE_CREATE","d":{}}"#)),
        DiscordAction::Wait
    ));
    assert!(matches!(
        session.event("tok", DiscordEvent::HeartbeatDue),
        DiscordAction::Wait
    ));
    match session.event("tok", frame(r#"{"op":10,"d":{"heartbeat_interval":1000}}"#)) {
        DiscordAction::Identify(sent, interval) => {
            let value: serde_json::Value = serde_json::from_str(&sent).unwrap();
            assert_eq!(value["op"], 2);
            assert_eq!(value["d"]["token"], "tok");
            assert_eq!(value["d"]["intents"], 37377);
            assert_eq!(value["d"]["properties"]["browser"], "kokoro-engine");
            assert_eq!(interval, 1000);
        }
        other => panic!("expected an identification, got {other:?}"),
    }
    assert!(matches!(
        session.event("tok", frame(r#"{"op":10,"d":{}}"#)),
        DiscordAction::Wait
    ));
    match session.event(
        "tok",
        frame(r#"{"op":0,"s":42,"t":"MESSAGE_CREATE","d":{"content":"hi"}}"#),
    ) {
        DiscordAction::Handle(message) => assert_eq!(message.get_str("content"), Some("hi")),
        other => panic!("expected a message, got {other:?}"),
    }
    match session.event("tok", DiscordEvent::HeartbeatDue) {
        DiscordAction::Send(sent) => {
            let value: serde_json::Value = serde_json::from_str(&sent).unwrap();
            assert_eq!(value["op"], 1);
            assert_eq!(value["d"], 42);
        }
        other => panic!("expected a heartbeat, got {other:?}"),
    }
    assert!(matches!(
        session.event("tok", frame(r#"{"op":7}"#)),
        DiscordAction::Exit(DiscordSessionExit::Reconnect)
    ));
    assert!(matches!(
        session.event("tok", DiscordEvent::Shutdown),
        DiscordAction::Exit(DiscordSessionExit::Shutdown)
    ));
    assert!(matches!(
        session.event("tok", DiscordEvent::SendFailed),
        DiscordAction::Exit(DiscordSessionExit::Reconnect)
    ));
    assert_eq!(reconnect_delay_secs(DiscordSessionExit::Reconnect), Some(5));
    assert_eq!(reconnect_delay_secs(DiscordSessionExit::Shutdown), None);
    assert!(matches!(
        discord_heartbeat(None).get("d"),
        Some(JsonValue::Null)
    ));
}

#[test]
fn discord_addresses_come_from_the_gateway() {
    let response = JsonObject::new()
        .with("url", json_text("wss://gateway"))
        .done();
    assert_eq!(
        discord_socket_url(&response).unwrap(),
        "wss://gateway?v=10&encoding=json"
    );
    assert_eq!(
        discord_socket_url(&JsonValue::Null).unwrap_err(),
        "Discord gateway response did not include url"
    );
}

#[test]
fn discord_messages_are_read_with_their_media() {
    let attachment = JsonObject::new()
        .with("url", json_text("https://x/a.png"))
        .with("filename", json_text("a.PNG"))
        .done();
    let other = JsonObject::new()
        .with("url", json_text("https://x/a.txt"))
        .with("filename", json_text("a.txt"))
        .done();
    let author = JsonObject::new().with("id", json_text("u1")).done();
    let message = JsonObject::new()
        .with("author", author)
        .with("channel_id", json_text("c1"))
        .with("content", json_text("  hi "))
        .with("attachments", JsonValue::Array(vec![attachment, other]))
        .done();
    let config = DiscordBotConfig::default();
    let read = read_discord_message(&config, &message).unwrap();
    assert_eq!(read.channel_id, "c1");
    assert_eq!(read.content, "hi");
    assert_eq!(read.conversation_key, "c1:u1");
    assert_eq!(read.attachments.len(), 1);
    assert!(read.attachments[0].is_image);
    assert_eq!(attachment_mime_type(None, &read.attachments[0]), "image/png");
    assert_eq!(
        attachment_mime_type(Some("image/gif"), &read.attachments[0]),
        "image/gif"
    );
    assert_eq!(
        attachment_audio_format(Some("audio/mpeg"), &read.attachments[0]),
        "mp3"
    );

    let bot = JsonObject::new().with("bot", JsonValue::Bool(true)).done();
    let from_bot = JsonObject::new()
        .with("author", bot)
        .with("channel_id", json_text("c1"))
        .done();
    assert!(read_discord_message(&config, &from_bot).is_none());
    let in_guild = JsonObject::new()
        .with("channel_id", json_text("c1"))
        .with("guild_id", json_text("g"))
        .done();
    assert!(read_discord_message(&config, &in_guild).is_none());

    assert_eq!(
        discord_content("hi".to_string(), vec!["said".to_string()], false).as_deref(),
        Some("hi\n\nVoice message transcript: said")
    );
    assert_eq!(
        discord_content(String::new(), Vec::new(), true).as_deref(),
        Some("The user sent an image:")
    );
    assert_eq!(discord_content(String::new(), Vec::new(), false), None);
    assert_eq!(discord_message_text("hello"), "hello");
}

#[test]
fn http_requests_are_routed_by_path() {
    let mut config = BotConfig::default();
    config.line.enabled = true;
    config.webhook.enabled = true;
    assert!(matches!(
        route_http_bot_request(&config, "/line/webhook"),
        HttpRoute::Line
    ));
    assert!(matches!(
        route_http_bot_request(&config, "/webhook/message"),
        HttpRoute::Webhook
    ));
    assert!(matches!(
        route_http_bot_request(&config, "/other"),
        HttpRoute::NotFound
    ));
    let once = normalize_path("webhook");
    assert_eq!(once, "/webhook");
    assert_eq!(normalize_path(&once), once);
}

#[test]
fn webhook_conversations_are_scoped_to_the_character() {
    assert_eq!(
        prepare_webhook_conversation("char-1", Some("group:g")),
        "webhook-4d3327beeea2ca862c2b5fce8596d3b8ad8219a8cd188ab0cfdc4a86968538d1"
    );
    assert_eq!(
        webhook_conversation_key(Some("group"), Some("g"), Some("u"), None).as_deref(),
        Some("group:g")
    );
}

fn webhook_text(text: &str) -> GenericWebhookMessage {
    GenericWebhookMessage {
        text: Some(text.to_string()),
        message: None,
        image: None,
        images: None,
        image_base64: None,
        image_mime_type: None,
        audio_base64: None,
        audio_format: None,
        character_id: None,
        conversation_id: None,
        conversation_type: None,
        user_id: None,
        source: None,
    }
}

#[test]
fn webhook_requests_pass_the_token_and_become_turns() {
    let refused = admit_webhook_request(
        b"{}",
        Some("Bearer wrong"),
        Some("secret"),
        Ok(webhook_text("hi")),
    )
    .err()
    .expect("refused");
    assert_eq!(refused.status, 401);
    let parsed = admit_webhook_request(
        b"{}",
        Some("Bearer secret"),
        Some("secret"),
        Ok(webhook_text("hi")),
    )
    .unwrap_or_else(|e| panic!("{}", e.message));
    assert_eq!(parsed.text, "hi");
    let message = parsed
        .with_transcription(Some(Ok(Some("said".to_string()))))
        .unwrap_or_else(|e| panic!("{}", e.message));
    assert_eq!(message.text, "hi\n\nVoice message transcript: said");
    let turn = message
        .for_character(Some("configured"), "active", true, false)
        .unwrap_or_else(|e| panic!("{}", e.message));
    assert_eq!(turn.character_id, "configured");
    assert!(turn.explicit);

    let silent = ParsedGenericWebhookPayload {
        text: String::new(),
        images: Vec::new(),
        audio: None,
        audio_format: None,
        character_id: None,
        conversation_key: None,
    };
    let error = silent.with_transcription(None).err().expect("nothing said");
    assert_eq!(error.status, 400);
    assert_eq!(error.message, "Missing text or media");
    assert_eq!(
        webhook_reply_error("x: Character activation is in progress: y").status,
        503
    );
    assert_eq!(webhook_reply_error("boom").message, "boom");
}
