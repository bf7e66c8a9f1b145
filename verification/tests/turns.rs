//! The rounds of a bot's reply and of a chat turn.

use kokoro::bot_reply::{
    attach_generated_images_to_reply, bot_character, bot_conversation_key, bot_prompt,
    place_user_turn, reply_metadata, turn_gate, user_sync_text, BotReply, ReplyRounds, ReplyStyle,
    UserTurn,
};
use kokoro::cancellation::{is_turn_cancelled_error_message, TurnCancellationState, WaitEvent};
use kokoro::chat::{
    add_hidden_message, attach_images, failure_event_metadata, local_image_file,
    plain_llm_message, rotates_failure_log, stored_vision_metadata, LlmToolCall,
    VisionObservation, FAILURE_EVENTS_LOG_MAX_BYTES,
};
use kokoro::chat_turn::{
    background_prompt, background_question, chat_character, chat_gate, continue_with_results,
    continue_with_text, cue_instruction, cue_payload, fallback_cue, image_url_for_model,
    is_question, kept_conversation_id, native_part, native_tools_enabled, new_turn_id,
    place_chat_message,
    strip_code_fence, tool_prompt, translation_instruction, AfterTools, BgAnalysis, ChatPlacement,
    ChatTurn, DraftAction, FinalWrite, NativeResult, ProviderFlags, RoundStream,
};
use kokoro::error::KokoroError;
use kokoro::json::JsonValue;
use kokoro::media::generated_image;
use kokoro::text_map::TextMap;
use kokoro::tool_trace::{
    any_native, any_needs_feedback, args_text, generated_tool_image, is_builtin_tool,
    needs_approval, tool_result_line, ActionResult, PermissionDecision, ToolExecutionOutcome,
    ToolInvocation,
};

fn turn(hidden: bool, rounds: usize) -> ChatTurn {
    ChatTurn::new(
        "turn-1".to_string(),
        "conv-1".to_string(),
        Some("req-1".to_string()),
        hidden,
        rounds,
    )
}

fn outcome(tool_id: &str, result: Result<&str, &str>) -> ToolExecutionOutcome {
    ToolExecutionOutcome {
        tool_call_id: None,
        args: TextMap::new(),
        tool_name: "t".to_string(),
        tool_id: tool_id.to_string(),
        source: None,
        server_name: None,
        tool_needs_feedback: None,
        permission_level: None,
        risk_tags: Vec::new(),
        result: match result {
            Ok(message) => Ok(ActionResult {
                success: true,
                message: message.to_string(),
                data: None,
            }),
            Err(error) => Err(error.to_string()),
        },
        needs_feedback: false,
        permission_decision: None,
    }
}

#[test]
fn one_call_decides_for_its_round() {
    let call = |id: Option<&str>| ToolInvocation {
        tool_call_id: id.map(str::to_string),
        name: "look".to_string(),
        args: TextMap::new(),
    };
    assert!(!any_native(&Vec::new()));
    assert!(!any_native(&vec![call(None)]));
    assert!(any_native(&vec![call(None), call(Some("c1"))]));

    let mut told = outcome("a", Ok("done"));
    told.needs_feedback = true;
    assert!(!any_needs_feedback(&vec![outcome("b", Ok("done"))]));
    assert!(any_needs_feedback(&vec![outcome("b", Ok("done")), told]));
}

#[test]
fn only_native_calls_come_back_with_their_results() {
    let mut made = outcome("builtin__look", Err("denied"));
    assert!(native_part(&made, &made.result).is_none());
    made.tool_call_id = Some("c1".to_string());
    made.args = TextMap::new().with("at".to_string(), "the \"sky\"".to_string());
    let (call, answer) = native_part(&made, &made.result).unwrap();
    assert_eq!(call.id, "c1");
    assert_eq!(call.name, "builtin__look");
    assert_eq!(call.arguments, r#"{"at":"the \"sky\""}"#);
    assert_eq!(answer.tool_call_id, "c1");
    assert_eq!(answer.text, "Error: denied");
    let approved = outcome("builtin__look", Ok("clouds")).result;
    assert_eq!(native_part(&made, &approved).unwrap().1.text, "clouds");
    assert_eq!(args_text(&TextMap::new()), "{}");
    assert_eq!(new_turn_id().len(), 36);
    assert_ne!(new_turn_id(), new_turn_id());
}

#[test]
fn bot_rounds_go_on_while_tools_need_feedback() {
    let mut rounds = ReplyRounds::new(ReplyStyle::Bot, 0);
    assert!(rounds.next_round());
    let calls = rounds.round_response("One [TOOL_CALL:look] [TRANSLATE:Un]");
    assert_eq!(calls.len(), 1);
    let told = rounds.tools_ran(&vec!["- look: seen".to_string()], true, Vec::new());
    assert_eq!(
        told.as_deref(),
        Some("[Tool results]\n- look: seen\nContinue your response naturally.")
    );
    assert!(!rounds.next_round());
    let reply = rounds.finish().unwrap();
    assert_eq!(reply.reply, "One");
    assert_eq!(reply.translation.as_deref(), Some("Un"));

    let mut silent = ReplyRounds::new(ReplyStyle::Telegram, 3);
    assert!(silent.next_round());
    assert!(silent.round_response("").is_empty());
    assert!(!silent.next_round());
    assert_eq!(silent.finish().unwrap_err(), "No response from AI");
}

#[test]
fn telegram_rounds_are_joined_with_a_space() {
    let mut rounds = ReplyRounds::new(ReplyStyle::Telegram, 2);
    assert!(rounds.next_round());
    rounds.round_response("One [TOOL_CALL:look]");
    rounds.tools_ran(&Vec::new(), true, Vec::new());
    assert!(rounds.next_round());
    rounds.round_response("two");
    assert_eq!(rounds.finish().unwrap().reply, "One two");
}

#[test]
fn bot_prompts_and_gates() {
    assert_eq!(bot_prompt(" hi ", false).unwrap(), "hi");
    assert_eq!(bot_prompt(" ", true).unwrap(), "The user sent an image:");
    assert_eq!(bot_prompt(" ", false).unwrap_err(), "Message text is empty");
    assert!(turn_gate(None, None).is_ok());
    assert_eq!(
        turn_gate(Some("x"), None).unwrap_err(),
        "Character runtime is degraded (x). Please re-activate or select a character in Character Settings."
    );
    assert_eq!(
        turn_gate(None, Some("busy")).unwrap_err(),
        "Character activation is in progress: busy"
    );
    assert_eq!(bot_character(Some(" "), "mem", None), "mem");
    assert_eq!(bot_character(Some("asked"), "mem", None), "asked");
    assert_eq!(bot_conversation_key(Some(" "), "line"), "line");
    assert_eq!(user_sync_text("LINE", "hi", true), "[LINE] hi [image]");
    assert!(matches!(place_user_turn(true, false), UserTurn::Keep));
    assert!(matches!(
        place_user_turn(false, true),
        UserTurn::AppendWithImages
    ));
    let stored = reply_metadata(&Some("salut".to_string())).unwrap();
    let value: serde_json::Value = serde_json::from_str(&stored).unwrap();
    assert_eq!(value["translation"], "salut");
    assert!(reply_metadata(&None).is_none());
}

#[test]
fn generated_images_are_counted_in_a_reply() {
    let mut reply = BotReply {
        reply: "x".to_string(),
        translation: None,
        images: Vec::new(),
        audio: None,
        image_prompts: Vec::new(),
        generated_image_count: 0,
    };
    attach_generated_images_to_reply(
        &mut reply,
        vec![generated_image("cat", None, vec![1]), generated_image("dog", None, vec![2])],
    );
    assert_eq!(reply.images.len(), 2);
    assert_eq!(reply.generated_image_count, 2);
    assert_eq!(reply.images[1].prompt, "dog");
}

#[test]
fn tool_outcomes_are_told_and_sorted() {
    assert_eq!(
        tool_result_line("t1", &outcome("t1", Ok("done")).result),
        "- t1: done"
    );
    assert_eq!(
        tool_result_line("t1", &outcome("t1", Err("bad")).result),
        "- t1: Error: bad"
    );
    assert!(is_builtin_tool(&outcome("builtin__play_cue", Ok("")), "play_cue"));
    assert!(!is_builtin_tool(&outcome("mcp__play_cue", Ok("")), "play_cue"));
    let mut waiting = outcome("t", Err("x"));
    assert!(!needs_approval(&waiting));
    waiting.permission_decision = Some(PermissionDecision::DenyPendingApproval {
        reason: "r".to_string(),
    });
    assert!(needs_approval(&waiting));
    assert!(generated_tool_image(&outcome("t", Ok(""))).is_none());
}

#[test]
fn a_stream_shows_each_character_once() {
    let stream = RoundStream::new().text("Hello [TO").thought("hm").text("OL");
    assert_eq!(stream.pending(), "Hello [TOOL");
    let (stream, shown) = stream.show(6);
    assert_eq!(shown.as_deref(), Some("Hello "));
    assert_eq!(stream.pending(), "[TOOL");
    let (stream, nothing) = stream.show(0);
    assert_eq!(nothing, None);
    let (stream, rest) = stream.show(5);
    assert_eq!(rest.as_deref(), Some("[TOOL"));
    assert_eq!(stream.pending(), "");
    assert!(!stream.error_counts());
    assert!(RoundStream::new().data(JsonValue::Null).error_counts());
}

#[test]
fn a_visible_turn_drafts_its_reply_and_ends() {
    let mut cancellation = TurnCancellationState::new();
    cancellation.register_turn("turn-1");
    let mut chat = turn(false, 2);
    let start = chat.start_payload(Some(3));
    assert_eq!(start.get_str("client_request_id"), Some("req-1"));
    assert_eq!(start.get_i64("user_message_id"), Some(3));
    assert_eq!(chat.begin_round(&cancellation), Ok(true));
    let (cleaned, calls) = chat.round_response("Hi [TOOL_CALL:look]", "thinking");
    assert_eq!(cleaned, "Hi");
    assert_eq!(calls.len(), 1);
    assert!(matches!(chat.draft_action(false), DraftAction::Insert(t) if t == "Hi"));
    assert!(matches!(chat.draft_action(true), DraftAction::Nothing));
    chat.stored_as(Some(9));
    chat.tool_ran(&outcome("builtin__play_cue", Ok("")));
    match chat.after_tools(false, true, &vec!["- look: x".to_string()]) {
        AfterTools::Told(words) => assert_eq!(words, "[Tool results]\n- look: x"),
        other => panic!("expected a text, got {other:?}"),
    }
    assert_eq!(chat.begin_round(&cancellation), Ok(true));
    chat.round_response("there", "");
    assert!(matches!(chat.draft_action(false), DraftAction::Update(9, t) if t == "Hi there"));
    chat.no_tools(vec![JsonValue::Bool(true)]);
    assert_eq!(chat.begin_round(&cancellation), Ok(false));

    assert_eq!(chat.full_response(), "Hi there");
    assert!(!chat.says_nothing());
    assert!(chat.translation_pending("fr", "en"));
    assert!(!chat.translation_pending("en", "en"));
    let complete = chat.complete_payload("fr", "en");
    assert_eq!(complete.get_str("text"), Some("Hi there"));
    assert_eq!(complete.get_bool("translation_pending"), Some(true));
    assert!(matches!(complete.get("translation"), Some(JsonValue::Null)));
    assert!(chat.translation_payload().is_none());
    chat.translated_later(" Salut ");
    chat.translated_later("  ");
    assert_eq!(chat.translation().as_deref(), Some("Salut"));
    assert_eq!(
        chat.translation_payload().unwrap().get_str("translation"),
        Some("Salut")
    );
    assert!(!chat.wants_cue());
    assert!(chat.wants_background(Some(true)));
    assert!(!chat.wants_background(None));
    assert_eq!(chat.final_write(), FinalWrite::Complete(Some(9)));
    let metadata = chat.final_metadata();
    assert_eq!(metadata.get_str("turn_id"), Some("turn-1"));
    assert_eq!(metadata.get_str("translation"), Some("Salut"));
    assert_eq!(metadata.get_str("reasoning_content"), Some("thinking"));
    assert!(matches!(metadata.get("provider_data"), Some(JsonValue::Array(v)) if v.len() == 1));
    assert!(chat.enters_history(Some("conv-1")));
    assert!(!chat.enters_history(Some("conv-2")));
    assert!(chat.memory_tasks(true, false, 5).periodic);
    let (event, response) = chat.finish(Some(3));
    assert_eq!(event.get_str("status"), Some("completed"));
    assert_eq!(event.get_i64("assistant_message_id"), Some(9));
    assert_eq!(response.conversation_id, "conv-1");
    assert_eq!(response.user_message_id, Some(3));
    assert_eq!(response.assistant_message_id, Some(9));
}

#[test]
fn a_hidden_turn_that_passes_leaves_nothing() {
    let mut cancellation = TurnCancellationState::new();
    cancellation.register_turn("turn-1");
    let mut chat = turn(true, 1);
    assert_eq!(chat.begin_round(&cancellation), Ok(true));
    chat.round_response(" pass ", "");
    assert!(matches!(chat.draft_action(false), DraftAction::Nothing));
    assert!(chat.says_nothing());
    let end = chat.finish_silently(None);
    assert!(end.delete.is_empty());
    assert_eq!(end.complete.get_str("text"), Some(""));
    assert_eq!(end.finish.get_str("status"), Some("completed"));
    assert!(matches!(
        end.finish.get("assistant_message_id"),
        Some(JsonValue::Null)
    ));
    assert_eq!(end.response.conversation_id, "conv-1");
    assert_eq!(end.response.user_message_id, None);
    assert_eq!(end.response.assistant_message_id, None);

    let mut spoken = turn(true, 1);
    spoken.round_response("Look!", "");
    assert!(!spoken.says_nothing());
    assert_eq!(spoken.final_write(), FinalWrite::Insert);
    assert!(!spoken.enters_history(Some("conv-1")));
    assert!(!spoken.memory_tasks(true, true, 20).consolidation);
}

#[test]
fn a_hidden_turn_that_passes_after_tool_calls_deletes_what_it_stored() {
    let mut cancellation = TurnCancellationState::new();
    cancellation.register_turn("turn-1");
    let mut chat = turn(true, 2);
    assert_eq!(chat.begin_round(&cancellation), Ok(true));
    chat.round_response("", "");
    assert!(matches!(
        chat.after_tools(true, false, &Vec::new()),
        AfterTools::Native
    ));
    chat.row_stored(21);
    chat.row_stored(22);
    assert_eq!(chat.begin_round(&cancellation), Ok(true));
    chat.round_response("PASS", "");
    chat.no_tools(Vec::new());
    assert_eq!(chat.begin_round(&cancellation), Ok(false));
    assert!(chat.says_nothing());
    let end = chat.finish_silently(Some(5));
    assert_eq!(end.delete, vec![21, 22]);
    assert_eq!(end.response.user_message_id, Some(5));
    assert_eq!(end.response.assistant_message_id, None);

    let mut drafted = turn(true, 1);
    drafted.row_stored(1);
    drafted.stored_as(Some(2));
    assert_eq!(drafted.finish_silently(None).delete, vec![1, 2]);
}

#[test]
fn a_turn_without_text_fails_and_a_cancelled_one_is_reported() {
    let mut failed = turn(false, 1);
    failed.stream_error();
    assert_eq!(failed.final_write(), FinalWrite::Nothing);
    let (event, _) = failed.finish(None);
    assert_eq!(event.get_str("status"), Some("error"));

    let mut cancellation = TurnCancellationState::new();
    cancellation.register_turn("turn-1");
    cancellation
        .cancel_turn("turn-1", Some("user".to_string()))
        .unwrap();
    let mut cancelled = turn(false, 1);
    cancelled.stored_as(Some(4));
    let words = cancelled.begin_round(&cancellation).unwrap_err();
    assert!(is_turn_cancelled_error_message(&words));
    match cancelled.fail(KokoroError::Chat(words), Some(2)) {
        Ok((draft, event, response)) => {
            assert_eq!(draft, Some(4));
            assert_eq!(event.get_str("status"), Some("cancelled"));
            assert_eq!(response.assistant_message_id, None);
            assert_eq!(response.user_message_id, Some(2));
        }
        Err(error) => panic!("expected a response, got {error:?}"),
    }
    assert!(matches!(
        turn(false, 1).fail(KokoroError::Chat("boom".to_string()), None),
        Err(KokoroError::Chat(words)) if words == "boom"
    ));
}

#[test]
fn cancelled_turns_end_and_waiting_ends_with_them() {
    let mut state = TurnCancellationState::new();
    state.register_turn("a");
    assert!(state.has_turn("a"));
    assert!(!state.wait_over("a", &WaitEvent::Finished("b".to_string())));
    assert!(state.wait_over("a", &WaitEvent::Finished("a".to_string())));
    assert!(!state.wait_over("a", &WaitEvent::Lagged));
    state.clear_turn("a");
    assert!(state.wait_over("a", &WaitEvent::Lagged));
    assert!(state.wait_over("a", &WaitEvent::Over));
    let payload = state
        .build_turn_delta_payload_if_not_cancelled("b", "hi", Some("req"))
        .unwrap();
    assert_eq!(payload.get_str("delta"), Some("hi"));
    assert_eq!(payload.get_str("client_request_id"), Some("req"));
}

#[test]
fn native_calls_and_results_follow_each_other() {
    let mut messages = vec![plain_llm_message("user", "hi")];
    continue_with_results(
        &mut messages,
        "",
        vec![LlmToolCall {
            id: "c1".to_string(),
            name: "look".to_string(),
            arguments: "{}".to_string(),
        }],
        " ",
        Vec::new(),
        &vec![NativeResult {
            tool_call_id: "c1".to_string(),
            text: "seen".to_string(),
        }],
    );
    assert_eq!(messages.len(), 3);
    assert_eq!(messages[1].role, "assistant");
    assert_eq!(messages[1].tool_calls[0].name, "look");
    assert!(messages[1].reasoning_content.is_none());
    assert_eq!(messages[2].role, "tool");
    assert_eq!(messages[2].tool_call_id.as_deref(), Some("c1"));
    continue_with_text(&mut messages, "told");
    assert_eq!(messages[3].role, "system");
    let chat = turn(false, 1);
    let metadata = chat.tool_calls_metadata(&vec![JsonValue::Null], "why", &Vec::new());
    assert_eq!(metadata.get_str("type"), Some("assistant_tool_calls"));
    assert_eq!(metadata.get_str("turn_id"), Some("turn-1"));
    assert_eq!(metadata.get_str("reasoning_content"), Some("why"));
    assert!(metadata.get("provider_data").is_none());
}

#[test]
fn a_hidden_message_stands_last_with_the_screen_before_it() {
    let mut messages = vec![plain_llm_message("system", "s"), plain_llm_message("user", "old")];
    add_hidden_message(
        &mut messages,
        "now",
        Some(plain_llm_message("user", "screen")),
    );
    let texts: Vec<&str> = messages.iter().map(|m| m.text.as_str()).collect();
    assert_eq!(texts, vec!["s", "old", "screen", "now"]);
    attach_images(&mut messages, vec!["data:x".to_string()]);
    assert_eq!(messages[3].images, vec!["data:x"]);
    assert!(messages[1].images.is_empty());
    let mut none = vec![plain_llm_message("system", "s")];
    attach_images(&mut none, vec!["data:x".to_string()]);
    assert!(none[0].images.is_empty());
}

#[test]
fn local_images_are_found_and_sent_as_data() {
    assert_eq!(
        local_image_file("http://127.0.0.1:99/vision/a.png", 99).as_deref(),
        Some("a.png")
    );
    assert_eq!(
        local_image_file("http://127.0.0.1:99/vision/a/vision/b", 99).as_deref(),
        Some("a")
    );
    assert_eq!(local_image_file("http://127.0.0.1:98/vision/a.png", 99), None);
    assert_eq!(local_image_file("http://127.0.0.1:99/a.png", 99), None);
    assert_eq!(
        image_url_for_model("u", Some(b"hello"), None),
        "data:image/png;base64,aGVsbG8="
    );
    assert_eq!(
        image_url_for_model("u", Some(b"hello"), Some("image/gif")),
        "data:image/gif;base64,aGVsbG8="
    );
    assert_eq!(image_url_for_model("u", None, None), "u");
}

#[test]
fn requests_are_placed() {
    assert_eq!(place_chat_message(false, false, Some(1)), ChatPlacement::Store);
    assert_eq!(
        place_chat_message(false, true, Some(1)),
        ChatPlacement::Keep {
            user_message_id: Some(1),
            align: true
        }
    );
    assert_eq!(place_chat_message(false, true, None), ChatPlacement::Store);
    assert_eq!(
        place_chat_message(true, false, None),
        ChatPlacement::Keep {
            user_message_id: None,
            align: false
        }
    );
    assert!(matches!(chat_gate(Some("x")), Err(KokoroError::Chat(words))
        if words == "Character runtime is degraded (x). Please re-activate or select a character in Character Settings before sending messages."));
    assert!(chat_gate(None).is_ok());
    assert_eq!(chat_character(&None), "default");
    assert!(is_question("why?"));
    assert!(is_question("为什么？"));
    assert!(!is_question("no"));
    assert_eq!(kept_conversation_id(Some("c".to_string())), "c");
    let fresh = kept_conversation_id(None);
    assert_eq!(fresh.len(), 36);
    assert_ne!(fresh, kept_conversation_id(None));
    let providers = vec![ProviderFlags {
        id: "p".to_string(),
        supports_native_tools: false,
    }];
    assert!(!native_tools_enabled(&providers, "p", true));
    assert!(native_tools_enabled(&providers, "q", true));
    assert_eq!(tool_prompt(false, "t".to_string()).as_deref(), Some("t"));
    assert_eq!(tool_prompt(true, "t".to_string()), None);
    assert_eq!(tool_prompt(false, String::new()), None);
}

#[test]
fn helpers_ask_and_read_the_model() {
    assert_eq!(
        translation_instruction("French"),
        "You are a translator. Translate the following text into French. Output only the translation, nothing else."
    );
    assert!(cue_instruction(&Vec::new()).contains("(none)"));
    let cues = vec!["smile".to_string(), "wave".to_string()];
    assert!(cue_instruction(&cues).contains("smile, wave"));
    assert_eq!(strip_code_fence(" ```json{}``` "), "{}");
    assert_eq!(
        fallback_cue("```json\n{\"cue\": \" wave \"}\n```", Some(&cues)).as_deref(),
        Some("wave")
    );
    assert_eq!(fallback_cue("{\"cue\": \"fly\"}", Some(&cues)), None);
    assert_eq!(fallback_cue("{\"cue\": \"wave\"}", None), None);
    assert_eq!(fallback_cue("nonsense", Some(&cues)), None);
    assert_eq!(cue_payload("wave").get_str("source"), Some("fallback-cue"));
    let analysis = |should_generate, prompt: &str| BgAnalysis {
        should_generate,
        image_prompt: Some(prompt.to_string()),
    };
    assert_eq!(background_prompt(analysis(true, "sea")).as_deref(), Some("sea"));
    assert_eq!(background_prompt(analysis(false, "sea")), None);
    assert_eq!(background_prompt(analysis(true, "")), None);
    assert_eq!(background_question("hi"), "Character reply: hi");
}

#[test]
fn failures_and_observations_are_stored() {
    assert!(!rotates_failure_log(None));
    assert!(!rotates_failure_log(Some(FAILURE_EVENTS_LOG_MAX_BYTES - 1)));
    assert!(rotates_failure_log(Some(2 * 1024 * 1024)));
    let metadata = failure_event_metadata(JsonValue::Bool(true));
    assert_eq!(metadata.get_str("type"), Some("failure_event"));
    assert_eq!(metadata.get_bool("event"), Some(true));
    let observation = VisionObservation {
        id: "o".to_string(),
        captured_at: "c".to_string(),
        analyzed_at: "a".to_string(),
        summary: "s".to_string(),
        source: "auto".to_string(),
    };
    let stored = stored_vision_metadata(&observation, Some("turn-1"));
    assert_eq!(stored.get_str("turn_id"), Some("turn-1"));
    assert_eq!(stored.get_str("source"), Some("auto"));
    assert!(stored_vision_metadata(&observation, None)
        .get("turn_id")
        .is_none());
}
