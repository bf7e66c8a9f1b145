//! Texts, media and encodings.

use kokoro::encoding::hex_digest;
use kokoro::json::{json_int, json_uint};
use kokoro::media::{
    audio_format_from_mime_or_name, bot_reply_image_bytes, bot_reply_image_from_generated,
    check_image_payload, clean_mime_type, decode_base64_payload, generated_image, image_data_url,
    image_mime_from_name, is_audio_media, is_image_media, text_with_transcription,
    truncate_for_platform, usable_transcription, validate_image_reference, voice_reply,
};
use kokoro::memory::memory_tasks;
use kokoro::reply_text::{
    compact_newlines, extract_translate_tags, merge_continuation_text, strip_leaked_tags,
};
use kokoro::tags::parse_tool_call_tags;
use kokoro::text::{
    decimal_text, find_text, join_text, lines_text, rfind_text, signed_decimal_text, split_text,
    text_not_after, trim_text,
};
use kokoro::text_table::TextTable;

#[test]
fn texts_are_trimmed_split_and_joined() {
    assert_eq!(trim_text(" \t a\u{3000}b \n"), "a\u{3000}b");
    assert_eq!(find_text("aXbX", "X", 2), Some(3));
    assert_eq!(rfind_text("aXbX", "X"), Some(3));
    let parts = split_text("a,b,,c", ',');
    assert_eq!(parts, vec!["a", "b", "", "c"]);
    assert_eq!(join_text(&parts, "-"), "a-b--c");
    assert_eq!(lines_text("a\r\nb\n"), vec!["a", "b"]);
    assert_eq!(decimal_text(0), "0");
    assert_eq!(decimal_text(u64::MAX), "18446744073709551615");
    assert_eq!(signed_decimal_text(i64::MIN), "-9223372036854775808");
    assert!(text_not_after("a", "a"));
    assert!(text_not_after("a", "ab"));
    assert!(!text_not_after("b", "ab"));
}

#[test]
fn tables_hold_one_value_to_a_key() {
    let mut table: TextTable<u32> = TextTable::new();
    table.insert("a".to_string(), 1);
    table.insert("a".to_string(), 2);
    assert_eq!(table.get("a"), Some(&2));
    assert_eq!(table.pairs().len(), 1);
    assert_eq!(table.remove("a"), Some(2));
    assert!(!table.has("a"));
    assert_eq!(table.remove("a"), None);
}

#[test]
fn tool_calls_come_in_the_order_of_the_text() {
    let (cleaned, calls) = parse_tool_call_tags("[wave|hand=left] x [TOOL_CALL:nod] y");
    assert_eq!(calls.len(), 2);
    assert_eq!(calls[0].name, "wave");
    assert_eq!(calls[1].name, "nod");
    assert!(!cleaned.contains('['));
    let (_, none) = parse_tool_call_tags("[not a call] [TOOL_CALL:open");
    assert!(none.is_empty());
}

#[test]
fn replies_hold_no_tags_in_the_end() {
    let (text, translation) = extract_translate_tags("a [TRANSLATE:x] b [TRANSLATE: y ]");
    assert!(!text.contains("[TRANSLATE:"));
    assert_eq!(translation.as_deref(), Some("x y"));
    let stripped = strip_leaked_tags("a <tool_result>secret</tool_result> b");
    assert!(!stripped.contains("<tool_result>"));
    assert!(!stripped.contains("secret"));
    assert!(!compact_newlines("a\n\n\nb").contains("\n\n\n"));
}

#[test]
fn compacting_keeps_the_lines_that_say_something() {
    let compact = compact_newlines("\n \t\n  one  \r\n\n\n  two\t\n \nthree \n\n");
    assert_eq!(compact, "one\n  two\nthree");
    assert_eq!(compact_newlines(&compact), compact);
    assert_eq!(compact_newlines(" \n\r\n "), "");
}

#[test]
fn rounds_are_merged_with_a_space() {
    let mut all = String::new();
    merge_continuation_text(&mut all, " one ");
    merge_continuation_text(&mut all, "  ");
    merge_continuation_text(&mut all, "two");
    assert_eq!(all, "one two");
}

#[test]
fn digests_are_printed_in_hex() {
    assert_eq!(hex_digest(&[0, 15, 255]), "000fff");
}

#[test]
fn numbers_become_json() {
    assert!(matches!(json_uint(7), kokoro::json::JsonValue::Number(n) if n.digits == "7"));
    assert!(matches!(json_int(-7), kokoro::json::JsonValue::Number(n) if n.as_i64 == Some(-7) && n.as_u64.is_none()));
}

#[test]
fn media_types_follow_names() {
    assert_eq!(image_mime_from_name("A.PNG"), "image/png");
    assert_eq!(image_mime_from_name("a.webp"), "image/webp");
    assert_eq!(image_mime_from_name("a.gif"), "image/gif");
    assert_eq!(image_mime_from_name("a"), "image/jpeg");
    assert_eq!(audio_format_from_mime_or_name(Some("audio/mpeg"), None), "mp3");
    assert_eq!(audio_format_from_mime_or_name(None, Some("a.wav")), "wav");
    assert_eq!(audio_format_from_mime_or_name(None, None), "ogg");
    assert_eq!(clean_mime_type(" image/png ; q=1"), "image/png");
    assert!(is_image_media(Some("image/png"), None));
    assert!(is_image_media(None, Some("x.JPG")));
    assert!(!is_image_media(Some("text/plain"), Some("x.txt")));
    assert!(is_audio_media(Some("audio/ogg"), None));
    assert!(!is_audio_media(None, None));
    assert_eq!(image_data_url(b"hello", "image/png; a"), "data:image/png;base64,aGVsbG8=");
}

#[test]
fn image_references_are_checked() {
    assert!(validate_image_reference("https://x/y").is_ok());
    assert!(validate_image_reference("data:image/png;base64,aGVsbG8=").is_ok());
    assert_eq!(
        validate_image_reference("  ").unwrap_err(),
        "Invalid image base64: empty payload"
    );
    assert_eq!(
        validate_image_reference("data:text/plain,hello").unwrap_err(),
        "Invalid image base64: unsupported data URL"
    );
    assert!(validate_image_reference("****")
        .unwrap_err()
        .starts_with("Invalid image base64: "));
    assert_eq!(
        check_image_payload("aGk=", Err("bad".to_string())).unwrap_err(),
        "Invalid image base64: bad"
    );
    assert_eq!(decode_base64_payload("data:x;base64,aGVsbG8=").unwrap(), b"hello");
    assert!(decode_base64_payload("*")
        .unwrap_err()
        .starts_with("Invalid base64 payload: "));
}

#[test]
fn generated_images_come_back_unchanged() {
    let image = generated_image("cat", Some("c.png"), vec![0, 1, 2, 254, 255]);
    assert_eq!(image.mime_type, "image/png");
    let reply = bot_reply_image_from_generated(image);
    assert_eq!(bot_reply_image_bytes(&reply).unwrap(), vec![0, 1, 2, 254, 255]);
    assert_eq!(generated_image("cat", None, Vec::new()).file_name, "image.png");
    let audio = voice_reply(b"hello");
    assert_eq!(audio.data_base64, "aGVsbG8=");
    assert_eq!(audio.mime_type, "audio/ogg");
    assert_eq!(audio.file_name, "reply.ogg");
}

#[test]
fn transcriptions_join_the_text() {
    assert_eq!(
        text_with_transcription("a".to_string(), Some("b".to_string())),
        "a\n\nVoice message transcript: b"
    );
    assert_eq!(text_with_transcription(" ".to_string(), Some("b".to_string())), "b");
    assert_eq!(text_with_transcription("a".to_string(), Some(" ".to_string())), "a");
    assert_eq!(usable_transcription(" x ").as_deref(), Some("x"));
    assert_eq!(usable_transcription(" "), None);
    assert_eq!(truncate_for_platform("ééé", 2), "éé...");
    assert_eq!(truncate_for_platform("ééé", 3), "ééé");
}

#[test]
fn memory_tasks_come_due_by_count() {
    let at = |count| memory_tasks(true, false, count);
    assert!(!at(0).periodic);
    assert!(at(5).periodic && !at(5).consolidation);
    assert!(at(20).periodic && at(20).consolidation);
    assert!(memory_tasks(true, true, 1).event);
    let off = memory_tasks(false, true, 20);
    assert!(!off.event && !off.periodic && !off.consolidation);
}
