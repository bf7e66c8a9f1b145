//! Images and audio: media types, data URLs and base64 payloads.

use vstd::prelude::*;
use crate::encoding;
use crate::encoding::{base64_decode, base64_encode};
use crate::text;
use crate::text::{
    char_count, concat2, concat3, contains_text, ends_with_text, find_char_text, head_text,
    is_blank, lower_text, starts_with_text, tail_text, trim_slice, trim_text,
};

verus! {

broadcast use vstd::string::group_string_axioms;

/// An image of a reply, base64 encoded.
#[derive(Debug, Clone)]
pub struct BotReplyImage {
    pub prompt: String,
    pub mime_type: String,
    pub file_name: String,
    pub data_base64: String,
}

/// The audio of a reply, base64 encoded.
#[derive(Debug, Clone)]
pub struct BotReplyAudio {
    pub mime_type: String,
    pub file_name: String,
    pub data_base64: String,
}

/// An image that was generated for a reply.
#[derive(Debug, Clone)]
pub struct GeneratedBotImage {
    pub prompt: String,
    pub mime_type: String,
    pub file_name: String,
    pub data: Vec<u8>,
}

/// The media type of an image file, by the ending of its name.
pub open spec fn image_mime(name: Seq<char>) -> Seq<char> {
    let n = text::lower(name);
    if text::ends_with(n, ".png"@) {
        "image/png"@
    } else if text::ends_with(n, ".webp"@) {
        "image/webp"@
    } else if text::ends_with(n, ".gif"@) {
        "image/gif"@
    } else {
        "image/jpeg"@
    }
}

pub fn image_mime_from_name(name: &str) -> (mime: &'static str)
    ensures
        mime@ == image_mime(name@),
{
    let n = lower_text(name);
    if ends_with_text(n.as_str(), ".png") {
        "image/png"
    } else if ends_with_text(n.as_str(), ".webp") {
        "image/webp"
    } else if ends_with_text(n.as_str(), ".gif") {
        "image/gif"
    } else {
        "image/jpeg"
    }
}

/// The audio format that a media type or a file name hints at.
pub open spec fn audio_format(hint: Seq<char>) -> Seq<char> {
    let h = text::lower(hint);
    if text::contains(h, "ogg"@) || text::contains(h, "opus"@) {
        "ogg"@
    } else if text::contains(h, "mpeg"@) || text::contains(h, "mp3"@) {
        "mp3"@
    } else if text::contains(h, "wav"@) {
        "wav"@
    } else if text::contains(h, "webm"@) {
        "webm"@
    } else if text::contains(h, "mp4"@) || text::contains(h, "m4a"@) {
        "m4a"@
    } else {
        "ogg"@
    }
}

/// The first of the two hints that is there; none is as good as an empty one.
pub open spec fn media_hint(mime_type: Option<Seq<char>>, name: Option<Seq<char>>) -> Seq<char> {
    match mime_type {
        Some(m) => m,
        None => match name {
            Some(n) => n,
            None => Seq::empty(),
        },
    }
}

/// The audio format by the media type, or without one by the file name.
pub fn audio_format_from_mime_or_name(mime_type: Option<&str>, name: Option<&str>) -> (format:
    String)
    ensures
        format@ == audio_format(media_hint(text::opt_str(mime_type), text::opt_str(name))),
{
    let hint = match mime_type {
        Some(m) => m.to_owned(),
        None => match name {
            Some(n) => n.to_owned(),
            None => String::new(),
        },
    };
    let h = lower_text(hint.as_str());
    let h = h.as_str();
    if contains_text(h, "ogg") || contains_text(h, "opus") {
        "ogg".to_owned()
    } else if contains_text(h, "mpeg") || contains_text(h, "mp3") {
        "mp3".to_owned()
    } else if contains_text(h, "wav") {
        "wav".to_owned()
    } else if contains_text(h, "webm") {
        "webm".to_owned()
    } else if contains_text(h, "mp4") || contains_text(h, "m4a") {
        "m4a".to_owned()
    } else {
        "ogg".to_owned()
    }
}

/// A media type without its parameters.
pub open spec fn clean_mime(mime_type: Seq<char>) -> Seq<char> {
    text::trim(
        match text::find_char(mime_type, ';', 0) {
            Some(at) => mime_type.take(at),
            None => mime_type,
        },
    )
}

pub fn clean_mime_type(mime_type: &str) -> (clean: &str)
    ensures
        clean@ == clean_mime(mime_type@),
{
    match find_char_text(mime_type, ';', 0) {
        Some(at) => trim_slice(mime_type.substring_char(0, at)),
        None => trim_slice(mime_type),
    }
}

pub open spec fn image_name(name: Seq<char>) -> bool {
    let n = text::lower(name);
    ||| text::ends_with(n, ".png"@)
    ||| text::ends_with(n, ".jpg"@)
    ||| text::ends_with(n, ".jpeg"@)
    ||| text::ends_with(n, ".webp"@)
    ||| text::ends_with(n, ".gif"@)
}

pub open spec fn audio_name(name: Seq<char>) -> bool {
    let n = text::lower(name);
    ||| text::ends_with(n, ".ogg"@)
    ||| text::ends_with(n, ".opus"@)
    ||| text::ends_with(n, ".mp3"@)
    ||| text::ends_with(n, ".wav"@)
    ||| text::ends_with(n, ".webm"@)
    ||| text::ends_with(n, ".m4a"@)
    ||| text::ends_with(n, ".mp4"@)
}

/// An image by its media type or by its file name.
pub open spec fn image_media(mime_type: Option<Seq<char>>, name: Option<Seq<char>>) -> bool {
    ||| mime_type matches Some(m) && text::starts_with(clean_mime(m), "image/"@)
    ||| name matches Some(n) && image_name(n)
}

/// Audio by its media type or by its file name.
pub open spec fn audio_media(mime_type: Option<Seq<char>>, name: Option<Seq<char>>) -> bool {
    ||| mime_type matches Some(m) && text::starts_with(clean_mime(m), "audio/"@)
    ||| name matches Some(n) && audio_name(n)
}

fn has_image_name(name: &str) -> (b: bool)
    ensures
        b == image_name(name@),
{
    let n = lower_text(name);
    let n = n.as_str();
    ends_with_text(n, ".png") || ends_with_text(n, ".jpg") || ends_with_text(n, ".jpeg")
        || ends_with_text(n, ".webp") || ends_with_text(n, ".gif")
}

fn has_audio_name(name: &str) -> (b: bool)
    ensures
        b == audio_name(name@),
{
    let n = lower_text(name);
    let n = n.as_str();
    ends_with_text(n, ".ogg") || ends_with_text(n, ".opus") || ends_with_text(n, ".mp3")
        || ends_with_text(n, ".wav") || ends_with_text(n, ".webm") || ends_with_text(n, ".m4a")
        || ends_with_text(n, ".mp4")
}

pub fn is_image_media(mime_type: Option<&str>, name: Option<&str>) -> (b: bool)
    ensures
        b == image_media(text::opt_str(mime_type), text::opt_str(name)),
{
    let by_type = match mime_type {
        Some(m) => starts_with_text(clean_mime_type(m), "image/"),
        None => false,
    };
    by_type || match name {
        Some(n) => has_image_name(n),
        None => false,
    }
}

pub fn is_audio_media(mime_type: Option<&str>, name: Option<&str>) -> (b: bool)
    ensures
        b == audio_media(text::opt_str(mime_type), text::opt_str(name)),
{
    let by_type = match mime_type {
        Some(m) => starts_with_text(clean_mime_type(m), "audio/"),
        None => false,
    };
    by_type || match name {
        Some(n) => has_audio_name(n),
        None => false,
    }
}

/// A data URL of the given media type.
pub open spec fn data_url(mime_type: Seq<char>, payload: Seq<char>) -> Seq<char> {
    "data:"@ + mime_type + ";base64,"@ + payload
}

fn make_data_url(mime_type: &str, payload: &str) -> (url: String)
    ensures
        url@ == data_url(mime_type@, payload@),
{
    concat2(concat3("data:", mime_type, ";base64,").as_str(), payload)
}

/// The data URL that holds `data`.
pub fn image_data_url(data: &[u8], mime_type: &str) -> (url: String)
    ensures
        url@ == data_url(clean_mime(mime_type@), encoding::base64_encoded(data@)),
{
    make_data_url(clean_mime_type(mime_type), base64_encode(data).as_str())
}

pub open spec fn web_url(s: Seq<char>) -> bool {
    text::starts_with(s, "http://"@) || text::starts_with(s, "https://"@)
}

/// An image reference as an URL: unchanged where it is one, else taken as
/// base64 data of the type `fallback_mime`. A blank one refers to nothing.
pub open spec fn image_reference(value: Seq<char>, fallback_mime: Seq<char>) -> Option<Seq<char>> {
    let v = text::trim(value);
    if v.len() == 0 {
        None
    } else if text::starts_with(v, "data:image/"@) || web_url(v) {
        Some(v)
    } else {
        Some(data_url(fallback_mime, v))
    }
}

fn is_web_url(value: &str) -> (b: bool)
    ensures
        b == web_url(value@),
{
    starts_with_text(value, "http://") || starts_with_text(value, "https://")
}

pub fn normalize_image_reference(value: &str, fallback_mime: &str) -> (r: Option<String>)
    ensures
        text::opt_view(r) == image_reference(value@, fallback_mime@),
{
    let v = trim_text(value);
    if v.as_str().is_empty() {
        return None;
    }
    if starts_with_text(v.as_str(), "data:image/") || is_web_url(v.as_str()) {
        Some(v)
    } else {
        Some(make_data_url(fallback_mime, v.as_str()))
    }
}

/// What is behind the first comma of `s`, or all of it.
pub open spec fn after_comma(s: Seq<char>) -> Seq<char> {
    match text::find_char(s, ',', 0) {
        Some(at) => s.skip(at + 1),
        None => s,
    }
}

/// Why an image reference is refused, if it is.
pub open spec fn image_reference_fault(value: Seq<char>) -> Option<Seq<char>> {
    let v = text::trim(value);
    if v.len() == 0 {
        Some("Invalid image base64: empty payload"@)
    } else if web_url(v) {
        None
    } else if text::find_char(v, ',', 0) matches Some(at) && !(text::starts_with(v.take(at), "data:image/"@)
        && text::contains(v.take(at), ";base64"@)) {
        Some("Invalid image base64: unsupported data URL"@)
    } else {
        match encoding::base64_decoded(after_comma(v)) {
            Ok(_) => None,
            Err(error) => Some("Invalid image base64: "@ + error),
        }
    }
}

fn payload_of(value: &str) -> (payload: String)
    ensures
        payload@ == after_comma(value@),
{
    match find_char_text(value, ',', 0) {
        Some(at) => tail_text(value, at + 1),
        None => value.to_owned(),
    }
}

/// Accepts a web URL, and a bare payload or an image data URL that holds
/// valid base64.
pub fn validate_image_reference(value: &str) -> (r: Result<(), String>)
    ensures
        match r {
            Ok(_) => image_reference_fault(value@) is None,
            Err(error) => image_reference_fault(value@) == Some(error@),
        },
{
    let v = trim_text(value);
    let v = v.as_str();
    if v.is_empty() {
        return Err("Invalid image base64: empty payload".to_owned());
    }
    if is_web_url(v) {
        return Ok(());
    }
    check_image_payload(v, base64_decode(payload_of(v).as_str()))
}

/// What `validate_image_reference` returns for a trimmed reference that is
/// neither empty nor a web URL, given what decoding its payload gave.
pub fn check_image_payload(value: &str, decoded: Result<Vec<u8>, String>) -> (r: Result<
    (),
    String,
>)
    ensures
        match r {
            Ok(_) => payload_fault(value@, decode_fault(decoded)) is None,
            Err(error) => payload_fault(value@, decode_fault(decoded)) == Some(error@),
        },
{
    match find_char_text(value, ',', 0) {
        Some(at) => {
            let header = head_text(value, at);
            if !starts_with_text(header.as_str(), "data:image/") || !contains_text(
                header.as_str(),
                ";base64",
            ) {
                return Err("Invalid image base64: unsupported data URL".to_owned());
            }
        },
        None => {},
    }
    match decoded {
        Ok(_) => Ok(()),
        Err(error) => Err(concat2("Invalid image base64: ", error.as_str())),
    }
}

pub open spec fn decode_fault(decoded: Result<Vec<u8>, String>) -> Option<Seq<char>> {
    match decoded {
        Ok(_) => None,
        Err(error) => Some(error@),
    }
}

/// Why a payload is refused, given why decoding it failed, if it did.
pub open spec fn payload_fault(value: Seq<char>, fault: Option<Seq<char>>) -> Option<Seq<char>> {
    if text::find_char(value, ',', 0) matches Some(at) && !(text::starts_with(value.take(at), "data:image/"@)
        && text::contains(value.take(at), ";base64"@)) {
        Some("Invalid image base64: unsupported data URL"@)
    } else {
        match fault {
            Some(error) => Some("Invalid image base64: "@ + error),
            None => None,
        }
    }
}

/// A text of base64 symbols is its own payload.
pub proof fn lemma_symbols_are_payload(s: Seq<char>)
    requires
        encoding::base64_text(s),
    ensures
        after_comma(text::trim(s)) == s,
{
    if s.len() > 0 {
        assert(encoding::base64_symbol(s[0]) && encoding::base64_symbol(s[s.len() - 1]));
    }
    text::lemma_trim_fixed(s);
    text::lemma_find_char_bounds(s, ',', 0);
    if let Some(at) = text::find_char(s, ',', 0) {
        assert(encoding::base64_symbol(s[at]));
    }
}

/// The bytes of a base64 payload, which may stand behind a data URL header.
pub open spec fn payload_bytes(value: Seq<char>) -> Result<Seq<u8>, Seq<char>> {
    match encoding::base64_decoded(after_comma(text::trim(value))) {
        Ok(bytes) => Ok(bytes),
        Err(error) => Err("Invalid base64 payload: "@ + error),
    }
}

pub fn decode_base64_payload(value: &str) -> (r: Result<Vec<u8>, String>)
    ensures
        encoding::bytes_view(r) == payload_bytes(value@),
        encoding::base64_text(value@) ==> forall|bytes: Seq<u8>|
            value@ == #[trigger] encoding::base64_encoded(bytes) ==> encoding::decodes_to(r, bytes),
{
    let v = trim_text(value);
    proof {
        if encoding::base64_text(value@) {
            lemma_symbols_are_payload(value@);
        }
    }
    match base64_decode(payload_of(v.as_str()).as_str()) {
        Ok(bytes) => Ok(bytes),
        Err(error) => Err(concat2("Invalid base64 payload: ", error.as_str())),
    }
}

/// The bytes of an image of a reply. Those of an image that
/// `bot_reply_image_from_generated` made are the bytes that were generated.
pub fn bot_reply_image_bytes(image: &BotReplyImage) -> (r: Result<Vec<u8>, String>)
    ensures
        encoding::bytes_view(r) == payload_bytes(image.data_base64@),
        encoding::base64_text(image.data_base64@) ==> forall|bytes: Seq<u8>|
            image.data_base64@ == #[trigger] encoding::base64_encoded(bytes)
                ==> encoding::decodes_to(r, bytes),
{
    decode_base64_payload(image.data_base64.as_str())
}

/// An image as it goes into a reply.
pub fn bot_reply_image_from_generated(image: GeneratedBotImage) -> (r: BotReplyImage)
    ensures
        r.prompt@ == image.prompt@,
        r.mime_type@ == image.mime_type@,
        r.file_name@ == image.file_name@,
        r.data_base64@ == encoding::base64_encoded(image.data@),
        encoding::base64_text(r.data_base64@),
{
    let data_base64 = base64_encode(image.data.as_slice());
    BotReplyImage {
        prompt: image.prompt,
        mime_type: image.mime_type,
        file_name: image.file_name,
        data_base64,
    }
}

/// The file name of a generated image; one without a usable name gets
/// `image.png`.
pub open spec fn generated_name(file_name: Option<Seq<char>>) -> Seq<char> {
    match file_name {
        Some(name) => name,
        None => "image.png"@,
    }
}

/// The image that was read from a file.
pub fn generated_image(prompt: &str, file_name: Option<&str>, data: Vec<u8>) -> (image:
    GeneratedBotImage)
    ensures
        image.prompt@ == prompt@,
        image.file_name@ == generated_name(text::opt_str(file_name)),
        image.mime_type@ == image_mime(image.file_name@),
        image.data@ == data@,
{
    let file_name = match file_name {
        Some(name) => name.to_owned(),
        None => "image.png".to_owned(),
    };
    let mime_type = image_mime_from_name(file_name.as_str()).to_owned();
    GeneratedBotImage { prompt: prompt.to_owned(), mime_type, file_name, data }
}

/// The audio of a webhook reply.
pub fn voice_reply(data: &[u8]) -> (audio: BotReplyAudio)
    ensures
        audio.mime_type@ == "audio/ogg"@,
        audio.file_name@ == "reply.ogg"@,
        audio.data_base64@ == encoding::base64_encoded(data@),
        encoding::base64_text(audio.data_base64@),
{
    let data_base64 = base64_encode(data);
    BotReplyAudio {
        mime_type: "audio/ogg".to_owned(),
        file_name: "reply.ogg".to_owned(),
        data_base64,
    }
}

/// The text of a message with what was said in its voice part.
pub open spec fn transcribed(s: Seq<char>, transcription: Option<Seq<char>>) -> Seq<char> {
    match transcription {
        Some(t) => if text::blank(t) {
            s
        } else if text::blank(s) {
            t
        } else {
            s + "\n\nVoice message transcript: "@ + t
        },
        None => s,
    }
}

pub fn text_with_transcription(text: String, transcription: Option<String>) -> (r: String)
    ensures
        r@ == transcribed(text@, text::opt_view(transcription)),
{
    match transcription {
        Some(t) => if is_blank(t.as_str()) {
            text
        } else if is_blank(text.as_str()) {
            t
        } else {
            concat3(text.as_str(), "\n\nVoice message transcript: ", t.as_str())
        },
        None => text,
    }
}

/// What a transcriber said, trimmed; nothing where that is empty.
pub fn usable_transcription(said: &str) -> (r: Option<String>)
    ensures
        text::opt_view(r) == (if text::blank(said@) {
            None
        } else {
            Some(text::trim(said@))
        }),
{
    let said = trim_text(said);
    if said.as_str().is_empty() {
        None
    } else {
        Some(said)
    }
}

/// At most `max_chars` characters of `s`, and `...` where some are left out.
pub open spec fn truncated(s: Seq<char>, max_chars: int) -> Seq<char> {
    if s.len() > max_chars {
        s.take(max_chars) + "..."@
    } else {
        s
    }
}

pub fn truncate_for_platform(text: &str, max_chars: usize) -> (r: String)
    ensures
        r@ == truncated(text@, max_chars as int),
        r@.len() <= max_chars + 3,
{
    proof {
        reveal_strlit("...");
    }
    if char_count(text) > max_chars {
        concat2(head_text(text, max_chars).as_str(), "...")
    } else {
        text.to_owned()
    }
}

} // verus!
