//! The LINE bot: checking a webhook call, choosing what to answer, and what
//! the answer says.

use vstd::prelude::*;
use vstd::utf8::*;
use crate::bot_config::LineBotConfig;
use crate::bot_reply;
use crate::bot_reply::{reply_text_with_translation, BotReply};
use crate::encoding;
use crate::encoding::{base64_encode, hmac_sha256};
use crate::media;
use crate::media::{image_data_url, truncate_for_platform};
use crate::text;
use crate::text::{concat2, concat3, contains_entry, is_blank, same_text, trim_text};
use crate::webhook;
use crate::webhook::HttpError;

verus! {

broadcast use vstd::string::group_string_axioms;

/// A call of the LINE webhook.
#[derive(Debug)]
pub struct LineWebhookPayload {
    pub events: Vec<LineEvent>,
}

/// An event that LINE reports.
#[derive(Debug)]
pub struct LineEvent {
    pub event_type: String,
    pub reply_token: Option<String>,
    pub source: Option<LineSource>,
    pub message: Option<LineMessage>,
}

/// Where an event comes from.
#[derive(Debug)]
pub struct LineSource {
    pub user_id: Option<String>,
}

/// The message of an event.
#[derive(Debug)]
pub struct LineMessage {
    pub id: Option<String>,
    pub message_type: String,
    pub text: Option<String>,
}

/// The signature is the base64 form of the code of the body under the channel
/// secret.
pub open spec fn signature_matches(code: Seq<u8>, signature: Seq<char>) -> bool {
    encoding::base64_encoded(code) == text::trim(signature)
}

/// Checks the signature of a webhook call.
pub fn verify_line_signature(secret: &str, body: &[u8], signature: &str) -> (b: bool)
    ensures
        b == signature_matches(
            encoding::hmac_sha256_code(encode_utf8(secret@), body@),
            signature@,
        ),
{
    match hmac_sha256(secret.as_bytes(), body) {
        Some(code) => signature_is(base64_encode(code.as_slice()).as_str(), signature),
        None => false,
    }
}

/// Compares the expected signature with the one that was sent, which may have
/// white space around it.
pub fn signature_is(expected: &str, signature: &str) -> (b: bool)
    ensures
        b == (expected@ == text::trim(signature@)),
{
    same_text(expected, trim_text(signature).as_str())
}

/// Why a webhook call is refused, if it is: the status and the words. The
/// checks come in this order: the secret, the signature, the access token, the
/// body.
pub open spec fn line_fault(
    secret: Option<Seq<char>>,
    signature: Option<Seq<char>>,
    body: Seq<u8>,
    token_known: bool,
    payload_error: Option<Seq<char>>,
) -> Option<(u16, Seq<char>)> {
    match secret {
        None => Some((500, "LINE channel secret is not configured"@)),
        Some(secret) => match signature {
            None => Some((401, "Missing LINE signature"@)),
            Some(signature) => if !signature_matches(
                encoding::hmac_sha256_code(encode_utf8(secret), body),
                signature,
            ) {
                Some((401, "Invalid LINE signature"@))
            } else if !token_known {
                Some((500, "LINE channel access token is not configured"@))
            } else {
                match payload_error {
                    Some(error) => Some((400, "Invalid JSON: "@ + error)),
                    None => None,
                }
            },
        },
    }
}

pub open spec fn error_of(payload: Result<LineWebhookPayload, String>) -> Option<Seq<char>> {
    match payload {
        Ok(_) => None,
        Err(error) => Some(error@),
    }
}

/// Lets a webhook call in. `payload` is what decoding the body as JSON gave.
pub fn admit_line_webhook(
    secret: Option<&str>,
    signature: Option<&str>,
    body: &[u8],
    token_known: bool,
    payload: Result<LineWebhookPayload, String>,
) -> (r: Result<LineWebhookPayload, HttpError>)
    ensures
        match line_fault(
            text::opt_str(secret),
            text::opt_str(signature),
            body@,
            token_known,
            error_of(payload),
        ) {
            Some((status, message)) => r matches Err(error) && webhook::is_error(
                error,
                status,
                message,
            ),
            None => r matches Ok(admitted) && payload == Ok::<LineWebhookPayload, String>(admitted),
        },
{
    let secret = match secret {
        Some(secret) => secret,
        None => {
            return Err(
                HttpError {
                    status: 500,
                    message: "LINE channel secret is not configured".to_owned(),
                },
            );
        },
    };
    let signature = match signature {
        Some(signature) => signature,
        None => {
            return Err(HttpError { status: 401, message: "Missing LINE signature".to_owned() });
        },
    };
    if !verify_line_signature(secret, body, signature) {
        return Err(HttpError { status: 401, message: "Invalid LINE signature".to_owned() });
    }
    if !token_known {
        return Err(
            HttpError {
                status: 500,
                message: "LINE channel access token is not configured".to_owned(),
            },
        );
    }
    match payload {
        Ok(payload) => Ok(payload),
        Err(error) => Err(
            HttpError { status: 400, message: concat2("Invalid JSON: ", error.as_str()) },
        ),
    }
}

/// What an event asks for.
#[derive(Debug)]
pub enum LineTask {
    /// A text to answer.
    Say(String),
    /// An image to fetch from this address.
    Image(String),
    /// Audio to fetch from this address.
    Audio(String),
}

/// An event that is answered.
#[derive(Debug)]
pub struct LineWork {
    pub reply_token: String,
    pub user_id: Option<String>,
    pub task: LineTask,
}

/// The address of the content of a message.
pub open spec fn content_url(message_id: Seq<char>) -> Seq<char> {
    "https://api-data.line.me/v2/bot/message/"@ + message_id + "/content"@
}

pub ghost enum TaskView {
    Say(Seq<char>),
    Image(Seq<char>),
    Audio(Seq<char>),
}

impl View for LineTask {
    type V = TaskView;

    open spec fn view(&self) -> TaskView {
        match self {
            LineTask::Say(s) => TaskView::Say(s@),
            LineTask::Image(url) => TaskView::Image(url@),
            LineTask::Audio(url) => TaskView::Audio(url@),
        }
    }
}

/// What a message asks for. A blank text asks for nothing, and neither does a
/// message of another type, or an image or audio without an id.
pub open spec fn task_of(message: LineMessage) -> Option<TaskView> {
    if message.message_type@ == "text"@ {
        match message.text {
            Some(t) => if text::blank(t@) {
                None
            } else {
                Some(TaskView::Say(t@))
            },
            None => None,
        }
    } else if message.message_type@ == "image"@ {
        match message.id {
            Some(id) => Some(TaskView::Image(content_url(id@))),
            None => None,
        }
    } else if message.message_type@ == "audio"@ {
        match message.id {
            Some(id) => Some(TaskView::Audio(content_url(id@))),
            None => None,
        }
    } else {
        None
    }
}

/// The user whom an event comes from.
pub open spec fn sender(event: LineEvent) -> Option<Seq<char>> {
    match event.source {
        Some(source) => text::opt_view(source.user_id),
        None => None,
    }
}

/// Where users are listed, only they are answered.
pub open spec fn sender_allowed(allowed: Seq<Seq<char>>, user: Option<Seq<char>>) -> bool {
    allowed.len() == 0 || (user matches Some(id) && allowed.contains(id))
}

/// The event is a message from someone who may talk to the bot, it can be
/// answered, and it asks for something.
pub open spec fn answerable(config: LineBotConfig, event: LineEvent) -> bool {
    &&& event.event_type@ == "message"@
    &&& event.message is Some
    &&& sender_allowed(text::views(config.allowed_user_ids@), sender(event))
    &&& event.reply_token is Some
    &&& task_of(event.message->0) is Some
}

fn line_task(message: LineMessage) -> (task: Option<LineTask>)
    ensures
        match task {
            Some(task) => task_of(message) == Some(task@),
            None => task_of(message) is None,
        },
{
    if same_text(message.message_type.as_str(), "text") {
        match message.text {
            Some(t) => if is_blank(t.as_str()) {
                None
            } else {
                Some(LineTask::Say(t))
            },
            None => None,
        }
    } else if same_text(message.message_type.as_str(), "image") {
        match message.id {
            Some(id) => Some(LineTask::Image(line_content_url(id.as_str()))),
            None => None,
        }
    } else if same_text(message.message_type.as_str(), "audio") {
        match message.id {
            Some(id) => Some(LineTask::Audio(line_content_url(id.as_str()))),
            None => None,
        }
    } else {
        None
    }
}

fn line_content_url(message_id: &str) -> (url: String)
    ensures
        url@ == content_url(message_id@),
{
    concat3("https://api-data.line.me/v2/bot/message/", message_id, "/content")
}

/// What an event asks for, where it is answered at all.
pub fn line_work(config: &LineBotConfig, event: LineEvent) -> (work: Option<LineWork>)
    ensures
        match work {
            Some(work) => {
                &&& answerable(*config, event)
                &&& Some(work.reply_token@) == text::opt_view(event.reply_token)
                &&& text::opt_view(work.user_id) == sender(event)
                &&& task_of(event.message->0) == Some(work.task@)
            },
            None => !answerable(*config, event),
        },
{
    if !same_text(event.event_type.as_str(), "message") {
        return None;
    }
    let message = match event.message {
        Some(message) => message,
        None => {
            return None;
        },
    };
    let user_id = match event.source {
        Some(source) => source.user_id,
        None => None,
    };
    if config.allowed_user_ids.len() > 0 {
        match &user_id {
            Some(id) => {
                if !contains_entry(&config.allowed_user_ids, id.as_str()) {
                    return None;
                }
            },
            None => {
                return None;
            },
        }
    }
    let reply_token = match event.reply_token {
        Some(token) => token,
        None => {
            return None;
        },
    };
    match line_task(message) {
        Some(task) => Some(LineWork { reply_token, user_id, task }),
        None => None,
    }
}

/// An image that was fetched, as an URL for the model. Without a media type it
/// is taken as JPEG.
pub fn line_image_url(data: &[u8], content_type: Option<&str>) -> (url: String)
    ensures
        url@ == media::data_url(
            media::clean_mime(
                match text::opt_str(content_type) {
                    Some(t) => t,
                    None => "image/jpeg"@,
                },
            ),
            encoding::base64_encoded(data@),
        ),
{
    match content_type {
        Some(t) => image_data_url(data, t),
        None => image_data_url(data, "image/jpeg"),
    }
}

/// What follows on the transcription of audio: a message to answer, or a note
/// to send back.
#[derive(Debug)]
pub enum LineAudio {
    Message(String),
    Note(String),
}

pub fn line_audio_outcome(transcription: Result<Option<String>, String>) -> (r: LineAudio)
    ensures
        match transcription {
            Ok(Some(said)) => r == LineAudio::Message(said),
            Ok(None) => r matches LineAudio::Note(note) && note@ == "(Could not recognize speech)"@,
            Err(_) => r matches LineAudio::Note(note) && note@
                == "Failed to transcribe audio message."@,
        },
{
    match transcription {
        Ok(Some(said)) => LineAudio::Message(said),
        Ok(None) => LineAudio::Note("(Could not recognize speech)".to_owned()),
        Err(_) => LineAudio::Note("Failed to transcribe audio message.".to_owned()),
    }
}

/// What is said about images, which LINE cannot show.
pub open spec fn image_notice(count: int) -> Seq<char> {
    if count == 0 {
        "Image generation was requested, but Kokoro Engine could not create the image. Please check the Kokoro Engine client."@
    } else {
        "Image generated in Kokoro Engine. Please open the Kokoro Engine client to view it."@
    }
}

/// The text that is sent for a reply.
pub open spec fn line_text(body: Seq<char>, image_requested: bool, count: int) -> Seq<char> {
    if !image_requested {
        body
    } else if text::blank(body) {
        image_notice(count)
    } else {
        body + "\n\n"@ + image_notice(count)
    }
}

/// The text that is sent for a reply. `image_requested` says whether the reply
/// asked for images or came with some, before those that it asked for were
/// made.
pub fn line_reply_text(reply: &BotReply, image_requested: bool) -> (r: String)
    ensures
        r@ == line_text(
            bot_reply::with_translation(reply.reply@, text::opt_view(reply.translation)),
            image_requested,
            reply.generated_image_count as int,
        ),
{
    let body = reply_text_with_translation(reply);
    if !image_requested {
        return body;
    }
    let notice = if reply.generated_image_count == 0 {
        "Image generation was requested, but Kokoro Engine could not create the image. Please check the Kokoro Engine client."
    } else {
        "Image generated in Kokoro Engine. Please open the Kokoro Engine client to view it."
    };
    if is_blank(body.as_str()) {
        notice.to_owned()
    } else {
        concat3(body.as_str(), "\n\n", notice)
    }
}

/// The reply asks for images, or came with some.
pub fn wants_images(reply: &BotReply) -> (b: bool)
    ensures
        b == (reply.image_prompts@.len() > 0 || reply.generated_image_count > 0),
{
    reply.image_prompts.len() > 0 || reply.generated_image_count > 0
}

/// The text as LINE takes it.
pub fn line_message_text(body: &str) -> (r: String)
    ensures
        r@ == media::truncated(body@, 4900),
        r@.len() <= 4903,
{
    truncate_for_platform(body, 4900)
}

} // verus!
