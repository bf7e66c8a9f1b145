//! The Discord bot: the gateway session, and what is answered in a channel.

use vstd::prelude::*;
use crate::bot_config::DiscordBotConfig;
use crate::json;
use crate::json::{
    json_int, json_text, json_uint, parse_json, print_json, JsonObject, JsonValue, JsonView,
};
use crate::media;
use crate::media::{
    audio_format_from_mime_or_name, image_mime_from_name, is_audio_media, is_image_media,
    text_with_transcription, truncate_for_platform,
};
use crate::text;
use crate::text::{concat2, concat3, contains_entry, is_blank, same_text, trim_text};

verus! {

broadcast use vstd::string::group_string_axioms;

/// A direct message is let in where the configuration allows them, any other
/// message where its channel is listed.
pub open spec fn in_scope(config: DiscordBotConfig, channel_id: Seq<char>, direct: bool) -> bool {
    if direct {
        config.allow_direct_messages
    } else {
        text::views(config.allowed_channel_ids@).contains(channel_id)
    }
}

pub fn discord_message_allowed_by_scope(
    cfg: &DiscordBotConfig,
    channel_id: &str,
    is_direct_message: bool,
) -> (b: bool)
    ensures
        b == in_scope(*cfg, channel_id@, is_direct_message),
{
    if is_direct_message {
        cfg.allow_direct_messages
    } else {
        contains_entry(&cfg.allowed_channel_ids, channel_id)
    }
}

/// The address to connect to, given what the gateway endpoint said.
pub fn discord_socket_url(response: &JsonValue) -> (r: Result<String, String>)
    ensures
        match json::text_field(response@, "url"@) {
            Some(url) => r matches Ok(address) && address@ == url + "?v=10&encoding=json"@,
            None => r matches Err(error) && error@
                == "Discord gateway response did not include url"@,
        },
{
    match response.get_str("url") {
        Some(url) => Ok(concat2(url, "?v=10&encoding=json")),
        None => Err("Discord gateway response did not include url".to_owned()),
    }
}

/// How a session ends.
#[derive(Debug, Clone, Copy, PartialEq, Eq, Structural)]
pub enum DiscordSessionExit {
    Shutdown,
    Reconnect,
}

/// After a session the gateway waits and connects again, unless it was shut
/// down or the bot was switched off.
pub fn reconnect_delay_secs(exit: DiscordSessionExit) -> (secs: Option<u64>)
    ensures
        secs == (match exit {
            DiscordSessionExit::Shutdown => None,
            DiscordSessionExit::Reconnect => Some(5u64),
        }),
{
    match exit {
        DiscordSessionExit::Shutdown => None,
        DiscordSessionExit::Reconnect => Some(5),
    }
}

/// What happens to a session.
#[derive(Debug)]
pub enum DiscordEvent {
    /// The bot is shut down.
    Shutdown,
    /// The socket has ended or failed.
    Closed,
    /// A text frame.
    Text(String),
    /// A frame of another kind.
    OtherFrame,
    /// The heartbeat is due.
    HeartbeatDue,
    /// Something could not be sent.
    SendFailed,
}

/// What a session does about it.
#[derive(Debug)]
pub enum DiscordAction {
    /// Wait for the next event.
    Wait,
    /// Send this text, and beat every so many milliseconds from then on.
    Identify(String, u64),
    /// Send this text.
    Send(String),
    /// Answer this message.
    Handle(JsonValue),
    /// End the session.
    Exit(DiscordSessionExit),
}

/// A session with the gateway. Until the gateway has said hello, nothing but
/// that is listened for.
pub struct DiscordSession {
    greeted: bool,
    sequence: Option<i64>,
}

pub ghost struct SessionView {
    pub greeted: bool,
    pub sequence: Option<i64>,
}

impl View for DiscordSession {
    type V = SessionView;

    closed spec fn view(&self) -> SessionView {
        SessionView { greeted: self.greeted, sequence: self.sequence }
    }
}

/// The view of what a session does.
pub ghost enum ActionView {
    Wait,
    Identify(Seq<char>, u64),
    Send(Seq<char>),
    Handle(JsonView),
    Exit(DiscordSessionExit),
}

impl View for DiscordAction {
    type V = ActionView;

    open spec fn view(&self) -> ActionView {
        match self {
            DiscordAction::Wait => ActionView::Wait,
            DiscordAction::Identify(payload, interval) => ActionView::Identify(payload@, *interval),
            DiscordAction::Send(payload) => ActionView::Send(payload@),
            DiscordAction::Handle(message) => ActionView::Handle(message@),
            DiscordAction::Exit(exit) => ActionView::Exit(*exit),
        }
    }
}

/// The heartbeat interval that a hello names, where the payload is one.
pub open spec fn hello_interval(payload: JsonView) -> Option<u64> {
    if json::int_field(payload, "op"@) == Some(10i64) {
        match json::field(payload, "d"@) {
            Some(d) => match json::uint_field(d, "heartbeat_interval"@) {
                Some(interval) => Some(interval),
                None => Some(45000u64),
            },
            None => Some(45000u64),
        }
    } else {
        None
    }
}

pub fn discord_hello(payload: &JsonValue) -> (interval: Option<u64>)
    ensures
        interval == hello_interval(payload@),
{
    if payload.get_i64("op") == Some(10i64) {
        match payload.get("d") {
            Some(d) => match d.get_u64("heartbeat_interval") {
                Some(interval) => Some(interval),
                None => Some(45000),
            },
            None => Some(45000),
        }
    } else {
        None
    }
}

/// The message with which a session identifies itself.
pub open spec fn identify_payload(token: Seq<char>) -> JsonView {
    JsonView::Object(
        seq![
            ("op"@, json::uint_value(2)),
            (
                "d"@,
                JsonView::Object(
                    seq![
                        ("token"@, JsonView::Text(token)),
                        ("intents"@, json::uint_value(37377)),
                        (
                            "properties"@,
                            JsonView::Object(
                                seq![
                                    ("os"@, JsonView::Text("windows"@)),
                                    ("browser"@, JsonView::Text("kokoro-engine"@)),
                                    ("device"@, JsonView::Text("kokoro-engine"@)),
                                ],
                            ),
                        ),
                    ],
                ),
            ),
        ],
    )
}

pub fn discord_identify(token: &str) -> (payload: JsonValue)
    ensures
        payload@ == identify_payload(token@),
{
    let properties = JsonObject::new().with("os", json_text("windows")).with(
        "browser",
        json_text("kokoro-engine"),
    ).with("device", json_text("kokoro-engine")).done();
    let d = JsonObject::new().with("token", json_text(token)).with(
        "intents",
        json_uint(37377),
    ).with("properties", properties).done();
    let payload = JsonObject::new().with("op", json_uint(2)).with("d", d).done();
    proof {
        let expected_d = identify_payload(token@)->Object_0[1].1;
        let expected_properties = expected_d->Object_0[2].1;
        assert(properties@->Object_0 =~= expected_properties->Object_0);
        assert(d@->Object_0 =~= expected_d->Object_0);
        assert(payload@->Object_0 =~= identify_payload(token@)->Object_0);
    }
    payload
}

/// The heartbeat: the number of the last event, where one had a number.
pub open spec fn heartbeat_payload(sequence: Option<i64>) -> JsonView {
    JsonView::Object(
        seq![
            ("op"@, json::uint_value(1)),
            (
                "d"@,
                match sequence {
                    Some(n) => json::int_value(n),
                    None => JsonView::Null,
                },
            ),
        ],
    )
}

pub fn discord_heartbeat(sequence: Option<i64>) -> (payload: JsonValue)
    ensures
        payload@ == heartbeat_payload(sequence),
{
    let d = match sequence {
        Some(n) => json_int(n),
        None => JsonValue::Null,
    };
    let payload = JsonObject::new().with("op", json_uint(1)).with("d", d).done();
    assert(payload@->Object_0 =~= heartbeat_payload(sequence)->Object_0);
    payload
}

/// What a payload brings once the session is up: the number it carries is
/// kept; a request to reconnect ends the session; a new message is handled.
pub open spec fn on_payload(session: SessionView, payload: JsonView) -> (SessionView, ActionView) {
    let next = SessionView {
        sequence: match json::int_field(payload, "s"@) {
            Some(n) => Some(n),
            None => session.sequence,
        },
        ..session
    };
    let op = json::int_field(payload, "op"@);
    if op == Some(7i64) {
        (next, ActionView::Exit(DiscordSessionExit::Reconnect))
    } else if op == Some(0i64) && json::text_field(payload, "t"@) == Some("MESSAGE_CREATE"@) {
        (
            next,
            ActionView::Handle(
                match json::field(payload, "d"@) {
                    Some(d) => d,
                    None => JsonView::Null,
                },
            ),
        )
    } else {
        (next, ActionView::Wait)
    }
}

/// What an event brings.
pub open spec fn on_event(session: SessionView, token: Seq<char>, event: DiscordEvent) -> (
    SessionView,
    ActionView,
) {
    match event {
        DiscordEvent::Shutdown => (session, ActionView::Exit(DiscordSessionExit::Shutdown)),
        DiscordEvent::Closed => (session, ActionView::Exit(DiscordSessionExit::Reconnect)),
        DiscordEvent::SendFailed => (session, ActionView::Exit(DiscordSessionExit::Reconnect)),
        DiscordEvent::HeartbeatDue => if session.greeted {
            (session, ActionView::Send(json::printed_json(heartbeat_payload(session.sequence))))
        } else {
            (session, ActionView::Wait)
        },
        DiscordEvent::OtherFrame => if session.greeted {
            (session, ActionView::Wait)
        } else {
            (session, ActionView::Exit(DiscordSessionExit::Reconnect))
        },
        DiscordEvent::Text(raw) => match json::parsed_json(raw@) {
            None => (session, ActionView::Wait),
            Some(payload) => if session.greeted {
                on_payload(session, payload)
            } else {
                match hello_interval(payload) {
                    Some(interval) => (
                        SessionView { greeted: true, ..session },
                        ActionView::Identify(
                            json::printed_json(identify_payload(token)),
                            interval,
                        ),
                    ),
                    None => (session, ActionView::Wait),
                }
            },
        },
    }
}

impl DiscordSession {
    /// A session that has just been connected.
    pub fn new() -> (r: Self)
        ensures
            r@ == (SessionView { greeted: false, sequence: None }),
    {
        DiscordSession { greeted: false, sequence: None }
    }

    /// Takes in a payload once the session is up.
    pub fn payload(&mut self, payload: JsonValue) -> (action: DiscordAction)
        ensures
            (final(self)@, action@) == on_payload(old(self)@, payload@),
    {
        if let Some(n) = payload.get_i64("s") {
            self.sequence = Some(n);
        }
        let op = payload.get_i64("op");
        if op == Some(7i64) {
            return DiscordAction::Exit(DiscordSessionExit::Reconnect);
        }
        let created = match payload.get_str("t") {
            Some(t) => same_text(t, "MESSAGE_CREATE"),
            None => false,
        };
        if op == Some(0i64) && created {
            match payload.into_field("d") {
                Some(d) => DiscordAction::Handle(d),
                None => DiscordAction::Handle(JsonValue::Null),
            }
        } else {
            DiscordAction::Wait
        }
    }

    /// Takes in an event.
    pub fn event(&mut self, token: &str, event: DiscordEvent) -> (action: DiscordAction)
        ensures
            (final(self)@, action@) == on_event(old(self)@, token@, event),
    {
        match event {
            DiscordEvent::Shutdown => DiscordAction::Exit(DiscordSessionExit::Shutdown),
            DiscordEvent::Closed => DiscordAction::Exit(DiscordSessionExit::Reconnect),
            DiscordEvent::SendFailed => DiscordAction::Exit(DiscordSessionExit::Reconnect),
            DiscordEvent::HeartbeatDue => if self.greeted {
                DiscordAction::Send(print_json(&discord_heartbeat(self.sequence)))
            } else {
                DiscordAction::Wait
            },
            DiscordEvent::OtherFrame => if self.greeted {
                DiscordAction::Wait
            } else {
                DiscordAction::Exit(DiscordSessionExit::Reconnect)
            },
            DiscordEvent::Text(raw) => match parse_json(raw.as_str()) {
                None => DiscordAction::Wait,
                Some(payload) => if self.greeted {
                    self.payload(payload)
                } else {
                    match discord_hello(&payload) {
                        Some(interval) => {
                            self.greeted = true;
                            DiscordAction::Identify(print_json(&discord_identify(token)), interval)
                        },
                        None => DiscordAction::Wait,
                    }
                },
            },
        }
    }
}

/// No message is handled and no heartbeat is sent before the gateway has said
/// hello.
pub proof fn lemma_hello_first(session: SessionView, token: Seq<char>, event: DiscordEvent)
    requires
        !session.greeted,
    ensures
        !(on_event(session, token, event).1 is Handle),
        !(on_event(session, token, event).1 is Send),
        on_event(session, token, event).0.greeted ==> on_event(session, token, event).1 is Identify,
{
}

/// A session that was greeted stays greeted, and does not identify itself
/// again.
pub proof fn lemma_greeted_once(session: SessionView, token: Seq<char>, event: DiscordEvent)
    requires
        session.greeted,
    ensures
        on_event(session, token, event).0.greeted,
        !(on_event(session, token, event).1 is Identify),
{
}

/// An attachment that the bot looks at.
#[derive(Debug)]
pub struct DiscordAttachment {
    pub url: String,
    pub filename: Option<String>,
    pub content_type: Option<String>,
    pub is_image: bool,
}

/// A message that the bot answers.
#[derive(Debug)]
pub struct DiscordMessage {
    pub channel_id: String,
    pub content: String,
    pub conversation_key: String,
    pub attachments: Vec<DiscordAttachment>,
}

pub ghost struct AttachmentView {
    pub url: Seq<char>,
    pub filename: Option<Seq<char>>,
    pub content_type: Option<Seq<char>>,
    pub is_image: bool,
}

impl View for DiscordAttachment {
    type V = AttachmentView;

    open spec fn view(&self) -> AttachmentView {
        AttachmentView {
            url: self.url@,
            filename: text::opt_view(self.filename),
            content_type: text::opt_view(self.content_type),
            is_image: self.is_image,
        }
    }
}

pub open spec fn attachment_views(v: Seq<DiscordAttachment>) -> Seq<AttachmentView> {
    v.map_values(|a: DiscordAttachment| a@)
}

/// An attachment that is looked at: it has an address, and it is an image or
/// audio.
pub open spec fn attachment_of(value: JsonView) -> Option<AttachmentView> {
    let filename = json::text_field(value, "filename"@);
    let content_type = json::text_field(value, "content_type"@);
    match json::text_field(value, "url"@) {
        Some(url) => if url.len() == 0 {
            None
        } else if media::image_media(content_type, filename) {
            Some(AttachmentView { url, filename, content_type, is_image: true })
        } else if media::audio_media(content_type, filename) {
            Some(AttachmentView { url, filename, content_type, is_image: false })
        } else {
            None
        },
        None => None,
    }
}

pub open spec fn attachments_in(values: Seq<JsonView>) -> Seq<AttachmentView>
    decreases values.len(),
{
    if values.len() == 0 {
        Seq::empty()
    } else {
        match attachment_of(values.last()) {
            Some(a) => attachments_in(values.drop_last()).push(a),
            None => attachments_in(values.drop_last()),
        }
    }
}

/// The attachments that are looked at, in order.
pub open spec fn attachments_of(message: JsonView) -> Seq<AttachmentView> {
    match json::field(message, "attachments"@) {
        Some(JsonView::Array(values)) => attachments_in(values),
        _ => Seq::empty(),
    }
}

/// The message comes from another bot.
pub open spec fn from_bot(message: JsonView) -> bool {
    match json::field(message, "author"@) {
        Some(author) => json::bool_field(author, "bot"@) == Some(true),
        None => false,
    }
}

pub open spec fn author_of(message: JsonView) -> Option<Seq<char>> {
    match json::field(message, "author"@) {
        Some(author) => json::text_field(author, "id"@),
        None => None,
    }
}

pub open spec fn channel_of(message: JsonView) -> Seq<char> {
    match json::text_field(message, "channel_id"@) {
        Some(id) => id,
        None => Seq::empty(),
    }
}

/// The message is answered: it is from a person, in a channel that is let in.
pub open spec fn answered(config: DiscordBotConfig, message: JsonView) -> bool {
    &&& !from_bot(message)
    &&& channel_of(message).len() > 0
    &&& in_scope(config, channel_of(message), json::text_field(message, "guild_id"@) is None)
}

/// The conversation: the channel and, where it is known, the author.
pub open spec fn discord_key(message: JsonView) -> Seq<char> {
    match author_of(message) {
        Some(author) => channel_of(message) + ":"@ + author,
        None => channel_of(message),
    }
}

fn read_attachment(value: &JsonValue) -> (r: Option<DiscordAttachment>)
    ensures
        match r {
            Some(a) => attachment_of(value@) == Some(a@),
            None => attachment_of(value@) is None,
        },
{
    let url = match value.get_str("url") {
        Some(url) => url,
        None => {
            return None;
        },
    };
    if url.is_empty() {
        return None;
    }
    let filename = value.get_str("filename");
    let content_type = value.get_str("content_type");
    let is_image = is_image_media(content_type, filename);
    if !is_image && !is_audio_media(content_type, filename) {
        return None;
    }
    let filename = match filename {
        Some(f) => Some(f.to_owned()),
        None => None,
    };
    let content_type = match content_type {
        Some(t) => Some(t.to_owned()),
        None => None,
    };
    Some(DiscordAttachment { url: url.to_owned(), filename, content_type, is_image })
}

fn read_attachments(message: &JsonValue) -> (r: Vec<DiscordAttachment>)
    ensures
        attachment_views(r@) == attachments_of(message@),
{
    let mut r: Vec<DiscordAttachment> = Vec::new();
    assert(attachment_views(r@) =~= Seq::empty());
    if let Some(found) = message.get("attachments") {
        if let JsonValue::Array(values) = found {
            let ghost all = found@->Array_0;
            let mut i: usize = 0;
            assert(all.take(0) =~= Seq::empty());
            while i < values.len()
                invariant
                    i <= values.len(),
                    all.len() == values@.len(),
                    forall|k: int| 0 <= k < values@.len() ==> #[trigger] all[k] == values@[k]@,
                    attachment_views(r@) == attachments_in(all.take(i as int)),
                decreases values.len() - i,
            {
                proof {
                    assert(all.take(i + 1).drop_last() =~= all.take(i as int));
                    assert(all.take(i + 1).last() == values@[i as int]@);
                }
                if let Some(a) = read_attachment(&values[i]) {
                    let ghost before = r@;
                    r.push(a);
                    assert(attachment_views(r@) =~= attachment_views(before).push(a@));
                }
                i += 1;
            }
            assert(all.take(i as int) =~= all);
        }
    }
    r
}

/// Reads a message, where it is answered at all.
pub fn read_discord_message(config: &DiscordBotConfig, message: &JsonValue) -> (r: Option<
    DiscordMessage,
>)
    ensures
        match r {
            Some(read) => {
                &&& answered(*config, message@)
                &&& read.channel_id@ == channel_of(message@)
                &&& read.content@ == text::trim(
                    match json::text_field(message@, "content"@) {
                        Some(content) => content,
                        None => Seq::empty(),
                    },
                )
                &&& read.conversation_key@ == discord_key(message@)
                &&& attachment_views(read.attachments@) == attachments_of(message@)
            },
            None => !answered(*config, message@),
        },
{
    let mut author_id: Option<String> = None;
    if let Some(author) = message.get("author") {
        if author.get_bool("bot") == Some(true) {
            return None;
        }
        if let Some(id) = author.get_str("id") {
            author_id = Some(id.to_owned());
        }
    }
    let channel_id = match message.get_str("channel_id") {
        Some(id) => id,
        None => {
            return None;
        },
    };
    if channel_id.is_empty() {
        return None;
    }
    let direct = message.get_str("guild_id").is_none();
    if !discord_message_allowed_by_scope(config, channel_id, direct) {
        return None;
    }
    let content = match message.get_str("content") {
        Some(content) => trim_text(content),
        None => {
            let none = String::new();
            trim_text(none.as_str())
        },
    };
    let conversation_key = match &author_id {
        Some(author) => concat3(channel_id, ":", author.as_str()),
        None => channel_id.to_owned(),
    };
    let attachments = read_attachments(message);
    Some(
        DiscordMessage { channel_id: channel_id.to_owned(), content, conversation_key, attachments },
    )
}

/// The media type of an image that was fetched: the one that came with it, else
/// the one that the message gave, else the one that its name hints at.
pub fn attachment_mime_type(downloaded: Option<&str>, attachment: &DiscordAttachment) -> (r: String)
    ensures
        r@ == (match text::opt_str(downloaded) {
            Some(t) => t,
            None => match text::opt_view(attachment.content_type) {
                Some(t) => t,
                None => media::image_mime(
                    match text::opt_view(attachment.filename) {
                        Some(name) => name,
                        None => ""@,
                    },
                ),
            },
        }),
{
    match downloaded {
        Some(t) => t.to_owned(),
        None => match &attachment.content_type {
            Some(t) => t.clone(),
            None => match &attachment.filename {
                Some(name) => image_mime_from_name(name.as_str()).to_owned(),
                None => image_mime_from_name("").to_owned(),
            },
        },
    }
}

/// The format of audio that was fetched.
pub fn attachment_audio_format(downloaded: Option<&str>, attachment: &DiscordAttachment) -> (r:
    String)
    ensures
        r@ == media::audio_format(
            media::media_hint(
                match text::opt_str(downloaded) {
                    Some(t) => Some(t),
                    None => text::opt_view(attachment.content_type),
                },
                text::opt_view(attachment.filename),
            ),
        ),
{
    let hint = match downloaded {
        Some(t) => Some(t),
        None => match &attachment.content_type {
            Some(t) => Some(t.as_str()),
            None => None,
        },
    };
    let name = match &attachment.filename {
        Some(name) => Some(name.as_str()),
        None => None,
    };
    audio_format_from_mime_or_name(hint, name)
}

/// The content with all that was said in the audio.
pub open spec fn with_transcriptions(content: Seq<char>, heard: Seq<Seq<char>>) -> Seq<char>
    decreases heard.len(),
{
    if heard.len() == 0 {
        content
    } else {
        media::transcribed(with_transcriptions(content, heard.drop_last()), Some(heard.last()))
    }
}

/// What is answered: the content, a note that there is an image, or nothing.
pub open spec fn content_to_answer(content: Seq<char>, has_images: bool) -> Option<Seq<char>> {
    if !text::blank(content) {
        Some(content)
    } else if has_images {
        Some("The user sent an image:"@)
    } else {
        None
    }
}

/// The text that is answered, once the attachments were looked at.
pub fn discord_content(content: String, transcriptions: Vec<String>, has_images: bool) -> (r: Option<
    String,
>)
    ensures
        text::opt_view(r) == content_to_answer(
            with_transcriptions(content@, text::views(transcriptions@)),
            has_images,
        ),
{
    let ghost all = text::views(transcriptions@);
    let mut content = content;
    let ghost start = content@;
    let mut i: usize = 0;
    assert(all.take(0) =~= Seq::empty());
    while i < transcriptions.len()
        invariant
            i <= transcriptions.len(),
            all == text::views(transcriptions@),
            content@ == with_transcriptions(start, all.take(i as int)),
        decreases transcriptions.len() - i,
    {
        proof {
            assert(all.take(i + 1).drop_last() =~= all.take(i as int));
            assert(all.take(i + 1).last() == transcriptions@[i as int]@);
        }
        content = text_with_transcription(content, Some(transcriptions[i].clone()));
        i += 1;
    }
    assert(all.take(i as int) =~= all);
    if !is_blank(content.as_str()) {
        Some(content)
    } else if has_images {
        Some("The user sent an image:".to_owned())
    } else {
        None
    }
}

/// The text as Discord takes it.
pub fn discord_message_text(body: &str) -> (r: String)
    ensures
        r@ == media::truncated(body@, 1900),
        r@.len() <= 1903,
{
    truncate_for_platform(body, 1900)
}

} // verus!
