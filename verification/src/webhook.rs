//! The HTTP side of the bots: routing, and the generic webhook from the raw
//! request to the reply.

use vstd::prelude::*;
use vstd::utf8::*;
use crate::bot_config::BotConfig;
use crate::encoding;
use crate::encoding::{hex_digest, sha256};
use crate::media;
use crate::media::{
    audio_format_from_mime_or_name, decode_base64_payload, normalize_image_reference,
    text_with_transcription, validate_image_reference,
};
use crate::text;
use crate::text::{
    concat2, concat3, contains_text, head_text, is_blank, is_white, lower_text, same_text,
    tail_text, to_chars, trim_text,
};

verus! {

broadcast use vstd::string::group_string_axioms;

/// The longest body that a webhook request may have.
pub const MAX_GENERIC_WEBHOOK_BODY_BYTES: usize = 4194304;

/// A request that is answered with an error.
#[derive(Debug)]
pub struct HttpError {
    pub status: u16,
    pub message: String,
}

pub open spec fn is_error(error: HttpError, status: u16, message: Seq<char>) -> bool {
    error.status == status && error.message@ == message
}

/// A path with a slash at its front; a blank one is the root.
pub open spec fn normalized_path(path: Seq<char>) -> Seq<char> {
    let p = text::trim(path);
    if p.len() == 0 {
        "/"@
    } else if p[0] == '/' {
        p
    } else {
        "/"@ + p
    }
}

pub fn normalize_path(path: &str) -> (r: String)
    ensures
        r@ == normalized_path(path@),
{
    let p = trim_text(path);
    if p.as_str().is_empty() {
        return "/".to_owned();
    }
    if p.as_str().get_char(0) == '/' {
        p
    } else {
        concat2("/", p.as_str())
    }
}

/// A normalized path starts with a slash, and normalizing it again leaves it.
pub proof fn lemma_normalized_path(path: Seq<char>)
    ensures
        normalized_path(path).len() > 0,
        normalized_path(path)[0] == '/',
        normalized_path(normalized_path(path)) == normalized_path(path),
{
    reveal_strlit("/");
    text::lemma_trim_ends(path);
    let r = normalized_path(path);
    text::lemma_trim_fixed(r);
}

/// Who answers a request.
#[derive(Debug, Clone, Copy, PartialEq, Eq, Structural)]
pub enum HttpRoute {
    Line,
    Webhook,
    NotFound,
}

/// The platform that a request to `path` is for: LINE first, where both have
/// the same path.
pub fn route_http_bot_request(config: &BotConfig, path: &str) -> (route: HttpRoute)
    ensures
        route == (if config.line.enabled && path@ == normalized_path(config.line.webhook_path@) {
            HttpRoute::Line
        } else if config.webhook.enabled && path@ == normalized_path(
            config.webhook.endpoint_path@,
        ) {
            HttpRoute::Webhook
        } else {
            HttpRoute::NotFound
        }),
{
    let line_path = normalize_path(config.line.webhook_path.as_str());
    let webhook_path = normalize_path(config.webhook.endpoint_path.as_str());
    if config.line.enabled && same_text(path, line_path.as_str()) {
        HttpRoute::Line
    } else if config.webhook.enabled && same_text(path, webhook_path.as_str()) {
        HttpRoute::Webhook
    } else {
        HttpRoute::NotFound
    }
}

pub fn validate_generic_webhook_body(body: &[u8]) -> (r: Result<(), String>)
    ensures
        match r {
            Ok(_) => body@.len() <= MAX_GENERIC_WEBHOOK_BODY_BYTES,
            Err(error) => body@.len() > MAX_GENERIC_WEBHOOK_BODY_BYTES && error@
                == "Webhook body exceeds the 4194304 byte limit"@,
        },
{
    if body.len() > MAX_GENERIC_WEBHOOK_BODY_BYTES {
        return Err("Webhook body exceeds the 4194304 byte limit".to_owned());
    }
    Ok(())
}

/// The first of `values` that is not blank, trimmed.
pub open spec fn first_given(values: Seq<Option<Seq<char>>>) -> Option<Seq<char>>
    decreases values.len(),
{
    if values.len() == 0 {
        None
    } else {
        match values[0] {
            Some(v) => if text::blank(v) {
                first_given(values.drop_first())
            } else {
                Some(text::trim(v))
            },
            None => first_given(values.drop_first()),
        }
    }
}

fn given(value: Option<&str>) -> (r: Option<String>)
    ensures
        text::opt_view(r) == (match text::opt_str(value) {
            Some(v) => if text::blank(v) {
                None
            } else {
                Some(text::trim(v))
            },
            None => None,
        }),
{
    match value {
        Some(v) => {
            let v = trim_text(v);
            if v.as_str().is_empty() {
                None
            } else {
                Some(v)
            }
        },
        None => None,
    }
}

fn first_of(a: Option<&str>, b: Option<&str>, c: Option<&str>) -> (r: Option<String>)
    ensures
        text::opt_view(r) == first_given(seq![text::opt_str(a), text::opt_str(b), text::opt_str(c)]),
{
    proof {
        reveal_with_fuel(first_given, 4);
        let all = seq![text::opt_str(a), text::opt_str(b), text::opt_str(c)];
        assert(all.drop_first() =~= seq![text::opt_str(b), text::opt_str(c)]);
        assert(all.drop_first().drop_first() =~= seq![text::opt_str(c)]);
        assert(all.drop_first().drop_first().drop_first() =~= Seq::empty());
    }
    match given(a) {
        Some(v) => Some(v),
        None => match given(b) {
            Some(v) => Some(v),
            None => given(c),
        },
    }
}

/// The character that answers: the one that the request names, else the
/// configured one, else the active one, else `default`.
pub open spec fn webhook_character(
    request: Option<Seq<char>>,
    configured: Option<Seq<char>>,
    active: Option<Seq<char>>,
) -> Seq<char> {
    match first_given(seq![request, configured, active]) {
        Some(id) => id,
        None => "default"@,
    }
}

/// Resolves the character for one webhook request. A blank name does not
/// shadow the ones behind it.
pub fn resolve_webhook_character_id(
    request_character_id: Option<&str>,
    configured_character_id: Option<&str>,
    active_character_id: Option<&str>,
) -> (r: String)
    ensures
        r@ == webhook_character(
            text::opt_str(request_character_id),
            text::opt_str(configured_character_id),
            text::opt_str(active_character_id),
        ),
{
    match first_of(request_character_id, configured_character_id, active_character_id) {
        Some(id) => id,
        None => "default".to_owned(),
    }
}

/// The first position of white space in `s` at or after `from`.
pub open spec fn find_white(s: Seq<char>, from: int) -> Option<int>
    decreases s.len() - from,
{
    if from < 0 || from >= s.len() {
        None
    } else if text::white(s[from]) {
        Some(from)
    } else {
        find_white(s, from + 1)
    }
}

fn find_white_text(text: &str) -> (r: Option<usize>)
    ensures
        match r {
            Some(at) => find_white(text@, 0) == Some(at as int) && at < text@.len() <= usize::MAX,
            None => find_white(text@, 0) is None,
        },
{
    let chars = to_chars(text);
    let mut at: usize = 0;
    while at < chars.len()
        invariant
            at <= chars.len(),
            chars@ == text@,
            find_white(text@, 0) == find_white(text@, at as int),
        decreases chars.len() - at,
    {
        if is_white(chars[at]) {
            return Some(at);
        }
        at += 1;
    }
    None
}

/// An `Authorization` header that carries `token` as a bearer token: the name
/// of the scheme in any case, white space, the exact token.
pub open spec fn carries_bearer(header: Seq<char>, token: Seq<char>) -> bool {
    let h = text::trim(header);
    match find_white(h, 0) {
        Some(at) => text::lower(h.take(at)) == "bearer"@ && text::trim(h.skip(at + 1)) == token,
        None => false,
    }
}

/// Why a request is refused for its token, if it is. Without a configured
/// token nothing is asked for.
pub open spec fn bearer_fault(
    header: Option<Seq<char>>,
    expected: Option<Seq<char>>,
) -> Option<Seq<char>> {
    if expected matches Some(token) && !text::blank(token) {
        match header {
            None => Some("Missing Authorization header"@),
            Some(h) => if carries_bearer(h, expected->0) {
                None
            } else {
                Some("Invalid bearer token"@)
            },
        }
    } else {
        None
    }
}

/// Checks the bearer token of a request. The scheme is compared without regard
/// to case, the token exactly.
pub fn verify_webhook_bearer(authorization: Option<&str>, expected_token: Option<&str>) -> (r:
    Result<(), String>)
    ensures
        match r {
            Ok(_) => bearer_fault(text::opt_str(authorization), text::opt_str(expected_token)) is None,
            Err(error) => bearer_fault(text::opt_str(authorization), text::opt_str(expected_token)) == Some(
                error@,
            ),
        },
{
    let expected = match expected_token {
        Some(token) => {
            if is_blank(token) {
                return Ok(());
            }
            token
        },
        None => {
            return Ok(());
        },
    };
    let header = match authorization {
        Some(header) => trim_text(header),
        None => {
            return Err("Missing Authorization header".to_owned());
        },
    };
    match find_white_text(header.as_str()) {
        Some(at) => {
            let scheme = lower_text(head_text(header.as_str(), at).as_str());
            let token = trim_text(tail_text(header.as_str(), at + 1).as_str());
            if same_text(scheme.as_str(), "bearer") && same_text(token.as_str(), expected) {
                Ok(())
            } else {
                Err("Invalid bearer token".to_owned())
            }
        },
        None => Err("Invalid bearer token".to_owned()),
    }
}

/// Group and channel messages share the conversation of the group.
pub open spec fn is_group(conversation_type: Option<Seq<char>>) -> bool {
    match conversation_type {
        Some(t) => text::lower(text::trim(t)) == "group"@ || text::lower(text::trim(t)) == "channel"@,
        None => false,
    }
}

/// The conversation that a message belongs to: that of the group, or that of
/// the user; the other names stand in where the first one is blank.
pub open spec fn conversation_key(
    conversation_type: Option<Seq<char>>,
    conversation_id: Option<Seq<char>>,
    user_id: Option<Seq<char>>,
    source: Option<Seq<char>>,
) -> Option<Seq<char>> {
    if is_group(conversation_type) {
        match first_given(seq![conversation_id, source, user_id]) {
            Some(id) => Some("group:"@ + id),
            None => None,
        }
    } else {
        match first_given(seq![user_id, conversation_id, source]) {
            Some(id) => Some("private:"@ + id),
            None => None,
        }
    }
}

/// Builds a stable key for an external conversation. Private chats go by the
/// user, group chats by the group, so that all its members share one
/// conversation.
pub fn webhook_conversation_key(
    conversation_type: Option<&str>,
    conversation_id: Option<&str>,
    user_id: Option<&str>,
    source: Option<&str>,
) -> (r: Option<String>)
    ensures
        text::opt_view(r) == conversation_key(
            text::opt_str(conversation_type),
            text::opt_str(conversation_id),
            text::opt_str(user_id),
            text::opt_str(source),
        ),
{
    let group = match conversation_type {
        Some(t) => {
            let kind = lower_text(trim_text(t).as_str());
            same_text(kind.as_str(), "group") || same_text(kind.as_str(), "channel")
        },
        None => false,
    };
    if group {
        match first_of(conversation_id, source, user_id) {
            Some(id) => Some(concat2("group:", id.as_str())),
            None => None,
        }
    } else {
        match first_of(user_id, conversation_id, source) {
            Some(id) => Some(concat2("private:", id.as_str())),
            None => None,
        }
    }
}

/// An external conversation as it belongs to one character.
pub open spec fn scoped_key(character_id: Seq<char>, key: Option<Seq<char>>) -> Seq<char> {
    text::trim(character_id) + ":"@ + match first_given(seq![key]) {
        Some(k) => k,
        None => "webhook"@,
    }
}

/// Scopes an external conversation to a character, so that characters never
/// share one.
pub fn map_webhook_conversation_to_character(character_id: &str, conversation_key: Option<&str>) -> (r:
    String)
    ensures
        r@ == scoped_key(character_id@, text::opt_str(conversation_key)),
{
    proof {
        reveal_with_fuel(first_given, 2);
        assert(seq![text::opt_str(conversation_key)].drop_first() =~= Seq::empty());
    }
    let key = match given(conversation_key) {
        Some(key) => key,
        None => "webhook".to_owned(),
    };
    concat3(trim_text(character_id).as_str(), ":", key.as_str())
}

/// All members of a group share one conversation, whoever of them writes; a user
/// in private has one, wherever they write from; and a group and a user never
/// share one.
pub proof fn lemma_conversation_keys(
    group: Option<Seq<char>>,
    private: Option<Seq<char>>,
    id: Seq<char>,
    a: Option<Seq<char>>,
    b: Option<Seq<char>>,
    c: Option<Seq<char>>,
    d: Option<Seq<char>>,
)
    requires
        is_group(group),
        !is_group(private),
        !text::blank(id),
    ensures
        conversation_key(group, Some(id), a, b) == conversation_key(group, Some(id), c, d),
        conversation_key(private, a, Some(id), b) == conversation_key(private, c, Some(id), d),
        conversation_key(group, Some(id), a, b) != conversation_key(private, c, Some(id), d),
{
    reveal_strlit("group:");
    reveal_strlit("private:");
    text::lemma_trim_idempotent(id);
    let at_group = "group:"@ + text::trim(id);
    let at_user = "private:"@ + text::trim(id);
    assert(at_group[0] == 'g');
    assert(at_user[0] == 'p');
}

/// One conversation from outside is never the same for two characters.
pub proof fn lemma_characters_never_share(a: Seq<char>, b: Seq<char>, key: Option<Seq<char>>)
    requires
        text::trim(a) != text::trim(b),
    ensures
        scoped_key(a, key) != scoped_key(b, key),
{
    let ta = text::trim(a);
    let tb = text::trim(b);
    let named = match first_given(seq![key]) {
        Some(k) => k,
        None => "webhook"@,
    };
    assert(scoped_key(a, key) == ta + ":"@ + named);
    assert(scoped_key(b, key) == tb + ":"@ + named);
    if scoped_key(a, key) == scoped_key(b, key) {
        assert((ta + ":"@ + named).len() == ta.len() + ":"@.len() + named.len());
        assert((tb + ":"@ + named).len() == tb.len() + ":"@.len() + named.len());
        assert(ta =~= scoped_key(a, key).take(ta.len() as int));
        assert(tb =~= scoped_key(b, key).take(tb.len() as int));
    }
}

/// Two characters whose names, trimmed, hold no colon never share a
/// conversation, whatever conversations from outside they are in.
pub proof fn lemma_scoped_key_separates(
    a: Seq<char>,
    b: Seq<char>,
    key_a: Option<Seq<char>>,
    key_b: Option<Seq<char>>,
)
    requires
        text::trim(a) != text::trim(b),
        text::find_char(text::trim(a), ':', 0) is None,
        text::find_char(text::trim(b), ':', 0) is None,
    ensures
        scoped_key(a, key_a) != scoped_key(b, key_b),
{
    reveal_strlit(":");
    let ta = text::trim(a);
    let tb = text::trim(b);
    let sa = scoped_key(a, key_a);
    let sb = scoped_key(b, key_b);
    text::lemma_find_char_bounds(ta, ':', 0);
    text::lemma_find_char_bounds(tb, ':', 0);
    if sa == sb {
        assert(sa[ta.len() as int] == ':');
        assert(sb[tb.len() as int] == ':');
        if ta.len() < tb.len() {
            assert(sb[ta.len() as int] == tb[ta.len() as int]);
        } else if tb.len() < ta.len() {
            assert(sa[tb.len() as int] == ta[tb.len() as int]);
        } else {
            assert forall|i: int| 0 <= i < ta.len() implies ta[i] == tb[i] by {
                assert(sa[i] == ta[i]);
                assert(sb[i] == tb[i]);
            }
            assert(ta =~= tb);
        }
    }
}

/// The stored conversation of a scoped key.
pub open spec fn stored_conversation(character_id: Seq<char>, key: Option<Seq<char>>) -> Seq<char> {
    "webhook-"@ + encoding::hex(
        encoding::sha256_digest(encode_utf8(scoped_key(character_id, key))),
    )
}

/// The id of the stored conversation that a webhook request belongs to.
pub fn prepare_webhook_conversation(character_id: &str, conversation_key: Option<&str>) -> (id:
    String)
    ensures
        id@ == stored_conversation(character_id@, text::opt_str(conversation_key)),
{
    let key = map_webhook_conversation_to_character(character_id, conversation_key);
    conversation_id_of_digest(sha256(key.as_str().as_bytes()).as_slice())
}

/// The id of the stored conversation whose scoped key has the given digest.
pub fn conversation_id_of_digest(digest: &[u8]) -> (id: String)
    ensures
        id@ == "webhook-"@ + encoding::hex(digest@),
{
    concat2("webhook-", hex_digest(digest).as_str())
}

/// A webhook request as it comes in.
#[derive(Debug)]
pub struct GenericWebhookMessage {
    pub text: Option<String>,
    pub message: Option<String>,
    pub image: Option<String>,
    pub images: Option<Vec<String>>,
    pub image_base64: Option<String>,
    pub image_mime_type: Option<String>,
    pub audio_base64: Option<String>,
    pub audio_format: Option<String>,
    pub character_id: Option<String>,
    pub conversation_id: Option<String>,
    pub conversation_type: Option<String>,
    pub user_id: Option<String>,
    pub source: Option<String>,
}

/// A webhook request as it is worked on.
#[derive(Debug)]
pub struct ParsedGenericWebhookPayload {
    pub text: String,
    pub images: Vec<String>,
    pub audio: Option<Vec<u8>>,
    pub audio_format: Option<String>,
    pub character_id: Option<String>,
    pub conversation_key: Option<String>,
}

/// The view of a request as it is worked on.
pub ghost struct PayloadView {
    pub text: Seq<char>,
    pub images: Seq<Seq<char>>,
    pub audio: Option<Seq<u8>>,
    pub audio_format: Option<Seq<char>>,
    pub character_id: Option<Seq<char>>,
    pub conversation_key: Option<Seq<char>>,
}

pub open spec fn opt_bytes(v: Option<Vec<u8>>) -> Option<Seq<u8>> {
    match v {
        Some(bytes) => Some(bytes@),
        None => None,
    }
}

impl View for ParsedGenericWebhookPayload {
    type V = PayloadView;

    open spec fn view(&self) -> PayloadView {
        PayloadView {
            text: self.text@,
            images: text::views(self.images@),
            audio: opt_bytes(self.audio),
            audio_format: text::opt_view(self.audio_format),
            character_id: text::opt_view(self.character_id),
            conversation_key: text::opt_view(self.conversation_key),
        }
    }
}

/// The references to images in a request, in the order in which they count.
pub open spec fn image_references(request: GenericWebhookMessage) -> Seq<Seq<char>> {
    one_reference(request.image) + listed_references(request.images) + one_reference(
        request.image_base64,
    )
}

pub open spec fn one_reference(image: Option<String>) -> Seq<Seq<char>> {
    match image {
        Some(image) => seq![image@],
        None => Seq::empty(),
    }
}

pub open spec fn listed_references(images: Option<Vec<String>>) -> Seq<Seq<char>> {
    match images {
        Some(images) => text::views(images@),
        None => Seq::empty(),
    }
}

/// The media type of an image that comes as bare base64.
pub open spec fn image_type(request: GenericWebhookMessage) -> Seq<char> {
    match request.image_mime_type {
        Some(mime_type) => mime_type@,
        None => "image/jpeg"@,
    }
}

/// Why one of the references is refused, if one is: the first that is.
pub open spec fn references_fault(references: Seq<Seq<char>>) -> Option<Seq<char>>
    decreases references.len(),
{
    if references.len() == 0 {
        None
    } else {
        match references_fault(references.drop_last()) {
            Some(error) => Some(error),
            None => media::image_reference_fault(references.last()),
        }
    }
}

/// The references as URLs.
pub open spec fn image_urls(references: Seq<Seq<char>>, mime_type: Seq<char>) -> Seq<Seq<char>>
    decreases references.len(),
{
    if references.len() == 0 {
        Seq::empty()
    } else {
        let before = image_urls(references.drop_last(), mime_type);
        match media::image_reference(references.last(), mime_type) {
            Some(url) => before.push(url),
            None => before,
        }
    }
}

/// The text that a request sends.
pub open spec fn request_text(request: GenericWebhookMessage) -> Seq<char> {
    text::trim(
        match request.text {
            Some(t) => t@,
            None => match request.message {
                Some(m) => m@,
                None => Seq::empty(),
            },
        },
    )
}

/// The payload of a request whose images and audio are decoded; none where it
/// sends nothing.
pub open spec fn assembled(
    request: GenericWebhookMessage,
    images: Seq<Seq<char>>,
    audio: Option<Seq<u8>>,
) -> Option<PayloadView> {
    let said = request_text(request);
    if said.len() == 0 && images.len() == 0 && audio is None {
        None
    } else {
        Some(
            PayloadView {
                text: if said.len() == 0 && images.len() > 0 {
                    "The user sent an image:"@
                } else {
                    said
                },
                images,
                audio,
                audio_format: match audio {
                    Some(_) => Some(
                        match first_given(seq![text::opt_view(request.audio_format)]) {
                            Some(format) => format,
                            None => "ogg"@,
                        },
                    ),
                    None => None,
                },
                character_id: first_given(seq![text::opt_view(request.character_id)]),
                conversation_key: conversation_key(
                    text::opt_view(request.conversation_type),
                    text::opt_view(request.conversation_id),
                    text::opt_view(request.user_id),
                    text::opt_view(request.source),
                ),
            },
        )
    }
}

/// The audio bytes of a request, or why they cannot be read.
pub open spec fn request_audio(request: GenericWebhookMessage) -> Result<
    Option<Seq<u8>>,
    Seq<char>,
> {
    match request.audio_base64 {
        Some(payload) => match media::payload_bytes(payload@) {
            Ok(bytes) => Ok(Some(bytes)),
            Err(error) => Err(error),
        },
        None => Ok(None),
    }
}

/// The payload of a request, or the error that it is answered with.
pub open spec fn payload_of(request: GenericWebhookMessage) -> Result<PayloadView, Seq<char>> {
    match references_fault(image_references(request)) {
        Some(error) => Err(error),
        None => match request_audio(request) {
            Err(error) => Err(error),
            Ok(audio) => match assembled(
                request,
                image_urls(image_references(request), image_type(request)),
                audio,
            ) {
                Some(payload) => Ok(payload),
                None => Err("Missing text or media"@),
            },
        },
    }
}

pub open spec fn payload_view(r: Result<ParsedGenericWebhookPayload, String>) -> Result<
    PayloadView,
    Seq<char>,
> {
    match r {
        Ok(payload) => Ok(payload@),
        Err(error) => Err(error@),
    }
}

fn as_deref(v: &Option<String>) -> (r: Option<&str>)
    ensures
        text::opt_str(r) == text::opt_view(*v),
{
    match v {
        Some(s) => Some(s.as_str()),
        None => None,
    }
}

fn add_image(images: &mut Vec<String>, reference: &str, mime_type: &str) -> (r: Result<(), String>)
    ensures
        match r {
            Ok(_) => {
                &&& media::image_reference_fault(reference@) is None
                &&& text::views(final(images)@) == (match media::image_reference(
                    reference@,
                    mime_type@,
                ) {
                    Some(url) => text::views(old(images)@).push(url),
                    None => text::views(old(images)@),
                })
            },
            Err(error) => media::image_reference_fault(reference@) == Some(error@),
        },
{
    match validate_image_reference(reference) {
        Ok(_) => {},
        Err(error) => {
            return Err(error);
        },
    }
    if let Some(url) = normalize_image_reference(reference, mime_type) {
        images.push(url);
        assert(text::views(images@) =~= text::views(old(images)@).push(url@));
    }
    Ok(())
}

proof fn lemma_one_more(done: Seq<Seq<char>>, next: Seq<char>, mime_type: Seq<char>)
    ensures
        references_fault(done.push(next)) == (match references_fault(done) {
            Some(error) => Some(error),
            None => media::image_reference_fault(next),
        }),
        image_urls(done.push(next), mime_type) == (match media::image_reference(next, mime_type) {
            Some(url) => image_urls(done, mime_type).push(url),
            None => image_urls(done, mime_type),
        }),
{
    assert(done.push(next).drop_last() =~= done);
}

proof fn lemma_fault_stays(done: Seq<Seq<char>>, more: Seq<Seq<char>>)
    requires
        references_fault(done) is Some,
    ensures
        references_fault(done + more) == references_fault(done),
    decreases more.len(),
{
    if more.len() == 0 {
        assert(done + more =~= done);
    } else {
        lemma_fault_stays(done, more.drop_last());
        assert((done + more).drop_last() =~= done + more.drop_last());
    }
}

fn collect_images(request: &GenericWebhookMessage) -> (r: Result<Vec<String>, String>)
    ensures
        match r {
            Ok(images) => {
                &&& references_fault(image_references(*request)) is None
                &&& text::views(images@) == image_urls(image_references(*request), image_type(*request))
            },
            Err(error) => references_fault(image_references(*request)) == Some(error@),
        },
{
    let mime_type = match &request.image_mime_type {
        Some(mime_type) => mime_type.as_str(),
        None => "image/jpeg",
    };
    let ghost all = image_references(*request);
    let ghost mut done: Seq<Seq<char>> = Seq::empty();
    let mut images: Vec<String> = Vec::new();
    assert(text::views(images@) =~= Seq::empty());
    let ghost tail = one_reference(request.image_base64);
    let ghost middle = listed_references(request.images);
    if let Some(image) = &request.image {
        proof {
            lemma_one_more(done, image@, mime_type@);
            done = done.push(image@);
            assert(all =~= done + (middle + tail));
        }
        match add_image(&mut images, image.as_str(), mime_type) {
            Ok(_) => {},
            Err(error) => {
                proof {
                    lemma_fault_stays(done, middle + tail);
                }
                return Err(error);
            },
        }
    }
    let ghost head = done;
    if let Some(list) = &request.images {
        let mut i: usize = 0;
        assert(head + middle.take(0) =~= head);
        while i < list.len()
            invariant
                i <= list.len(),
                middle == text::views(list@),
                all == image_references(*request),
                all == head + middle + tail,
                references_fault(head + middle.take(i as int)) is None,
                text::views(images@) == image_urls(head + middle.take(i as int), mime_type@),
            decreases list.len() - i,
        {
            let ghost before = head + middle.take(i as int);
            proof {
                lemma_one_more(before, list@[i as int]@, mime_type@);
                assert(before.push(list@[i as int]@) =~= head + middle.take(i + 1));
            }
            match add_image(&mut images, list[i].as_str(), mime_type) {
                Ok(_) => {},
                Err(error) => {
                    proof {
                        let now = head + middle.take(i + 1);
                        let more = middle.skip(i + 1) + tail;
                        lemma_fault_stays(now, more);
                        assert(all =~= now + more);
                    }
                    return Err(error);
                },
            }
            i += 1;
        }
        assert(middle.take(i as int) =~= middle);
    } else {
        assert(head + middle =~= head);
    }
    if let Some(image) = &request.image_base64 {
        proof {
            lemma_one_more(head + middle, image@, mime_type@);
            assert((head + middle).push(image@) =~= all);
        }
        match add_image(&mut images, image.as_str(), mime_type) {
            Ok(_) => {},
            Err(error) => {
                return Err(error);
            },
        }
    } else {
        assert(head + middle + tail =~= head + middle);
    }
    Ok(images)
}

/// The payload of a request, given its images as URLs and its audio decoded.
pub fn assemble_webhook_payload(
    request: &GenericWebhookMessage,
    images: Vec<String>,
    audio: Option<Vec<u8>>,
) -> (r: Result<ParsedGenericWebhookPayload, String>)
    ensures
        match r {
            Ok(payload) => assembled(*request, text::views(images@), opt_bytes(audio)) == Some(payload@),
            Err(error) => assembled(*request, text::views(images@), opt_bytes(audio)) is None && error@
                == "Missing text or media"@,
        },
{
    let said = match &request.text {
        Some(t) => trim_text(t.as_str()),
        None => match &request.message {
            Some(m) => trim_text(m.as_str()),
            None => trim_text(""),
        },
    };
    proof {
        reveal_strlit("");
        assert(""@ =~= Seq::empty());
        reveal_with_fuel(first_given, 2);
        assert(seq![text::opt_view(request.audio_format)].drop_first() =~= Seq::empty());
        assert(seq![text::opt_view(request.character_id)].drop_first() =~= Seq::empty());
        lemma_default_format();
    }
    let audio_format = match &audio {
        Some(_) => Some(
            match given(as_deref(&request.audio_format)) {
                Some(format) => format,
                None => audio_format_from_mime_or_name(None, None),
            },
        ),
        None => None,
    };
    if said.as_str().is_empty() && audio.is_none() && images.len() == 0 {
        return Err("Missing text or media".to_owned());
    }
    let said = if said.as_str().is_empty() && images.len() > 0 {
        "The user sent an image:".to_owned()
    } else {
        said
    };
    Ok(
        ParsedGenericWebhookPayload {
            text: said,
            images,
            audio,
            audio_format,
            character_id: given(as_deref(&request.character_id)),
            conversation_key: webhook_conversation_key(
                as_deref(&request.conversation_type),
                as_deref(&request.conversation_id),
                as_deref(&request.user_id),
                as_deref(&request.source),
            ),
        },
    )
}

/// Audio of which nothing is known is taken as Ogg.
proof fn lemma_default_format()
    ensures
        media::audio_format(media::media_hint(None, None)) == "ogg"@,
{
    let h = text::lower(Seq::<char>::empty());
    assert(h.len() == 0);
    reveal_strlit("mpeg");
    reveal_strlit("mp3");
    reveal_strlit("wav");
    reveal_strlit("webm");
    reveal_strlit("mp4");
    reveal_strlit("m4a");
    assert(!text::contains(h, "mpeg"@));
    assert(!text::contains(h, "mp3"@));
    assert(!text::contains(h, "wav"@));
    assert(!text::contains(h, "webm"@));
    assert(!text::contains(h, "mp4"@));
    assert(!text::contains(h, "m4a"@));
}

/// Reads a webhook request. `request` is what decoding its body as JSON gave:
/// the message, or the words of the error.
pub fn parse_generic_webhook_payload(request: Result<GenericWebhookMessage, String>) -> (r: Result<
    ParsedGenericWebhookPayload,
    String,
>)
    ensures
        payload_view(r) == (match request {
            Ok(message) => payload_of(message),
            Err(error) => Err("Invalid JSON: "@ + error@),
        }),
{
    let request = match request {
        Ok(message) => message,
        Err(error) => {
            return Err(concat2("Invalid JSON: ", error.as_str()));
        },
    };
    let images = match collect_images(&request) {
        Ok(images) => images,
        Err(error) => {
            return Err(error);
        },
    };
    let audio = match &request.audio_base64 {
        Some(payload) => match decode_base64_payload(payload.as_str()) {
            Ok(bytes) => Some(bytes),
            Err(error) => {
                return Err(error);
            },
        },
        None => None,
    };
    assemble_webhook_payload(&request, images, audio)
}

/// Lets a webhook request in: its size, its token and its body are checked, in
/// this order.
pub fn admit_webhook_request(
    body: &[u8],
    authorization: Option<&str>,
    expected_token: Option<&str>,
    request: Result<GenericWebhookMessage, String>,
) -> (r: Result<ParsedGenericWebhookPayload, HttpError>)
    ensures
        match r {
            Ok(payload) => {
                &&& body@.len() <= MAX_GENERIC_WEBHOOK_BODY_BYTES
                &&& bearer_fault(text::opt_str(authorization), text::opt_str(expected_token)) is None
                &&& request matches Ok(message) && payload_of(message) == Ok::<
                    PayloadView,
                    Seq<char>,
                >(payload@)
            },
            Err(error) => if body@.len() > MAX_GENERIC_WEBHOOK_BODY_BYTES {
                is_error(error, 400, "Webhook body exceeds the 4194304 byte limit"@)
            } else {
                match bearer_fault(text::opt_str(authorization), text::opt_str(expected_token)) {
                    Some(fault) => is_error(error, 401, fault),
                    None => match request {
                        Ok(message) => payload_of(message) matches Err(fault) && is_error(
                            error,
                            400,
                            fault,
                        ),
                        Err(fault) => is_error(error, 400, "Invalid JSON: "@ + fault@),
                    },
                }
            },
        },
{
    if let Err(message) = validate_generic_webhook_body(body) {
        return Err(HttpError { status: 400, message });
    }
    if let Err(message) = verify_webhook_bearer(authorization, expected_token) {
        return Err(HttpError { status: 401, message });
    }
    match parse_generic_webhook_payload(request) {
        Ok(payload) => Ok(payload),
        Err(message) => Err(HttpError { status: 400, message }),
    }
}

/// A webhook message whose audio, if it had any, has become text.
#[derive(Debug)]
pub struct WebhookMessage {
    pub text: String,
    pub images: Vec<String>,
    pub character_id: Option<String>,
    pub conversation_key: Option<String>,
}

impl ParsedGenericWebhookPayload {
    /// The message with what was said in its audio. `spoken` is what the
    /// transcriber gave, where there was audio.
    pub fn with_transcription(self, spoken: Option<Result<Option<String>, String>>) -> (r: Result<
        WebhookMessage,
        HttpError,
    >)
        ensures
            match spoken {
                Some(Err(error)) => r matches Err(e) && is_error(e, 500, error@),
                _ => {
                    let heard = match spoken {
                        Some(Ok(transcription)) => text::opt_view(transcription),
                        _ => None,
                    };
                    let said = media::transcribed(self.text@, heard);
                    match r {
                        Ok(message) => {
                            &&& !text::blank(said)
                            &&& message.text@ == said
                            &&& message.images == self.images
                            &&& message.character_id == self.character_id
                            &&& message.conversation_key == self.conversation_key
                        },
                        Err(error) => text::blank(said) && is_error(
                            error,
                            400,
                            "Missing text or media"@,
                        ),
                    }
                },
            },
    {
        let said = match spoken {
            Some(Err(message)) => {
                return Err(HttpError { status: 500, message });
            },
            Some(Ok(transcription)) => text_with_transcription(self.text, transcription),
            None => text_with_transcription(self.text, None),
        };
        if is_blank(said.as_str()) {
            return Err(HttpError { status: 400, message: "Missing text or media".to_owned() });
        }
        Ok(
            WebhookMessage {
                text: said,
                images: self.images,
                character_id: self.character_id,
                conversation_key: self.conversation_key,
            },
        )
    }
}

/// A webhook message with the character that answers it. `explicit` says
/// whether the request or the configuration names a character, and
/// `conversation_id` is the stored conversation.
#[derive(Debug)]
pub struct WebhookTurn {
    pub text: String,
    pub images: Vec<String>,
    pub character_id: String,
    pub explicit: bool,
    pub conversation_key: Option<String>,
    pub conversation_id: String,
}

impl WebhookMessage {
    /// Chooses the character. `available` says whether the engine is there,
    /// `activating` whether it is just changing its character.
    pub fn for_character(
        self,
        configured_character_id: Option<&str>,
        active_character_id: &str,
        available: bool,
        activating: bool,
    ) -> (r: Result<WebhookTurn, HttpError>)
        ensures
            match r {
                Ok(turn) => {
                    &&& available && !activating
                    &&& turn.text@ == self.text@
                    &&& turn.images == self.images
                    &&& turn.conversation_key == self.conversation_key
                    &&& turn.character_id@ == webhook_character(
                        text::opt_view(self.character_id),
                        text::opt_str(configured_character_id),
                        Some(active_character_id@),
                    )
                    &&& turn.explicit == (first_given(
                        seq![text::opt_view(self.character_id), text::opt_str(configured_character_id)],
                    ) is Some)
                    &&& turn.conversation_id@ == stored_conversation(
                        turn.character_id@,
                        text::opt_view(self.conversation_key),
                    )
                },
                Err(error) => if !available {
                    is_error(error, 500, "AIOrchestrator not available"@)
                } else {
                    activating && is_error(error, 503, "Character activation is in progress"@)
                },
            },
    {
        let character_id = resolve_webhook_character_id(
            as_deref(&self.character_id),
            configured_character_id,
            Some(active_character_id),
        );
        if !available {
            return Err(
                HttpError { status: 500, message: "AIOrchestrator not available".to_owned() },
            );
        }
        if activating {
            return Err(
                HttpError {
                    status: 503,
                    message: "Character activation is in progress".to_owned(),
                },
            );
        }
        let explicit = first_of(
            as_deref(&self.character_id),
            configured_character_id,
            None,
        ).is_some();
        proof {
            reveal_with_fuel(first_given, 4);
            let two = seq![text::opt_view(self.character_id), text::opt_str(configured_character_id)];
            let three = seq![text::opt_view(self.character_id), text::opt_str(configured_character_id), None];
            assert(three.drop_first() =~= seq![text::opt_str(configured_character_id), None]);
            assert(three.drop_first().drop_first() =~= seq![None::<Seq<char>>]);
            assert(two.drop_first() =~= seq![text::opt_str(configured_character_id)]);
            assert(three.drop_first().drop_first().drop_first() =~= two.drop_first().drop_first());
        }
        let conversation_id = prepare_webhook_conversation(
            character_id.as_str(),
            as_deref(&self.conversation_key),
        );
        Ok(
            WebhookTurn {
                text: self.text,
                images: self.images,
                character_id,
                explicit,
                conversation_key: self.conversation_key,
                conversation_id,
            },
        )
    }
}

impl WebhookTurn {
    /// What follows once the profile of the character was looked up: `found`
    /// is whether it exists. The result says whether the bare name is to be
    /// used instead of a profile.
    pub fn profile_applied(&self, found: Result<bool, String>) -> (r: Result<bool, HttpError>)
        ensures
            match found {
                Ok(true) => r matches Ok(bare) && !bare,
                Ok(false) => if self.explicit {
                    r matches Err(error) && is_error(
                        error,
                        400,
                        "Unknown character: "@ + self.character_id@,
                    )
                } else {
                    r matches Ok(bare) && bare
                },
                Err(fault) => r matches Err(error) && is_error(
                    error,
                    500,
                    "Failed to load character profile: "@ + fault@,
                ),
            },
    {
        match found {
            Ok(true) => Ok(false),
            Ok(false) => if self.explicit {
                Err(
                    HttpError {
                        status: 400,
                        message: concat2("Unknown character: ", self.character_id.as_str()),
                    },
                )
            } else {
                Ok(true)
            },
            Err(fault) => Err(
                HttpError {
                    status: 500,
                    message: concat2("Failed to load character profile: ", fault.as_str()),
                },
            ),
        }
    }
}

/// The answer where no reply could be made.
pub fn webhook_reply_error(error: &str) -> (r: HttpError)
    ensures
        if text::contains(error@, "Character activation is in progress"@) {
            is_error(r, 503, "Character activation is in progress"@)
        } else {
            is_error(r, 500, error@)
        },
{
    if contains_text(error, "Character activation is in progress") {
        HttpError { status: 503, message: "Character activation is in progress".to_owned() }
    } else {
        HttpError { status: 500, message: error.to_owned() }
    }
}

} // verus!
