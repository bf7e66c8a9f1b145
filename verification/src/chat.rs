//! What goes to the model, to hooks and to the window during a chat turn.

use vstd::prelude::*;
use crate::history::Message;
use crate::json;
use crate::json::{json_text, JsonObject, JsonValue, JsonView};
use crate::text;
use crate::text::{
    concat2, contains_text, decimal_text, find_text, same_text,
    slice_text, tail_text, to_chars, trim_text,
};

verus! {

broadcast use vstd::string::group_string_axioms;

/// A request for one turn of the chat.
#[derive(Debug)]
pub struct ChatRequest {
    pub message: String,
    pub api_key: Option<String>,
    pub endpoint: Option<String>,
    pub model: Option<String>,
    pub allow_image_gen: Option<bool>,
    pub images: Option<Vec<String>>,
    pub character_id: Option<String>,
    /// The user's message is not shown. A reply that is not empty may still be
    /// stored; a reply that says nothing leaves nothing behind.
    pub hidden: bool,
    /// What the caller finds the turn again by in its events.
    pub client_request_id: Option<String>,
    /// The reply to the user's last message is made anew.
    pub regenerate: bool,
}

/// What a turn of the chat ends with.
#[derive(Debug, PartialEq, Eq)]
pub struct StreamChatResponse {
    pub conversation_id: String,
    pub user_message_id: Option<i64>,
    pub assistant_message_id: Option<i64>,
}

/// An error that the window shows.
#[derive(Debug)]
pub struct ChatErrorEvent {
    pub code: String,
    pub stage: String,
    pub retryable: bool,
    pub trace_id: String,
    pub message: String,
}

pub fn build_chat_error_event(stage: &str, message: &str, trace_id: &str, retryable: bool) -> (r:
    ChatErrorEvent)
    ensures
        r.code@ == "CHAT_STREAM_ERROR"@,
        r.stage@ == stage@,
        r.retryable == retryable,
        r.trace_id@ == trace_id@,
        r.message@ == message@,
{
    ChatErrorEvent {
        code: "CHAT_STREAM_ERROR".to_owned(),
        stage: stage.to_owned(),
        retryable,
        trace_id: trace_id.to_owned(),
        message: message.to_owned(),
    }
}

/// An error as it is sent.
pub open spec fn error_value(event: ChatErrorEvent) -> JsonView {
    JsonView::Object(
        seq![
            ("code"@, JsonView::Text(event.code@)),
            ("stage"@, JsonView::Text(event.stage@)),
            ("retryable"@, JsonView::Bool(event.retryable)),
            ("trace_id"@, JsonView::Text(event.trace_id@)),
            ("message"@, JsonView::Text(event.message@)),
        ],
    )
}

impl ChatErrorEvent {
    pub fn to_value(&self) -> (value: JsonValue)
        ensures
            value@ == error_value(*self),
    {
        let value = JsonObject::new().with("code", json_text(self.code.as_str())).with(
            "stage",
            json_text(self.stage.as_str()),
        ).with("retryable", JsonValue::Bool(self.retryable)).with(
            "trace_id",
            json_text(self.trace_id.as_str()),
        ).with("message", json_text(self.message.as_str())).done();
        assert(value@->Object_0 =~= error_value(*self)->Object_0);
        value
    }
}

/// How a failure is stored among the messages of a conversation.
pub fn failure_event_metadata(event: JsonValue) -> (value: JsonValue)
    ensures
        value@ == JsonView::Object(
            seq![("type"@, JsonView::Text("failure_event"@)), ("event"@, event@)],
        ),
{
    let ghost e = event@;
    let value = JsonObject::new().with("type", json_text("failure_event")).with("event", event).done();
    assert(value@->Object_0 =~= seq![("type"@, JsonView::Text("failure_event"@)), ("event"@, e)]);
    value
}

/// The size from which on the log of failures is put aside.
pub const FAILURE_EVENTS_LOG_MAX_BYTES: u64 = 2097152;

/// Whether the log of failures, whose size is `bytes`, is put aside before the
/// next line is written. A log that does not exist is not.
pub fn rotates_failure_log(bytes: Option<u64>) -> (b: bool)
    ensures
        b == (bytes matches Some(n) && n >= FAILURE_EVENTS_LOG_MAX_BYTES),
{
    match bytes {
        Some(n) => n >= FAILURE_EVENTS_LOG_MAX_BYTES,
        None => false,
    }
}

/// What hooks are told of a turn.
#[derive(Debug)]
pub struct ChatHookPayload {
    pub conversation_id: Option<String>,
    pub character_id: String,
    pub turn_id: Option<String>,
    pub message: Option<String>,
    pub response: Option<String>,
    pub tool_round: Option<usize>,
    pub hidden: bool,
}

#[derive(Debug)]
pub enum HookPayload {
    Chat(ChatHookPayload),
}

pub fn build_chat_hook_payload(
    conversation_id: Option<String>,
    character_id: &str,
    turn_id: Option<String>,
    message: Option<String>,
    response: Option<String>,
    tool_round: Option<usize>,
    hidden: bool,
) -> (r: HookPayload)
    ensures
        r matches HookPayload::Chat(chat) && {
            &&& chat.conversation_id == conversation_id
            &&& chat.character_id@ == character_id@
            &&& chat.turn_id == turn_id
            &&& chat.message == message
            &&& chat.response == response
            &&& chat.tool_round == tool_round
            &&& chat.hidden == hidden
        },
{
    HookPayload::Chat(
        ChatHookPayload {
            conversation_id,
            character_id: character_id.to_owned(),
            turn_id,
            message,
            response,
            tool_round,
            hidden,
        },
    )
}

/// A reply that says nothing: a blank one, or the word `PASS` alone.
pub open spec fn says_nothing(reply: Seq<char>) -> bool {
    text::blank(reply) || ascii_lower(text::trim(reply)) == "pass"@
}

/// A character in lower case, where it is an ASCII letter.
pub open spec fn ascii_lower_char(c: char) -> char {
    if 'A' <= c && c <= 'Z' {
        ((c as u32) + 32) as char
    } else {
        c
    }
}

pub open spec fn ascii_lower(s: Seq<char>) -> Seq<char> {
    s.map_values(|c: char| ascii_lower_char(c))
}

fn is_letter(c: char, lower: char, upper: char) -> (b: bool)
    requires
        'a' <= lower,
        lower <= 'z',
        lower as u32 == upper as u32 + 32,
    ensures
        b == (ascii_lower_char(c) == lower),
{
    c == lower || c == upper
}

pub fn is_proactive_noop_response(text: &str) -> (b: bool)
    ensures
        b == says_nothing(text@),
{
    let chars = to_chars(trim_text(text).as_str());
    proof {
        reveal_strlit("pass");
    }
    let ghost lowered = ascii_lower(chars@);
    if chars.len() == 0 {
        return true;
    }
    if chars.len() != 4 {
        assert(lowered.len() != 4);
        return false;
    }
    let r = is_letter(chars[0], 'p', 'P') && is_letter(chars[1], 'a', 'A') && is_letter(
        chars[2],
        's',
        'S',
    ) && is_letter(chars[3], 's', 'S');
    proof {
        assert(lowered[0] == ascii_lower_char(chars@[0]));
        assert(lowered[1] == ascii_lower_char(chars@[1]));
        assert(lowered[2] == ascii_lower_char(chars@[2]));
        assert(lowered[3] == ascii_lower_char(chars@[3]));
        assert("pass"@ =~= seq!['p', 'a', 's', 's']);
        if r {
            assert(lowered =~= "pass"@);
        }
    }
    r
}

/// One message of a request as hooks see it.
#[derive(Debug)]
pub struct BeforeLlmRequestMessage {
    pub role: String,
    pub content: String,
}

/// A request to the model as hooks see it, and may change it.
#[derive(Debug)]
pub struct BeforeLlmRequestPayload {
    pub conversation_id: Option<String>,
    pub character_id: String,
    pub turn_id: Option<String>,
    pub hidden: bool,
    pub request_message: String,
    pub messages: Vec<BeforeLlmRequestMessage>,
}

pub open spec fn same_words(a: BeforeLlmRequestMessage, b: Message) -> bool {
    a.role@ == b.role@ && a.content@ == b.content@
}

pub fn build_before_llm_request_payload(
    conversation_id: Option<String>,
    character_id: &str,
    turn_id: Option<String>,
    request_message: String,
    hidden: bool,
    prompt_messages: &Vec<Message>,
) -> (r: BeforeLlmRequestPayload)
    ensures
        r.conversation_id == conversation_id,
        r.character_id@ == character_id@,
        r.turn_id == turn_id,
        r.hidden == hidden,
        r.request_message == request_message,
        r.messages@.len() == prompt_messages@.len(),
        forall|i: int|
            0 <= i < r.messages@.len() ==> same_words(
                #[trigger] r.messages@[i],
                prompt_messages@[i],
            ),
{
    let mut messages: Vec<BeforeLlmRequestMessage> = Vec::new();
    let mut i: usize = 0;
    while i < prompt_messages.len()
        invariant
            i <= prompt_messages.len(),
            messages@.len() == i,
            forall|k: int| 0 <= k < i ==> same_words(#[trigger] messages@[k], prompt_messages@[k]),
        decreases prompt_messages.len() - i,
    {
        let m = &prompt_messages[i];
        messages.push(
            BeforeLlmRequestMessage { role: m.role.clone(), content: m.content.clone() },
        );
        i += 1;
    }
    BeforeLlmRequestPayload {
        conversation_id,
        character_id: character_id.to_owned(),
        turn_id,
        hidden,
        request_message,
        messages,
    }
}

/// The metadata that message `i` of a request has: those of the message at the
/// same place before the hooks, where its role is still the same.
pub open spec fn kept_metadata(
    original: Seq<Message>,
    i: int,
    role: Seq<char>,
) -> Option<JsonView> {
    if 0 <= i < original.len() && original[i].role@ == role {
        json::opt_json(original[i].metadata)
    } else {
        None
    }
}

/// The words of a message and the metadata it keeps.
pub open spec fn applied(
    message: Message,
    changed: BeforeLlmRequestMessage,
    original: Seq<Message>,
    i: int,
) -> bool {
    &&& message.role@ == changed.role@
    &&& message.content@ == changed.content@
    &&& json::opt_json(message.metadata) == kept_metadata(original, i, changed.role@)
}

/// The request as the hooks left it: the user's message, and the messages for
/// the model.
pub fn apply_before_llm_request_payload(
    payload: BeforeLlmRequestPayload,
    original_prompt_messages: &Vec<Message>,
) -> (r: (String, Vec<Message>))
    ensures
        r.0 == payload.request_message,
        r.1@.len() == payload.messages@.len(),
        forall|i: int|
            0 <= i < r.1@.len() ==> applied(
                #[trigger] r.1@[i],
                payload.messages@[i],
                original_prompt_messages@,
                i,
            ),
{
    let mut messages: Vec<Message> = Vec::new();
    let mut i: usize = 0;
    while i < payload.messages.len()
        invariant
            i <= payload.messages.len(),
            messages@.len() == i,
            forall|k: int|
                0 <= k < i ==> applied(
                    #[trigger] messages@[k],
                    payload.messages@[k],
                    original_prompt_messages@,
                    k,
                ),
        decreases payload.messages.len() - i,
    {
        let changed = &payload.messages[i];
        let same_place = i < original_prompt_messages.len() && same_text(
            original_prompt_messages[i].role.as_str(),
            changed.role.as_str(),
        );
        let metadata = if same_place {
            match &original_prompt_messages[i].metadata {
                Some(value) => Some(value.copy()),
                None => None,
            }
        } else {
            None
        };
        messages.push(
            Message { role: changed.role.clone(), content: changed.content.clone(), metadata },
        );
        i += 1;
    }
    (payload.request_message, messages)
}

/// The request as it is where no hook changes it.
pub fn build_effective_before_llm_request(
    conversation_id: Option<String>,
    character_id: &str,
    turn_id: Option<String>,
    request_message: String,
    hidden: bool,
    prompt_messages: &Vec<Message>,
) -> (r: (String, Vec<Message>))
    ensures
        r.0 == request_message,
        r.1@.len() == prompt_messages@.len(),
        forall|i: int|
            0 <= i < r.1@.len() ==> (#[trigger] r.1@[i])@ == prompt_messages@[i]@,
{
    let payload = build_before_llm_request_payload(
        conversation_id,
        character_id,
        turn_id,
        request_message,
        hidden,
        prompt_messages,
    );
    let ghost sent = payload.messages@;
    let r = apply_before_llm_request_payload(payload, prompt_messages);
    proof {
        assert forall|i: int| 0 <= i < r.1@.len() implies (#[trigger] r.1@[i])@
            == prompt_messages@[i]@ by {
            assert(same_words(sent[i], prompt_messages@[i]));
            assert(applied(r.1@[i], sent[i], prompt_messages@, i));
        }
    }
    r
}

/// What was seen on the screen.
#[derive(Debug)]
pub struct VisionObservation {
    pub id: String,
    pub captured_at: String,
    pub analyzed_at: String,
    pub summary: String,
    pub source: String,
}

pub open spec fn observation_fields(o: VisionObservation) -> Seq<(Seq<char>, JsonView)> {
    seq![
        ("type"@, JsonView::Text("vision_observation"@)),
        ("observation_id"@, JsonView::Text(o.id@)),
        ("captured_at"@, JsonView::Text(o.captured_at@)),
        ("analyzed_at"@, JsonView::Text(o.analyzed_at@)),
        ("source"@, JsonView::Text(o.source@)),
    ]
}

fn observation_object(observation: &VisionObservation) -> (r: JsonObject)
    ensures
        r@ == observation_fields(*observation),
{
    let r = JsonObject::new().with("type", json_text("vision_observation")).with(
        "observation_id",
        json_text(observation.id.as_str()),
    ).with("captured_at", json_text(observation.captured_at.as_str())).with(
        "analyzed_at",
        json_text(observation.analyzed_at.as_str()),
    ).with("source", json_text(observation.source.as_str()));
    assert(r@ =~= observation_fields(*observation));
    r
}

pub fn vision_context_metadata_value(observation: &VisionObservation) -> (value: JsonValue)
    ensures
        value@ == JsonView::Object(observation_fields(*observation)),
{
    observation_object(observation).done()
}

/// How an observation is stored among the messages of a conversation; with the
/// turn that it belongs to, where there is one.
pub fn stored_vision_metadata(observation: &VisionObservation, turn_id: Option<&str>) -> (value:
    JsonValue)
    ensures
        value@ == JsonView::Object(
            match text::opt_str(turn_id) {
                Some(id) => observation_fields(*observation).push(("turn_id"@, JsonView::Text(id))),
                None => observation_fields(*observation),
            },
        ),
{
    match turn_id {
        Some(id) => observation_object(observation).with("turn_id", json_text(id)).done(),
        None => observation_object(observation).done(),
    }
}

/// A tool call that the model made.
#[derive(Debug)]
pub struct LlmToolCall {
    pub id: String,
    pub name: String,
    pub arguments: String,
}

/// A message as it goes to the model.
#[derive(Debug)]
pub struct LlmChatMessage {
    pub role: String,
    pub text: String,
    pub images: Vec<String>,
    pub tool_calls: Vec<LlmToolCall>,
    pub tool_call_id: Option<String>,
    pub reasoning_content: Option<String>,
    pub provider_data: Vec<JsonValue>,
}

/// A message that holds a text and nothing else.
pub open spec fn is_plain(message: LlmChatMessage, role: Seq<char>, words: Seq<char>) -> bool {
    &&& message.role@ == role
    &&& message.text@ == words
    &&& message.images@.len() == 0
    &&& message.tool_calls@.len() == 0
    &&& message.tool_call_id is None
    &&& message.reasoning_content is None
    &&& message.provider_data@.len() == 0
}

pub fn plain_llm_message(role: &str, text: &str) -> (message: LlmChatMessage)
    ensures
        is_plain(message, role@, text@),
{
    LlmChatMessage {
        role: role.to_owned(),
        text: text.to_owned(),
        images: Vec::new(),
        tool_calls: Vec::new(),
        tool_call_id: None,
        reasoning_content: None,
        provider_data: Vec::new(),
    }
}

/// Where the user's last message stands.
pub open spec fn latest_user(messages: Seq<LlmChatMessage>) -> Option<int>
    decreases messages.len(),
{
    if messages.len() == 0 {
        None
    } else if messages.last().role@ == "user"@ {
        Some(messages.len() - 1)
    } else {
        latest_user(messages.drop_last())
    }
}

fn find_latest_user(messages: &Vec<LlmChatMessage>) -> (r: Option<usize>)
    ensures
        match r {
            Some(i) => i < messages@.len() && latest_user(messages@) == Some(i as int),
            None => latest_user(messages@) is None,
        },
{
    let mut end: usize = messages.len();
    assert(messages@.take(end as int) =~= messages@);
    while end > 0
        invariant
            end <= messages@.len(),
            latest_user(messages@) == latest_user(messages@.take(end as int)),
        decreases end,
    {
        assert(messages@.take(end as int).last() == messages@[end - 1]);
        if same_text(messages[end - 1].role.as_str(), "user") {
            return Some(end - 1);
        }
        assert(messages@.take(end as int).drop_last() =~= messages@.take(end - 1));
        end -= 1;
    }
    None
}

/// The messages with what was seen on the screen right before the user's last
/// one, or at the end where there is none.
pub open spec fn with_vision(messages: Seq<LlmChatMessage>, seen: LlmChatMessage) -> Seq<
    LlmChatMessage,
> {
    match latest_user(messages) {
        Some(i) => messages.insert(i, seen),
        None => messages.push(seen),
    }
}

pub fn insert_vision_context_before_latest_user(
    client_messages: &mut Vec<LlmChatMessage>,
    rendered: LlmChatMessage,
)
    ensures
        final(client_messages)@ == with_vision(old(client_messages)@, rendered),
{
    match find_latest_user(client_messages) {
        Some(i) => client_messages.insert(i, rendered),
        None => client_messages.push(rendered),
    }
}

/// What the model gets in a turn whose message is hidden. The message is not
/// part of the history, so it is put behind it, and what was seen on the
/// screen right before it.
pub fn add_hidden_message(
    client_messages: &mut Vec<LlmChatMessage>,
    message: &str,
    seen: Option<LlmChatMessage>,
)
    ensures
        final(client_messages)@.len() == old(client_messages)@.len() + (if seen is Some {
            2int
        } else {
            1int
        }),
        is_plain(final(client_messages)@.last(), "user"@, message@),
        final(client_messages)@.drop_last() == (match seen {
            Some(rendered) => old(client_messages)@.push(rendered),
            None => old(client_messages)@,
        }),
{
    let ghost before = client_messages@;
    let user = plain_llm_message("user", message);
    let ghost added = user;
    client_messages.push(user);
    assert(client_messages@.drop_last() =~= before);
    match seen {
        Some(rendered) => {
            let ghost r = rendered;
            insert_vision_context_before_latest_user(client_messages, rendered);
            assert(client_messages@ =~= before.push(r).push(added));
            assert(client_messages@.drop_last() =~= before.push(r));
        },
        None => {},
    }
}

/// A message with other images.
pub open spec fn with_images(message: LlmChatMessage, images: Vec<String>) -> LlmChatMessage {
    LlmChatMessage { images, ..message }
}

/// Puts images into the user's last message, where there is one.
pub fn attach_images(client_messages: &mut Vec<LlmChatMessage>, images: Vec<String>)
    ensures
        final(client_messages)@ == (match latest_user(old(client_messages)@) {
            Some(i) => if images@.len() > 0 {
                old(client_messages)@.update(i, with_images(old(client_messages)@[i], images))
            } else {
                old(client_messages)@
            },
            None => old(client_messages)@,
        }),
{
    if images.len() == 0 {
        return ;
    }
    if let Some(i) = find_latest_user(client_messages) {
        let ghost before = client_messages@;
        let message = client_messages.remove(i);
        let message = LlmChatMessage {
            role: message.role,
            text: message.text,
            images,
            tool_calls: message.tool_calls,
            tool_call_id: message.tool_call_id,
            reasoning_content: message.reasoning_content,
            provider_data: message.provider_data,
        };
        client_messages.insert(i, message);
        assert(client_messages@ =~= before.update(i as int, with_images(before[i as int], images)));
    }
}

/// The name of the file that an image of the local server at `port` has: what
/// stands behind the first `/vision/`, up to the next one.
pub open spec fn local_file(url: Seq<char>, port: int) -> Option<Seq<char>> {
    if !text::contains(url, "http://127.0.0.1:"@ + text::decimal(port as nat)) {
        None
    } else {
        match text::find(url, "/vision/"@, 0) {
            Some(at) => {
                let rest = url.skip(at + 8);
                match text::find(rest, "/vision/"@, 0) {
                    Some(end) => Some(rest.take(end)),
                    None => Some(rest),
                }
            },
            None => None,
        }
    }
}

pub fn local_image_file(url: &str, port: u16) -> (name: Option<String>)
    ensures
        text::opt_view(name) == local_file(url@, port as int),
{
    proof {
        reveal_strlit("/vision/");
        text::lemma_find_bounds(url@, "/vision/"@, 0);
    }
    let port_text = decimal_text(port as u64);
    let server = concat2("http://127.0.0.1:", port_text.as_str());
    if !contains_text(url, server.as_str()) {
        return None;
    }
    match find_text(url, "/vision/", 0) {
        Some(at) => {
            let rest = tail_text(url, at + 8);
            proof {
                text::lemma_find_bounds(rest@, "/vision/"@, 0);
            }
            match find_text(rest.as_str(), "/vision/", 0) {
                Some(end) => {
                    let name = slice_text(rest.as_str(), 0, end);
                    assert(name@ =~= rest@.take(end as int));
                    Some(name)
                },
                None => Some(rest),
            }
        },
        None => None,
    }
}

} // verus!
