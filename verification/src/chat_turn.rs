//! One turn of the chat: from the request over the rounds with the model to
//! what is stored and reported.

use vstd::prelude::*;
use crate::approval::new_request_id;
use crate::cancellation;
use crate::cancellation::{is_turn_cancelled_error_message, TurnCancellationState};
use crate::chat;
use crate::chat::{
    is_proactive_noop_response, plain_llm_message, LlmChatMessage, LlmToolCall, StreamChatResponse,
};
use crate::encoding;
use crate::encoding::base64_encode;
use crate::error::KokoroError;
use crate::history;
use crate::history::should_insert_user_message_for_request;
use crate::json;
use crate::json::{
    json_int, json_opt_text, json_text, parse_json, JsonObject, JsonValue, JsonView,
};
use crate::media;
use crate::memory;
use crate::memory::{memory_tasks, MemoryTasks};
use crate::reply_text;
use crate::reply_text::{extract_translate_tags, merge_continuation_text, strip_leaked_tags};
use crate::tags;
use crate::tags::{parse_tool_call_tags, ToolCall};
use crate::text;
use crate::text::{
    concat2, concat3, contains_entry, ends_with_text, find_char_text, head_text,
    is_blank, join_text, same_text, slice_text, starts_with_text, tail_text, trim_text,
};
use crate::tool_trace;
use crate::tool_trace::{
    args_text, is_builtin_tool, tool_result_text, ActionResult, ToolExecutionOutcome,
};

verus! {

broadcast use vstd::string::group_string_axioms;

/// No turn runs while the character's runtime is degraded.
pub fn chat_gate(degraded: Option<&str>) -> (r: Result<(), KokoroError>)
    ensures
        match text::opt_str(degraded) {
            Some(reason) => r matches Err(KokoroError::Chat(words)) && words@
                == "Character runtime is degraded ("@ + reason
                + "). Please re-activate or select a character in Character Settings before sending messages."@,
            None => r is Ok,
        },
{
    match degraded {
        Some(reason) => Err(
            KokoroError::Chat(
                concat3(
                    "Character runtime is degraded (",
                    reason,
                    "). Please re-activate or select a character in Character Settings before sending messages.",
                ),
            ),
        ),
        None => Ok(()),
    }
}

/// The character that a request is for.
pub fn chat_character(character_id: &Option<String>) -> (id: String)
    ensures
        id@ == (match text::opt_view(*character_id) {
            Some(id) => id,
            None => "default"@,
        }),
{
    match character_id {
        Some(id) => id.clone(),
        None => "default".to_owned(),
    }
}

/// A message that holds a question mark.
pub fn is_question(message: &str) -> (b: bool)
    ensures
        b == (message@.contains('?') || message@.contains('？')),
{
    proof {
        text::lemma_find_char_contains(message@, '?');
        text::lemma_find_char_contains(message@, '？');
    }
    find_char_text(message, '?', 0).is_some() || find_char_text(message, '？', 0).is_some()
}

/// What becomes of the user's message.
#[derive(Debug, Clone, Copy, PartialEq, Eq, Structural)]
pub enum ChatPlacement {
    /// It is stored.
    Store,
    /// It is there already, under this id, or it is hidden. Where `align` is
    /// set, the history in memory is made to end with it.
    Keep { user_message_id: Option<i64>, align: bool },
}

/// `trailing` is the user's message that ends the conversation as it is stored,
/// which matters only where a reply is made anew.
pub open spec fn placement(hidden: bool, regenerate: bool, trailing: Option<i64>) -> ChatPlacement {
    let found = if regenerate {
        trailing
    } else {
        None
    };
    if history::inserts_user_message(hidden, regenerate, found is Some) {
        ChatPlacement::Store
    } else {
        ChatPlacement::Keep { user_message_id: found, align: !hidden }
    }
}

pub fn place_chat_message(hidden: bool, regenerate: bool, trailing: Option<i64>) -> (r:
    ChatPlacement)
    ensures
        r == placement(hidden, regenerate, trailing),
{
    let found = if regenerate {
        trailing
    } else {
        None
    };
    if should_insert_user_message_for_request(hidden, regenerate, found.is_some()) {
        ChatPlacement::Store
    } else {
        ChatPlacement::Keep { user_message_id: found, align: !hidden }
    }
}

/// A message is stored by every visible request that does not make a reply
/// anew, and by no hidden one.
pub proof fn lemma_placement(regenerate: bool, trailing: Option<i64>)
    ensures
        placement(false, false, trailing) is Store,
        placement(true, regenerate, trailing) is Keep,
        placement(false, true, trailing) is Store <==> trailing is None,
{
}

/// The conversation of a turn whose message is not stored: the current one, or
/// a new one.
pub fn kept_conversation_id(current: Option<String>) -> (id: String)
    ensures
        match current {
            Some(c) => id == c,
            None => id@.len() == 36,
        },
{
    match current {
        Some(c) => c,
        None => new_request_id(),
    }
}

/// The id of a new turn, which is made at random.
pub fn new_turn_id() -> (id: String)
    ensures
        id@.len() == 36,
{
    new_request_id()
}

/// What the configuration says of a provider.
#[derive(Debug)]
pub struct ProviderFlags {
    pub id: String,
    pub supports_native_tools: bool,
}

pub open spec fn native_tools(
    providers: Seq<ProviderFlags>,
    id: Seq<char>,
    otherwise: bool,
) -> bool
    decreases providers.len(),
{
    if providers.len() == 0 {
        otherwise
    } else if providers[0].id@ == id {
        providers[0].supports_native_tools
    } else {
        native_tools(providers.drop_first(), id, otherwise)
    }
}

/// Whether the provider in use takes tools as part of a request: what the
/// configuration says of it, else what the provider says itself.
pub fn native_tools_enabled(providers: &Vec<ProviderFlags>, id: &str, otherwise: bool) -> (b: bool)
    ensures
        b == native_tools(providers@, id@, otherwise),
{
    let mut i: usize = 0;
    assert(providers@.skip(0) =~= providers@);
    while i < providers.len()
        invariant
            i <= providers.len(),
            native_tools(providers@, id@, otherwise) == native_tools(
                providers@.skip(i as int),
                id@,
                otherwise,
            ),
        decreases providers.len() - i,
    {
        assert(providers@.skip(i as int)[0] == providers@[i as int]);
        if same_text(providers[i].id.as_str(), id) {
            return providers[i].supports_native_tools;
        }
        assert(providers@.skip(i as int).drop_first() =~= providers@.skip(i + 1));
        i += 1;
    }
    otherwise
}

/// The description of the tools that goes into the prompt. There is none where
/// the tools are part of the request, or where there are no tools.
pub fn tool_prompt(native: bool, described: String) -> (r: Option<String>)
    ensures
        r == (if !native && described@.len() > 0 {
            Some(described)
        } else {
            None
        }),
{
    if native || described.as_str().is_empty() {
        None
    } else {
        Some(described)
    }
}

/// The URL of an image for the model. A file that was read goes along as data,
/// and is taken for a PNG where its type is not known; any other URL stays as
/// it is.
pub fn image_url_for_model(url: &str, file: Option<&[u8]>, mime: Option<&str>) -> (r: String)
    ensures
        r@ == (match file {
            Some(data) => media::data_url(
                match text::opt_str(mime) {
                    Some(m) => m,
                    None => "image/png"@,
                },
                encoding::base64_encoded(data@),
            ),
            None => url@,
        }),
{
    match file {
        Some(data) => {
            let mime = match mime {
                Some(m) => m,
                None => "image/png",
            };
            let payload = base64_encode(data);
            concat2(concat3("data:", mime, ";base64,").as_str(), payload.as_str())
        },
        None => url.to_owned(),
    }
}

/// The views of JSON values.
pub open spec fn json_views(values: Seq<JsonValue>) -> Seq<JsonView> {
    values.map_values(|v: JsonValue| v@)
}

fn copy_values(values: &Vec<JsonValue>) -> (r: Vec<JsonValue>)
    ensures
        json_views(r@) == json_views(values@),
{
    let mut r: Vec<JsonValue> = Vec::new();
    let mut i: usize = 0;
    while i < values.len()
        invariant
            i <= values.len(),
            r@.len() == i,
            forall|k: int| 0 <= k < i ==> (#[trigger] r@[k])@ == values@[k]@,
        decreases values.len() - i,
    {
        r.push(values[i].copy());
        i += 1;
    }
    assert(json_views(r@) =~= json_views(values@));
    r
}

fn json_array(values: &Vec<JsonValue>) -> (value: JsonValue)
    ensures
        value@ == JsonView::Array(json_views(values@)),
{
    let copied = copy_values(values);
    let ghost items = copied@;
    let value = JsonValue::Array(copied);
    assert(value@->Array_0 =~= json_views(items));
    value
}

/// The stream of one round: what came, and how much of it was shown.
pub struct RoundStream {
    response: String,
    shown: usize,
    reasoning: String,
    provider_data: Vec<JsonValue>,
}

pub ghost struct RoundView {
    /// The text that came.
    pub response: Seq<char>,
    /// How many of its characters were shown.
    pub shown: int,
    /// The model's thoughts.
    pub reasoning: Seq<char>,
    /// What belongs to the provider alone.
    pub provider_data: Seq<JsonView>,
}

impl RoundView {
    pub open spec fn well_formed(self) -> bool {
        0 <= self.shown <= self.response.len()
    }

    /// The text that came and was not shown yet.
    pub open spec fn pending(self) -> Seq<char> {
        self.response.skip(self.shown)
    }
}

impl View for RoundStream {
    type V = RoundView;

    closed spec fn view(&self) -> RoundView {
        RoundView {
            response: self.response@,
            shown: self.shown as int,
            reasoning: self.reasoning@,
            provider_data: json_views(self.provider_data@),
        }
    }
}

impl RoundStream {
    #[verifier::type_invariant]
    closed spec fn inv(self) -> bool {
        self@.well_formed()
    }

    /// Nothing has come.
    pub fn new() -> (r: Self)
        ensures
            r@ == (RoundView {
                response: Seq::empty(),
                shown: 0,
                reasoning: Seq::empty(),
                provider_data: Seq::empty(),
            }),
    {
        let r = RoundStream {
            response: String::new(),
            shown: 0,
            reasoning: String::new(),
            provider_data: Vec::new(),
        };
        assert(json_views(r.provider_data@) =~= Seq::empty());
        r
    }

    /// A piece of text came.
    pub fn text(self, content: &str) -> (r: Self)
        ensures
            r@ == (RoundView { response: self@.response + content@, ..self@ }),
    {
        proof {
            use_type_invariant(&self);
        }
        RoundStream {
            response: concat2(self.response.as_str(), content),
            shown: self.shown,
            reasoning: self.reasoning,
            provider_data: self.provider_data,
        }
    }

    /// The text that was not shown yet.
    pub fn pending(&self) -> (r: String)
        ensures
            r@ == self@.pending(),
    {
        proof {
            use_type_invariant(self);
        }
        tail_text(self.response.as_str(), self.shown)
    }

    /// Shows the first `safe` characters of the text that was not shown yet:
    /// up to there, no tag can begin. There is nothing to show where `safe`
    /// is 0.
    pub fn show(self, safe: usize) -> (r: (Self, Option<String>))
        requires
            safe <= self@.pending().len(),
        ensures
            r.0@ == (RoundView { shown: self@.shown + safe, ..self@ }),
            text::opt_view(r.1) == (if safe > 0 {
                Some(self@.response.subrange(self@.shown, self@.shown + safe))
            } else {
                None
            }),
    {
        proof {
            use_type_invariant(&self);
        }
        if safe == 0 {
            return (self, None);
        }
        let total = text::char_count(self.response.as_str());
        assert(self.shown + safe <= total);
        let end: usize = self.shown + safe;
        let piece = slice_text(self.response.as_str(), self.shown, end);
        let stream = RoundStream {
            response: self.response,
            shown: end,
            reasoning: self.reasoning,
            provider_data: self.provider_data,
        };
        (stream, Some(piece))
    }

    /// A piece of the model's thoughts came.
    pub fn thought(self, content: &str) -> (r: Self)
        ensures
            r@ == (RoundView { reasoning: self@.reasoning + content@, ..self@ }),
    {
        proof {
            use_type_invariant(&self);
        }
        RoundStream {
            response: self.response,
            shown: self.shown,
            reasoning: concat2(self.reasoning.as_str(), content),
            provider_data: self.provider_data,
        }
    }

    /// Something that belongs to the provider alone came.
    pub fn data(self, value: JsonValue) -> (r: Self)
        ensures
            r@ == (RoundView { provider_data: self@.provider_data.push(value@), ..self@ }),
    {
        proof {
            use_type_invariant(&self);
        }
        let mut provider_data = self.provider_data;
        let ghost before = provider_data@;
        provider_data.push(value);
        assert(json_views(provider_data@) =~= json_views(before).push(value@));
        RoundStream {
            response: self.response,
            shown: self.shown,
            reasoning: self.reasoning,
            provider_data,
        }
    }

    /// Whether an error that ends the stream is reported: only where no text
    /// came before it.
    pub fn error_counts(&self) -> (b: bool)
        ensures
            b == (self@.response.len() == 0),
    {
        self.response.as_str().is_empty()
    }

    /// What is still shown once the stream has ended: the text that was not
    /// shown yet, without the tags in it.
    pub fn remainder(&self) -> (r: Option<String>)
        ensures
            text::opt_view(r) == (if chat_parts(self@.pending()).0.len() > 0 {
                Some(chat_parts(self@.pending()).0)
            } else {
                None
            }),
    {
        let pending = self.pending();
        let (rest, _) = parse_tool_call_tags(pending.as_str());
        let (rest, _) = extract_translate_tags(rest.as_str());
        if rest.as_str().is_empty() {
            None
        } else {
            Some(rest)
        }
    }

    /// All that came: the text, the model's thoughts, and what belongs to the
    /// provider alone.
    pub fn done(self) -> (r: (String, String, Vec<JsonValue>))
        ensures
            r.0@ == self@.response,
            r.1@ == self@.reasoning,
            json_views(r.2@) == self@.provider_data,
    {
        (self.response, self.reasoning, self.provider_data)
    }
}

/// What was shown and what was not, put together, is the text that came: no
/// character is lost or shown twice. Showing `safe` more characters adds just
/// those to what was shown.
pub proof fn lemma_shown_once(round: RoundView, safe: int)
    requires
        round.well_formed(),
        0 <= safe <= round.pending().len(),
    ensures
        round.response.take(round.shown) + round.pending() == round.response,
        round.response.take(round.shown) + round.response.subrange(
            round.shown,
            round.shown + safe,
        ) == round.response.take(round.shown + safe),
        (RoundView { shown: round.shown + safe, ..round }).pending() == round.pending().skip(safe),
{
    assert(round.response.take(round.shown) + round.pending() =~= round.response);
    assert(round.response.take(round.shown) + round.response.subrange(
        round.shown,
        round.shown + safe,
    ) =~= round.response.take(round.shown + safe));
    assert((RoundView { shown: round.shown + safe, ..round }).pending() =~= round.pending().skip(
        safe,
    ));
}

/// A turn of the chat.
pub struct ChatTurn {
    turn_id: String,
    conversation_id: String,
    client_request_id: Option<String>,
    hidden: bool,
    rounds_left: usize,
    all_text: String,
    translations: Vec<String>,
    reasoning: String,
    provider_data: Vec<JsonValue>,
    draft: Option<i64>,
    rows: Vec<i64>,
    stream_failed: bool,
    background_set: bool,
    cue_set: bool,
}

pub ghost struct ChatTurnView {
    pub turn_id: Seq<char>,
    pub conversation_id: Seq<char>,
    pub client_request_id: Option<Seq<char>>,
    pub hidden: bool,
    /// How many times the model may still be asked.
    pub rounds_left: int,
    /// The text of all rounds.
    pub all_text: Seq<char>,
    pub translations: Seq<Seq<char>>,
    pub reasoning: Seq<char>,
    pub provider_data: Seq<JsonView>,
    /// The stored reply.
    pub draft: Option<i64>,
    /// The stored messages with the calls of the rounds and their results.
    pub rows: Seq<i64>,
    /// The model failed before any text came.
    pub stream_failed: bool,
    /// A tool set the background.
    pub background_set: bool,
    /// A tool played a cue.
    pub cue_set: bool,
}

impl View for ChatTurn {
    type V = ChatTurnView;

    closed spec fn view(&self) -> ChatTurnView {
        ChatTurnView {
            turn_id: self.turn_id@,
            conversation_id: self.conversation_id@,
            client_request_id: text::opt_view(self.client_request_id),
            hidden: self.hidden,
            rounds_left: self.rounds_left as int,
            all_text: self.all_text@,
            translations: text::views(self.translations@),
            reasoning: self.reasoning@,
            provider_data: json_views(self.provider_data@),
            draft: self.draft,
            rows: self.rows@,
            stream_failed: self.stream_failed,
            background_set: self.background_set,
            cue_set: self.cue_set,
        }
    }
}

/// The reply as it is stored: without tags that leaked into it.
pub open spec fn reply_of(all_text: Seq<char>) -> Seq<char> {
    text::trim(reply_text::leaked_scan(all_text))
}

/// What a response holds: its text, its translation and its tool calls.
pub open spec fn chat_parts(response: Seq<char>) -> (
    Seq<char>,
    Option<Seq<char>>,
    Seq<tags::CallView>,
) {
    let (s, calls) = tags::tool_calls_of(response);
    let (cleaned, translation) = reply_text::translated(s);
    (cleaned, translation, calls)
}

/// The turn after one more response.
pub open spec fn with_response(
    turn: ChatTurnView,
    response: Seq<char>,
    reasoning: Seq<char>,
) -> ChatTurnView {
    let (cleaned, translation, _) = chat_parts(response);
    ChatTurnView {
        all_text: reply_text::merged(turn.all_text, cleaned),
        translations: match translation {
            Some(t) => turn.translations.push(t),
            None => turn.translations,
        },
        reasoning: turn.reasoning + reasoning,
        ..turn
    }
}

/// What is stored of a reply while it still grows.
#[derive(Debug)]
pub enum DraftAction {
    Nothing,
    Insert(String),
    Update(i64, String),
}

/// A hidden turn has no draft, nor has one that was cancelled, or whose reply is
/// empty so far.
pub open spec fn drafts(turn: ChatTurnView, cancelled: bool) -> bool {
    !turn.hidden && !cancelled && turn.all_text.len() > 0 && reply_of(turn.all_text).len() > 0
}

/// How a turn goes on after its tools ran.
#[derive(Debug)]
pub enum AfterTools {
    /// The model is asked again, with messages for the calls and their results.
    Native,
    /// The model is asked again, with this text.
    Told(String),
    /// The reply is complete.
    Done,
}

/// What the model is told of the tools' results.
pub open spec fn told(lines: Seq<Seq<char>>) -> Seq<char> {
    "[Tool results]\n"@ + text::join(lines, "\n"@)
}

/// Where a finished reply goes.
#[derive(Debug, Clone, Copy, PartialEq, Eq, Structural)]
pub enum FinalWrite {
    /// The reply is empty.
    Nothing,
    /// A hidden turn stores its reply only now.
    Insert,
    /// The draft is completed, where there is one.
    Complete(Option<i64>),
}

/// The messages that a turn has stored so far.
pub open spec fn stored_messages(turn: ChatTurnView) -> Seq<i64> {
    match turn.draft {
        Some(id) => turn.rows.push(id),
        None => turn.rows,
    }
}

/// How a turn ends that has nothing to say: the stored messages to delete, the two
/// events to report in this order, and the response.
pub struct SilentEnd {
    pub delete: Vec<i64>,
    pub complete: JsonValue,
    pub finish: JsonValue,
    pub response: StreamChatResponse,
}

/// The reply is to be translated after all: the model gave no translation, and
/// the user's language is another than the reply's.
pub open spec fn wants_translation(
    turn: ChatTurnView,
    user_language: Seq<char>,
    response_language: Seq<char>,
) -> bool {
    &&& turn.translations.len() == 0
    &&& reply_of(turn.all_text).len() > 0
    &&& user_language.len() > 0
    &&& response_language.len() > 0
    &&& user_language != response_language
}

/// The translations of all rounds, as one.
pub open spec fn translation_of(turn: ChatTurnView) -> Option<Seq<char>> {
    if turn.translations.len() == 0 {
        None
    } else {
        Some(text::join(turn.translations, " "@))
    }
}

/// A message id, or `null`.
pub open spec fn id_value(id: Option<i64>) -> JsonView {
    match id {
        Some(n) => json::int_value(n),
        None => JsonView::Null,
    }
}

fn json_id(id: Option<i64>) -> (value: JsonValue)
    ensures
        value@ == id_value(id),
{
    match id {
        Some(n) => json_int(n),
        None => JsonValue::Null,
    }
}

/// The event that a turn begins with.
pub open spec fn start_event(turn: ChatTurnView, user_message_id: Option<i64>) -> JsonView {
    JsonView::Object(
        seq![
            ("turn_id"@, JsonView::Text(turn.turn_id)),
            ("client_request_id"@, json::text_or_null(turn.client_request_id)),
            ("conversation_id"@, JsonView::Text(turn.conversation_id)),
            ("user_message_id"@, id_value(user_message_id)),
        ],
    )
}

/// The event that the text of a reply is complete.
pub open spec fn complete_event(
    turn_id: Seq<char>,
    reply: Seq<char>,
    pending: bool,
    translation: Option<Seq<char>>,
) -> JsonView {
    JsonView::Object(
        seq![
            ("turn_id"@, JsonView::Text(turn_id)),
            ("text"@, JsonView::Text(reply)),
            ("translation_pending"@, JsonView::Bool(pending)),
            ("translation"@, json::text_or_null(translation)),
        ],
    )
}

/// The event that a turn ends with.
pub open spec fn finish_event(
    turn: ChatTurnView,
    status: Seq<char>,
    assistant_message_id: Option<i64>,
) -> JsonView {
    JsonView::Object(
        seq![
            ("turn_id"@, JsonView::Text(turn.turn_id)),
            ("status"@, JsonView::Text(status)),
            ("client_request_id"@, json::text_or_null(turn.client_request_id)),
            ("conversation_id"@, JsonView::Text(turn.conversation_id)),
            ("assistant_message_id"@, id_value(assistant_message_id)),
        ],
    )
}

/// A turn failed where the model did and no text came; else it is complete.
pub open spec fn finish_status(turn: ChatTurnView) -> Seq<char> {
    if turn.stream_failed && reply_of(turn.all_text).len() == 0 {
        "error"@
    } else {
        "completed"@
    }
}

/// A hidden turn whose reply says nothing.
pub open spec fn is_noop(turn: ChatTurnView) -> bool {
    turn.hidden && chat::says_nothing(reply_of(turn.all_text))
}

/// The fields for the model's thoughts and for what belongs to the provider
/// alone, where there are any.
pub open spec fn with_thoughts(
    fields: Seq<(Seq<char>, JsonView)>,
    reasoning: Seq<char>,
    provider_data: Seq<JsonView>,
) -> Seq<(Seq<char>, JsonView)> {
    let fields = if text::blank(reasoning) {
        fields
    } else {
        fields.push(("reasoning_content"@, JsonView::Text(reasoning)))
    };
    if provider_data.len() == 0 {
        fields
    } else {
        fields.push(("provider_data"@, JsonView::Array(provider_data)))
    }
}

fn add_thoughts(fields: JsonObject, reasoning: &str, provider_data: &Vec<JsonValue>) -> (r:
    JsonObject)
    ensures
        r@ == with_thoughts(fields@, reasoning@, json_views(provider_data@)),
{
    let fields = if is_blank(reasoning) {
        fields
    } else {
        fields.with("reasoning_content", json_text(reasoning))
    };
    assert(json_views(provider_data@).len() == provider_data@.len());
    if provider_data.len() == 0 {
        fields
    } else {
        fields.with("provider_data", json_array(provider_data))
    }
}

/// The metadata of a finished reply.
pub open spec fn reply_metadata(turn: ChatTurnView) -> JsonView {
    let fields = seq![("turn_id"@, JsonView::Text(turn.turn_id))];
    let fields = match translation_of(turn) {
        Some(t) => fields.push(("translation"@, JsonView::Text(t))),
        None => fields,
    };
    JsonView::Object(with_thoughts(fields, turn.reasoning, turn.provider_data))
}

/// The metadata of a message that makes tool calls.
pub open spec fn calls_metadata(
    turn_id: Seq<char>,
    calls: Seq<JsonView>,
    reasoning: Seq<char>,
    provider_data: Seq<JsonView>,
) -> JsonView {
    JsonView::Object(
        with_thoughts(
            seq![
                ("type"@, JsonView::Text("assistant_tool_calls"@)),
                ("turn_id"@, JsonView::Text(turn_id)),
                ("tool_calls"@, JsonView::Array(calls)),
            ],
            reasoning,
            provider_data,
        ),
    )
}

impl ChatTurn {
    /// A turn that has not asked the model yet. It will, at least once.
    pub fn new(
        turn_id: String,
        conversation_id: String,
        client_request_id: Option<String>,
        hidden: bool,
        max_tool_rounds: usize,
    ) -> (r: Self)
        ensures
            r@ == (ChatTurnView {
                turn_id: turn_id@,
                conversation_id: conversation_id@,
                client_request_id: text::opt_view(client_request_id),
                hidden,
                rounds_left: if max_tool_rounds < 1 {
                    1
                } else {
                    max_tool_rounds as int
                },
                all_text: Seq::empty(),
                translations: Seq::empty(),
                reasoning: Seq::empty(),
                provider_data: Seq::empty(),
                draft: None,
                rows: Seq::empty(),
                stream_failed: false,
                background_set: false,
                cue_set: false,
            }),
    {
        let r = ChatTurn {
            turn_id,
            conversation_id,
            client_request_id,
            hidden,
            rounds_left: if max_tool_rounds < 1 {
                1
            } else {
                max_tool_rounds
            },
            all_text: String::new(),
            translations: Vec::new(),
            reasoning: String::new(),
            provider_data: Vec::new(),
            draft: None,
            rows: Vec::new(),
            stream_failed: false,
            background_set: false,
            cue_set: false,
        };
        assert(text::views(r.translations@) =~= Seq::empty());
        assert(json_views(r.provider_data@) =~= Seq::empty());
        r
    }

    /// The event that the turn begins with.
    pub fn start_payload(&self, user_message_id: Option<i64>) -> (value: JsonValue)
        ensures
            value@ == start_event(self@, user_message_id),
    {
        let value = JsonObject::new().with("turn_id", json_text(self.turn_id.as_str())).with(
            "client_request_id",
            json_opt_text(&self.client_request_id),
        ).with("conversation_id", json_text(self.conversation_id.as_str())).with(
            "user_message_id",
            json_id(user_message_id),
        ).done();
        assert(value@->Object_0 =~= start_event(self@, user_message_id)->Object_0);
        value
    }

    /// Whether the model is asked once more. A turn that was cancelled is
    /// not, and ends with an error.
    pub fn begin_round(&mut self, turns: &TurnCancellationState) -> (r: Result<bool, String>)
        ensures
            match r {
                Ok(more) => {
                    &&& more == (old(self)@.rounds_left > 0)
                    &&& more ==> !cancellation::cancelled(turns@, old(self)@.turn_id)
                    &&& final(self)@ == (if more {
                        ChatTurnView { rounds_left: old(self)@.rounds_left - 1, ..old(self)@ }
                    } else {
                        old(self)@
                    })
                },
                Err(words) => {
                    &&& old(self)@.rounds_left > 0
                    &&& cancellation::cancelled(turns@, old(self)@.turn_id)
                    &&& words@ == cancellation::cancelled_words()
                    &&& final(self)@ == old(self)@
                },
            },
    {
        if self.rounds_left == 0 {
            return Ok(false);
        }
        if let Err(words) = turns.ensure_turn_not_cancelled(self.turn_id.as_str()) {
            return Err(words);
        }
        self.rounds_left -= 1;
        Ok(true)
    }

    /// The stream of the round ended with an error that counts.
    pub fn stream_error(&mut self)
        ensures
            final(self)@ == (ChatTurnView { stream_failed: true, ..old(self)@ }),
    {
        self.stream_failed = true;
    }

    /// Takes in the response of a round; returns its text and the tool calls
    /// in it.
    pub fn round_response(&mut self, response: &str, reasoning: &str) -> (r: (String, Vec<ToolCall>))
        ensures
            final(self)@ == with_response(old(self)@, response@, reasoning@),
            r.0@ == chat_parts(response@).0,
            tags::call_views(r.1@) == chat_parts(response@).2,
    {
        let (cleaned, calls) = parse_tool_call_tags(response);
        let (cleaned, translation) = extract_translate_tags(cleaned.as_str());
        if let Some(translation) = translation {
            let ghost before = self.translations@;
            self.translations.push(translation);
            assert(text::views(self.translations@) =~= text::views(before).push(translation@));
        }
        merge_continuation_text(&mut self.all_text, cleaned.as_str());
        self.reasoning.append(reasoning);
        (cleaned, calls)
    }

    /// What is stored of the reply as it stands.
    pub fn draft_action(&self, cancelled: bool) -> (r: DraftAction)
        ensures
            if drafts(self@, cancelled) {
                match self@.draft {
                    None => r matches DraftAction::Insert(content) && content@ == reply_of(
                        self@.all_text,
                    ),
                    Some(id) => r matches DraftAction::Update(row, content) && row == id
                        && content@ == reply_of(self@.all_text),
                }
            } else {
                r is Nothing
            },
    {
        if self.hidden || cancelled || self.all_text.as_str().is_empty() {
            return DraftAction::Nothing;
        }
        let content = strip_leaked_tags(self.all_text.as_str());
        if content.as_str().is_empty() {
            return DraftAction::Nothing;
        }
        match self.draft {
            None => DraftAction::Insert(content),
            Some(id) => DraftAction::Update(id, content),
        }
    }

    /// The reply is stored under this id, or is not stored.
    pub fn stored_as(&mut self, id: Option<i64>)
        ensures
            final(self)@ == (ChatTurnView { draft: id, ..old(self)@ }),
    {
        self.draft = id;
    }

    /// A message with a round's calls, or with a result of one, is stored under
    /// this id.
    pub fn row_stored(&mut self, id: i64)
        ensures
            final(self)@ == (ChatTurnView { rows: old(self)@.rows.push(id), ..old(self)@ }),
    {
        self.rows.push(id);
    }

    /// The response made no tool calls: the reply is complete.
    pub fn no_tools(&mut self, provider_data: Vec<JsonValue>)
        ensures
            final(self)@ == (ChatTurnView {
                rounds_left: 0,
                provider_data: json_views(provider_data@),
                ..old(self)@
            }),
    {
        self.rounds_left = 0;
        self.provider_data = provider_data;
    }

    /// A tool ran.
    pub fn tool_ran(&mut self, outcome: &ToolExecutionOutcome)
        ensures
            final(self)@ == (ChatTurnView {
                background_set: old(self)@.background_set || outcome.tool_id@
                    == tool_trace::builtin_id("set_background"@),
                cue_set: old(self)@.cue_set || outcome.tool_id@ == tool_trace::builtin_id(
                    "play_cue"@,
                ),
                ..old(self)@
            }),
    {
        if is_builtin_tool(outcome, "set_background") {
            self.background_set = true;
        }
        if is_builtin_tool(outcome, "play_cue") {
            self.cue_set = true;
        }
    }

    /// How the turn goes on after its tools ran. `native` says whether the
    /// model made the calls in its own form; `needs_feedback` whether one of
    /// them asks for the model to be told.
    pub fn after_tools(&mut self, native: bool, needs_feedback: bool, lines: &Vec<String>) -> (r:
        AfterTools)
        ensures
            if native {
                r is Native && final(self)@ == old(self)@
            } else if needs_feedback {
                r matches AfterTools::Told(words) && words@ == told(text::views(lines@)) && final(self)@
                    == old(self)@
            } else {
                r is Done && final(self)@ == (ChatTurnView { rounds_left: 0, ..old(self)@ })
            },
    {
        if native {
            AfterTools::Native
        } else if needs_feedback {
            AfterTools::Told(concat2("[Tool results]\n", join_text(lines, "\n").as_str()))
        } else {
            self.rounds_left = 0;
            AfterTools::Done
        }
    }

    /// The metadata of the message that made the tool calls of a round.
    pub fn tool_calls_metadata(
        &self,
        calls: &Vec<JsonValue>,
        reasoning: &str,
        provider_data: &Vec<JsonValue>,
    ) -> (value: JsonValue)
        ensures
            value@ == calls_metadata(
                self@.turn_id,
                json_views(calls@),
                reasoning@,
                json_views(provider_data@),
            ),
    {
        let fields = JsonObject::new().with("type", json_text("assistant_tool_calls")).with(
            "turn_id",
            json_text(self.turn_id.as_str()),
        ).with("tool_calls", json_array(calls));
        assert(fields@ =~= seq![
            ("type"@, JsonView::Text("assistant_tool_calls"@)),
            ("turn_id"@, JsonView::Text(self@.turn_id)),
            ("tool_calls"@, JsonView::Array(json_views(calls@))),
        ]);
        add_thoughts(fields, reasoning, provider_data).done()
    }

    /// The reply as it stands.
    pub fn full_response(&self) -> (r: String)
        ensures
            r@ == reply_of(self@.all_text),
    {
        strip_leaked_tags(self.all_text.as_str())
    }

    /// Whether a hidden turn has nothing to say.
    pub fn says_nothing(&self) -> (b: bool)
        ensures
            b == is_noop(self@),
    {
        self.hidden && is_proactive_noop_response(self.full_response().as_str())
    }

    /// Ends a turn that has nothing to say: everything that it stored is to be
    /// deleted, two events are to be reported, and there is no reply.
    pub fn finish_silently(self, user_message_id: Option<i64>) -> (r: SilentEnd)
        ensures
            r.delete@ == stored_messages(self@),
            r.complete@ == complete_event(self@.turn_id, Seq::empty(), false, None),
            r.finish@ == finish_event(self@, "completed"@, None),
            r.response.conversation_id@ == self@.conversation_id,
            r.response.user_message_id == user_message_id,
            r.response.assistant_message_id is None,
    {
        proof {
            reveal_strlit("");
            assert(""@ =~= Seq::<char>::empty());
        }
        let complete = complete_value(self.turn_id.as_str(), "", false, &None);
        let finish = self.finish_value("completed", None);
        let mut delete = self.rows;
        if let Some(id) = self.draft {
            delete.push(id);
        }
        let response = StreamChatResponse {
            conversation_id: self.conversation_id,
            user_message_id,
            assistant_message_id: None,
        };
        SilentEnd { delete, complete, finish, response }
    }

    fn finish_value(&self, status: &str, id: Option<i64>) -> (value: JsonValue)
        ensures
            value@ == finish_event(self@, status@, id),
    {
        let value = JsonObject::new().with("turn_id", json_text(self.turn_id.as_str())).with(
            "status",
            json_text(status),
        ).with("client_request_id", json_opt_text(&self.client_request_id)).with(
            "conversation_id",
            json_text(self.conversation_id.as_str()),
        ).with("assistant_message_id", json_id(id)).done();
        assert(value@->Object_0 =~= finish_event(self@, status@, id)->Object_0);
        value
    }

    /// Whether the reply is to be translated after all.
    pub fn translation_pending(&self, user_language: &str, response_language: &str) -> (b: bool)
        ensures
            b == wants_translation(self@, user_language@, response_language@),
    {
        assert(text::views(self.translations@).len() == self.translations@.len());
        self.translations.len() == 0 && !self.full_response().as_str().is_empty()
            && !user_language.is_empty() && !response_language.is_empty() && !same_text(
            user_language,
            response_language,
        )
    }

    /// The translations of all rounds, as one.
    pub fn translation(&self) -> (r: Option<String>)
        ensures
            text::opt_view(r) == translation_of(self@),
    {
        assert(text::views(self.translations@).len() == self.translations@.len());
        if self.translations.len() == 0 {
            None
        } else {
            Some(join_text(&self.translations, " "))
        }
    }

    /// The event that the text of the reply is complete.
    pub fn complete_payload(&self, user_language: &str, response_language: &str) -> (value:
        JsonValue)
        ensures
            value@ == complete_event(
                self@.turn_id,
                reply_of(self@.all_text),
                wants_translation(self@, user_language@, response_language@),
                translation_of(self@),
            ),
    {
        complete_value(
            self.turn_id.as_str(),
            self.full_response().as_str(),
            self.translation_pending(user_language, response_language),
            &self.translation(),
        )
    }

    /// Takes in a translation that was made afterwards. A blank one does not
    /// count.
    pub fn translated_later(&mut self, reply: &str)
        ensures
            final(self)@ == (if text::blank(reply@) {
                old(self)@
            } else {
                ChatTurnView {
                    translations: old(self)@.translations.push(text::trim(reply@)),
                    ..old(self)@
                }
            }),
    {
        let t = trim_text(reply);
        if !t.as_str().is_empty() {
            let ghost before = self.translations@;
            self.translations.push(t);
            assert(text::views(self.translations@) =~= text::views(before).push(t@));
        }
    }

    /// The event that a translation is there, where one is.
    pub fn translation_payload(&self) -> (r: Option<JsonValue>)
        ensures
            json::opt_json(r) == (match translation_of(self@) {
                Some(t) => Some(
                    JsonView::Object(
                        seq![
                            ("turn_id"@, JsonView::Text(self@.turn_id)),
                            ("translation"@, JsonView::Text(t)),
                        ],
                    ),
                ),
                None => None,
            }),
    {
        match self.translation() {
            Some(t) => {
                let value = JsonObject::new().with("turn_id", json_text(self.turn_id.as_str())).with(
                    "translation",
                    json_text(t.as_str()),
                ).done();
                assert(value@->Object_0 =~= seq![
                    ("turn_id"@, JsonView::Text(self@.turn_id)),
                    ("translation"@, JsonView::Text(t@)),
                ]);
                Some(value)
            },
            None => None,
        }
    }

    /// Whether a cue is to be found for the reply, since no tool played one.
    pub fn wants_cue(&self) -> (b: bool)
        ensures
            b == (!self@.cue_set && reply_of(self@.all_text).len() > 0),
    {
        !self.cue_set && !self.full_response().as_str().is_empty()
    }

    /// Whether a background is to be made for the reply, since no tool set one.
    pub fn wants_background(&self, allowed: Option<bool>) -> (b: bool)
        ensures
            b == (allowed == Some(true) && reply_of(self@.all_text).len() > 0
                && !self@.background_set),
    {
        let allowed = match allowed {
            Some(a) => a,
            None => false,
        };
        allowed && !self.full_response().as_str().is_empty() && !self.background_set
    }

    /// Where the finished reply goes.
    pub fn final_write(&self) -> (r: FinalWrite)
        ensures
            r == (if reply_of(self@.all_text).len() == 0 {
                FinalWrite::Nothing
            } else if self@.hidden {
                FinalWrite::Insert
            } else {
                FinalWrite::Complete(self@.draft)
            }),
    {
        if self.full_response().as_str().is_empty() {
            FinalWrite::Nothing
        } else if self.hidden {
            FinalWrite::Insert
        } else {
            FinalWrite::Complete(self.draft)
        }
    }

    /// The metadata of the finished reply.
    pub fn final_metadata(&self) -> (value: JsonValue)
        ensures
            value@ == reply_metadata(self@),
    {
        let fields = JsonObject::new().with("turn_id", json_text(self.turn_id.as_str()));
        assert(fields@ =~= seq![("turn_id"@, JsonView::Text(self@.turn_id))]);
        let fields = match self.translation() {
            Some(t) => fields.with("translation", json_text(t.as_str())),
            None => fields,
        };
        add_thoughts(fields, self.reasoning.as_str(), &self.provider_data).done()
    }

    /// Whether the finished reply also goes into the history in memory: only
    /// that of a visible turn does, while its conversation is still the
    /// current one.
    pub fn enters_history(&self, current_conversation_id: Option<&str>) -> (b: bool)
        ensures
            b == (!self@.hidden && reply_of(self@.all_text).len() > 0 && text::opt_str(
                current_conversation_id,
            ) == Some(self@.conversation_id)),
    {
        let current = match current_conversation_id {
            Some(id) => same_text(id, self.conversation_id.as_str()),
            None => false,
        };
        !self.hidden && !self.full_response().as_str().is_empty() && current
    }

    /// The memory tasks that follow the turn. A hidden one is followed by none.
    pub fn memory_tasks(&self, memory_enabled: bool, event_due: bool, count: u64) -> (r: MemoryTasks)
        ensures
            r == memory::tasks_due(!self@.hidden && memory_enabled, event_due, count as int),
    {
        memory_tasks(!self.hidden && memory_enabled, event_due, count)
    }

    /// Ends the turn: the event to report, and the response.
    pub fn finish(self, user_message_id: Option<i64>) -> (r: (JsonValue, StreamChatResponse))
        ensures
            r.0@ == finish_event(self@, finish_status(self@), self@.draft),
            r.1.conversation_id@ == self@.conversation_id,
            r.1.user_message_id == user_message_id,
            r.1.assistant_message_id == self@.draft,
    {
        let empty = self.full_response().as_str().is_empty();
        let status = if self.stream_failed && empty {
            "error"
        } else {
            "completed"
        };
        let event = self.finish_value(status, self.draft);
        let response = StreamChatResponse {
            conversation_id: self.conversation_id,
            user_message_id,
            assistant_message_id: self.draft,
        };
        (event, response)
    }

    /// Ends the turn after an error. One that the user's cancelling brought is
    /// no error: the draft is to be deleted, the event says that the turn was
    /// cancelled, and there is no reply. Any other error stays one.
    pub fn fail(self, error: KokoroError, user_message_id: Option<i64>) -> (r: Result<
        (Option<i64>, JsonValue, StreamChatResponse),
        KokoroError,
    >)
        ensures
            if error matches KokoroError::Chat(words) && words@ == cancellation::cancelled_words() {
                r matches Ok(end) && {
                    &&& end.0 == self@.draft
                    &&& end.1@ == finish_event(self@, "cancelled"@, None)
                    &&& end.2.conversation_id@ == self@.conversation_id
                    &&& end.2.user_message_id == user_message_id
                    &&& end.2.assistant_message_id is None
                }
            } else {
                r matches Err(e) && e == error
            },
    {
        let cancelled = match &error {
            KokoroError::Chat(words) => is_turn_cancelled_error_message(words.as_str()),
            _ => false,
        };
        if !cancelled {
            return Err(error);
        }
        let event = self.finish_value("cancelled", None);
        let response = StreamChatResponse {
            conversation_id: self.conversation_id,
            user_message_id,
            assistant_message_id: None,
        };
        Ok((self.draft, event, response))
    }
}

fn complete_value(turn_id: &str, reply: &str, pending: bool, translation: &Option<String>) -> (value:
    JsonValue)
    ensures
        value@ == complete_event(turn_id@, reply@, pending, text::opt_view(*translation)),
{
    let value = JsonObject::new().with("turn_id", json_text(turn_id)).with(
        "text",
        json_text(reply),
    ).with("translation_pending", JsonValue::Bool(pending)).with(
        "translation",
        json_opt_text(translation),
    ).done();
    assert(value@->Object_0 =~= complete_event(
        turn_id@,
        reply@,
        pending,
        text::opt_view(*translation),
    )->Object_0);
    value
}

/// The message that made the tool calls of a round, for the model.
pub open spec fn is_calls_message(
    message: LlmChatMessage,
    words: Seq<char>,
    calls: Seq<LlmToolCall>,
    reasoning: Seq<char>,
    provider_data: Seq<JsonView>,
) -> bool {
    &&& message.role@ == "assistant"@
    &&& message.text@ == words
    &&& message.images@.len() == 0
    &&& message.tool_calls@ == calls
    &&& message.tool_call_id is None
    &&& text::opt_view(message.reasoning_content) == (if text::blank(reasoning) {
        None
    } else {
        Some(reasoning)
    })
    &&& json_views(message.provider_data@) == provider_data
}

/// A tool's result, for the model.
pub open spec fn is_result_message(message: LlmChatMessage, id: Seq<char>, words: Seq<char>) -> bool {
    &&& message.role@ == "tool"@
    &&& message.text@ == words
    &&& message.images@.len() == 0
    &&& message.tool_calls@.len() == 0
    &&& text::opt_view(message.tool_call_id) == Some(id)
    &&& message.reasoning_content is None
    &&& message.provider_data@.len() == 0
}

/// The result of one tool call.
#[derive(Debug)]
pub struct NativeResult {
    pub tool_call_id: String,
    pub text: String,
}

/// What the model gets next of a tool call that it made in its own form: the call
/// under the tool's id, and `result`, which it came to. Of any other call it gets
/// neither.
pub fn native_part(outcome: &ToolExecutionOutcome, result: &Result<ActionResult, String>) -> (r:
    Option<(LlmToolCall, NativeResult)>)
    ensures
        match (text::opt_view(outcome.tool_call_id), r) {
            (None, None) => true,
            (Some(id), Some((call, answer))) => {
                &&& call.id@ == id
                &&& call.name@ == outcome.tool_id@
                &&& tool_trace::is_args_text(call.arguments@, outcome.args@)
                &&& answer.tool_call_id@ == id
                &&& answer.text@ == tool_trace::result_text(*result)
            },
            _ => false,
        },
{
    match &outcome.tool_call_id {
        None => None,
        Some(id) => {
            let call = LlmToolCall {
                id: id.clone(),
                name: outcome.tool_id.clone(),
                arguments: args_text(&outcome.args),
            };
            let answer = NativeResult { tool_call_id: id.clone(), text: tool_result_text(result) };
            Some((call, answer))
        },
    }
}

/// Adds the tool calls of a round and their results to what the model gets
/// next.
pub fn continue_with_results(
    client_messages: &mut Vec<LlmChatMessage>,
    text: &str,
    calls: Vec<LlmToolCall>,
    reasoning: &str,
    provider_data: Vec<JsonValue>,
    results: &Vec<NativeResult>,
)
    ensures
        final(client_messages)@.len() == old(client_messages)@.len() + 1 + results@.len(),
        final(client_messages)@.take(old(client_messages)@.len() as int) == old(client_messages)@,
        is_calls_message(
            final(client_messages)@[old(client_messages)@.len() as int],
            text@,
            calls@,
            reasoning@,
            json_views(provider_data@),
        ),
        forall|i: int|
            0 <= i < results@.len() ==> is_result_message(
                final(client_messages)@[old(client_messages)@.len() + 1 + i],
                (#[trigger] results@[i]).tool_call_id@,
                results@[i].text@,
            ),
{
    let ghost before = client_messages@;
    let reasoning_content = if is_blank(reasoning) {
        None
    } else {
        Some(reasoning.to_owned())
    };
    let message = LlmChatMessage {
        role: "assistant".to_owned(),
        text: text.to_owned(),
        images: Vec::new(),
        tool_calls: calls,
        tool_call_id: None,
        reasoning_content,
        provider_data,
    };
    let ghost first = message;
    client_messages.push(message);
    let mut i: usize = 0;
    while i < results.len()
        invariant
            i <= results@.len(),
            client_messages@.len() == before.len() + 1 + i,
            client_messages@.take(before.len() as int) == before,
            client_messages@[before.len() as int] == first,
            forall|k: int|
                0 <= k < i ==> is_result_message(
                    client_messages@[before.len() + 1 + k],
                    (#[trigger] results@[k]).tool_call_id@,
                    results@[k].text@,
                ),
        decreases results.len() - i,
    {
        let ghost now = client_messages@;
        let result = &results[i];
        client_messages.push(
            LlmChatMessage {
                role: "tool".to_owned(),
                text: result.text.clone(),
                images: Vec::new(),
                tool_calls: Vec::new(),
                tool_call_id: Some(result.tool_call_id.clone()),
                reasoning_content: None,
                provider_data: Vec::new(),
            },
        );
        proof {
            assert(client_messages@.take(before.len() as int) =~= now.take(before.len() as int));
            assert forall|k: int| 0 <= k < i implies is_result_message(
                client_messages@[before.len() + 1 + k],
                (#[trigger] results@[k]).tool_call_id@,
                results@[k].text@,
            ) by {
                assert(client_messages@[before.len() + 1 + k] == now[before.len() + 1 + k]);
            }
        }
        i += 1;
    }
}

/// Tells the model what the tools gave.
pub fn continue_with_text(client_messages: &mut Vec<LlmChatMessage>, told: &str)
    ensures
        final(client_messages)@.len() == old(client_messages)@.len() + 1,
        final(client_messages)@.drop_last() == old(client_messages)@,
        chat::is_plain(final(client_messages)@.last(), "system"@, told@),
{
    client_messages.push(plain_llm_message("system", told));
    assert(client_messages@.drop_last() =~= old(client_messages)@);
}

/// What the model is asked for a translation.
pub fn translation_instruction(user_language: &str) -> (r: String)
    ensures
        r@ == "You are a translator. Translate the following text into "@ + user_language@
            + ". Output only the translation, nothing else."@,
{
    concat3(
        "You are a translator. Translate the following text into ",
        user_language,
        ". Output only the translation, nothing else.",
    )
}

/// Which cues the model may choose from.
pub fn cue_instruction(cues: &Vec<String>) -> (r: String)
    ensures
        r@ == "Available cues for the active model: "@ + (if text::join(
            text::views(cues@),
            ", "@,
        ).len() == 0 {
            "(none)"@
        } else {
            text::join(text::views(cues@), ", "@)
        }) + ".\nChoose exactly one from this list, or return null if none fit."@,
{
    let list = join_text(cues, ", ");
    let shown = if list.as_str().is_empty() {
        "(none)"
    } else {
        list.as_str()
    };
    concat3(
        "Available cues for the active model: ",
        shown,
        ".\nChoose exactly one from this list, or return null if none fit.",
    )
}

/// A text without `pattern` at its beginning, however often it stands there.
pub open spec fn without_start(s: Seq<char>, pattern: Seq<char>) -> Seq<char>
    decreases s.len(),
{
    if pattern.len() > 0 && text::starts_with(s, pattern) {
        without_start(s.skip(pattern.len() as int), pattern)
    } else {
        s
    }
}

/// A text without `pattern` at its end, however often it stands there.
pub open spec fn without_end(s: Seq<char>, pattern: Seq<char>) -> Seq<char>
    decreases s.len(),
{
    if pattern.len() > 0 && text::ends_with(s, pattern) {
        without_end(s.take(s.len() - pattern.len()), pattern)
    } else {
        s
    }
}

/// The JSON in a reply that may stand between marks for code.
pub open spec fn unfenced(reply: Seq<char>) -> Seq<char> {
    without_end(without_start(without_start(text::trim(reply), "```json"@), "```"@), "```"@)
}

fn drop_start(text: &str, pattern: &str, width: usize) -> (r: String)
    requires
        width == pattern@.len(),
        width > 0,
    ensures
        r@ == without_start(text@, pattern@),
{
    let mut rest = text.to_owned();
    while starts_with_text(rest.as_str(), pattern)
        invariant
            width == pattern@.len(),
            width > 0,
            without_start(text@, pattern@) == without_start(rest@, pattern@),
        decreases rest@.len(),
    {
        let shorter = tail_text(rest.as_str(), width);
        assert(shorter@ =~= rest@.skip(width as int));
        rest = shorter;
    }
    rest
}

fn drop_end(text: &str, pattern: &str, width: usize) -> (r: String)
    requires
        width == pattern@.len(),
        width > 0,
    ensures
        r@ == without_end(text@, pattern@),
{
    let mut rest = text.to_owned();
    while ends_with_text(rest.as_str(), pattern)
        invariant
            width == pattern@.len(),
            width > 0,
            without_end(text@, pattern@) == without_end(rest@, pattern@),
        decreases rest@.len(),
    {
        let n = text::char_count(rest.as_str());
        let shorter = head_text(rest.as_str(), n - width);
        assert(shorter@ =~= rest@.take(n - width));
        rest = shorter;
    }
    rest
}

/// Takes the marks for code off a reply.
pub fn strip_code_fence(reply: &str) -> (r: String)
    ensures
        r@ == unfenced(reply@),
{
    proof {
        reveal_strlit("```json");
        reveal_strlit("```");
    }
    let trimmed = trim_text(reply);
    let opened = drop_start(trimmed.as_str(), "```json", 7);
    let opened = drop_start(opened.as_str(), "```", 3);
    drop_end(opened.as_str(), "```", 3)
}

/// The cue that a reply names, where it is one of `cues`.
pub open spec fn named_cue(reply: Option<JsonView>, cues: Option<Seq<Seq<char>>>) -> Option<
    Seq<char>,
> {
    match reply {
        Some(value) => match json::text_field(value, "cue"@) {
            Some(cue) => if cues matches Some(known) && known.contains(text::trim(cue)) {
                Some(text::trim(cue))
            } else {
                None
            },
            None => None,
        },
        None => None,
    }
}

/// The views of a list of cues.
pub open spec fn cue_views(cues: Option<&Vec<String>>) -> Option<Seq<Seq<char>>> {
    match cues {
        Some(list) => Some(text::views(list@)),
        None => None,
    }
}

pub fn cue_of_value(reply: &Option<JsonValue>, cues: Option<&Vec<String>>) -> (r: Option<String>)
    ensures
        text::opt_view(r) == named_cue(json::opt_json(*reply), cue_views(cues)),
{
    match reply {
        Some(value) => match value.get_str("cue") {
            Some(cue) => {
                let trimmed = trim_text(cue);
                let known = match cues {
                    Some(list) => contains_entry(list, trimmed.as_str()),
                    None => false,
                };
                if known {
                    Some(trimmed)
                } else {
                    None
                }
            },
            None => None,
        },
        None => None,
    }
}

/// The cue that the model chose for a reply, where it is one of `cues`.
pub fn fallback_cue(reply: &str, cues: Option<&Vec<String>>) -> (r: Option<String>)
    ensures
        text::opt_view(r) == named_cue(json::parsed_json(unfenced(reply@)), cue_views(cues)),
{
    cue_of_value(&parse_json(strip_code_fence(reply).as_str()), cues)
}

/// The event that plays a cue.
pub fn cue_payload(cue: &str) -> (value: JsonValue)
    ensures
        value@ == JsonView::Object(
            seq![
                ("cue"@, JsonView::Text(cue@)),
                ("source"@, JsonView::Text("fallback-cue"@)),
            ],
        ),
{
    let value = JsonObject::new().with("cue", json_text(cue)).with(
        "source",
        json_text("fallback-cue"),
    ).done();
    assert(value@->Object_0 =~= seq![
        ("cue"@, JsonView::Text(cue@)),
        ("source"@, JsonView::Text("fallback-cue"@)),
    ]);
    value
}

/// What the model says of a background for a reply.
#[derive(Debug)]
pub struct BgAnalysis {
    pub should_generate: bool,
    pub image_prompt: Option<String>,
}

/// The prompt for a background, where one is to be made.
pub fn background_prompt(analysis: BgAnalysis) -> (r: Option<String>)
    ensures
        text::opt_view(r) == (match text::opt_view(analysis.image_prompt) {
            Some(prompt) => if analysis.should_generate && prompt.len() > 0 {
                Some(prompt)
            } else {
                None
            },
            None => None,
        }),
{
    if !analysis.should_generate {
        return None;
    }
    match analysis.image_prompt {
        Some(prompt) => if prompt.as_str().is_empty() {
            None
        } else {
            Some(prompt)
        },
        None => None,
    }
}

/// What the model is asked about a background.
pub fn background_question(reply: &str) -> (r: String)
    ensures
        r@ == "Character reply: "@ + reply@,
{
    concat2("Character reply: ", reply)
}

/// What one round of a turn brings: the model's response, whether the turn was
/// cancelled meanwhile, where a draft was stored, whether there are calls to make,
/// how those come out, and where the calls in the model's own form and their
/// results were stored.
pub ghost struct ChatRound {
    pub response: Seq<char>,
    pub reasoning: Seq<char>,
    pub cancelled: bool,
    pub stored: Option<i64>,
    pub calls: bool,
    pub native: bool,
    pub needs_feedback: bool,
    pub rows: Seq<i64>,
}

/// The messages that a round stores beside the draft.
pub open spec fn round_rows(round: ChatRound) -> Seq<i64> {
    if round.calls && round.native {
        round.rows
    } else {
        Seq::empty()
    }
}

/// The messages that some rounds store beside the draft.
pub open spec fn rounds_rows(rounds: Seq<ChatRound>) -> Seq<i64>
    decreases rounds.len(),
{
    if rounds.len() == 0 {
        Seq::empty()
    } else {
        round_rows(rounds[0]) + rounds_rows(rounds.drop_first())
    }
}

/// The turn after one whole round.
pub open spec fn after_chat_round(turn: ChatTurnView, round: ChatRound) -> ChatTurnView {
    let begun = ChatTurnView { rounds_left: turn.rounds_left - 1, ..turn };
    let answered = with_response(begun, round.response, round.reasoning);
    let drafted = if drafts(answered, round.cancelled) && answered.draft is None {
        ChatTurnView { draft: round.stored, ..answered }
    } else {
        answered
    };
    let stored = ChatTurnView { rows: drafted.rows + round_rows(round), ..drafted };
    if round.calls && (round.native || round.needs_feedback) {
        stored
    } else {
        ChatTurnView { rounds_left: 0, ..stored }
    }
}

/// The turn after its rounds, where they would bring `rounds`, and how many times
/// the model was asked.
pub open spec fn after_chat_rounds(turn: ChatTurnView, rounds: Seq<ChatRound>) -> (
    ChatTurnView,
    nat,
)
    decreases rounds.len(),
{
    if rounds.len() == 0 || turn.rounds_left <= 0 {
        (turn, 0)
    } else {
        let (end, asked) = after_chat_rounds(after_chat_round(turn, rounds[0]), rounds.drop_first());
        (end, asked + 1)
    }
}

/// However its rounds come out, a turn asks the model at most as often as it may,
/// keeps the text of its earlier rounds at the beginning of its reply, and stores
/// nothing of that reply while it is hidden.
pub proof fn lemma_chat_rounds(turn: ChatTurnView, rounds: Seq<ChatRound>)
    requires
        turn.rounds_left >= 0,
    ensures
        after_chat_rounds(turn, rounds).1 <= turn.rounds_left,
        turn.all_text.is_prefix_of(after_chat_rounds(turn, rounds).0.all_text),
        turn.hidden ==> after_chat_rounds(turn, rounds).0.draft == turn.draft,
        after_chat_rounds(turn, rounds).0.hidden == turn.hidden,
        after_chat_rounds(turn, rounds).0.turn_id == turn.turn_id,
        after_chat_rounds(turn, rounds).0.conversation_id == turn.conversation_id,
    decreases rounds.len(),
{
    if rounds.len() == 0 || turn.rounds_left <= 0 {
    } else {
        let next = after_chat_round(turn, rounds[0]);
        let text_before = turn.all_text;
        let text_then = next.all_text;
        let text_after = after_chat_rounds(next, rounds.drop_first()).0.all_text;
        lemma_chat_rounds(next, rounds.drop_first());
        assert(text_before =~= text_then.take(text_before.len() as int));
        assert(text_before =~= text_after.take(text_before.len() as int));
    }
}

/// The messages that a turn stored beside the draft are those of the rounds that it
/// ran, in their order.
proof fn lemma_rows_of_rounds(turn: ChatTurnView, rounds: Seq<ChatRound>)
    ensures
        after_chat_rounds(turn, rounds).1 <= rounds.len(),
        after_chat_rounds(turn, rounds).0.rows == turn.rows + rounds_rows(
            rounds.take(after_chat_rounds(turn, rounds).1 as int),
        ),
    decreases rounds.len(),
{
    let (end, asked) = after_chat_rounds(turn, rounds);
    let ran = rounds.take(asked as int);
    if rounds.len() == 0 || turn.rounds_left <= 0 {
        assert(end.rows =~= turn.rows + rounds_rows(ran));
    } else {
        let next = after_chat_round(turn, rounds[0]);
        lemma_rows_of_rounds(next, rounds.drop_first());
        assert(ran.drop_first() =~= rounds.drop_first().take(asked - 1));
        assert(end.rows =~= turn.rows + rounds_rows(ran));
    }
}

/// A hidden turn that has nothing to say leaves nothing behind: what it deletes at
/// its end is all that its rounds stored, in their order, and they stored no draft.
pub proof fn lemma_silent_turn_leaves_nothing(turn: ChatTurnView, rounds: Seq<ChatRound>)
    requires
        turn.rounds_left >= 0,
        turn.hidden,
        turn.draft is None,
        turn.rows.len() == 0,
    ensures
        after_chat_rounds(turn, rounds).0.draft is None,
        stored_messages(after_chat_rounds(turn, rounds).0) == rounds_rows(
            rounds.take(after_chat_rounds(turn, rounds).1 as int),
        ),
{
    lemma_chat_rounds(turn, rounds);
    lemma_rows_of_rounds(turn, rounds);
    assert(stored_messages(after_chat_rounds(turn, rounds).0) =~= rounds_rows(
        rounds.take(after_chat_rounds(turn, rounds).1 as int),
    ));
}

/// A turn is reported as failed only where no text came.
pub proof fn lemma_failed_turn_is_empty(turn: ChatTurnView)
    ensures
        finish_status(turn) == "error"@ ==> reply_of(turn.all_text).len() == 0,
{
    reveal_strlit("error");
    reveal_strlit("completed");
    assert("error"@.len() != "completed"@.len());
}

} // verus!
