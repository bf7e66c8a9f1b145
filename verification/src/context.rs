//! Settings around a conversation, and ending a session.

use vstd::prelude::*;
use crate::history::Message;
use crate::json::{json_text, json_uint, JsonObject, JsonValue, JsonView};
use crate::json;
use crate::text;
use crate::text::{concat2, concat3, join_text, same_text, trim_text};

verus! {

broadcast use vstd::string::group_string_axioms;

/// What the user says of themselves.
#[derive(Debug)]
pub struct UserProfileSettings {
    pub user_name: String,
    pub user_persona: String,
}

pub open spec fn is_default_profile(settings: UserProfileSettings) -> bool {
    settings.user_name@ == "User"@ && settings.user_persona@.len() == 0
}

impl Default for UserProfileSettings {
    fn default() -> (r: Self)
        ensures
            is_default_profile(r),
    {
        UserProfileSettings { user_name: "User".to_owned(), user_persona: String::new() }
    }
}

/// The settings with another name. Where none were stored, the rest is as it
/// is by default.
pub fn set_user_name(stored: Option<UserProfileSettings>, name: String) -> (r: UserProfileSettings)
    ensures
        r.user_name == name,
        match stored {
            Some(settings) => r.user_persona == settings.user_persona,
            None => r.user_persona@.len() == 0,
        },
{
    let settings = match stored {
        Some(settings) => settings,
        None => UserProfileSettings::default(),
    };
    UserProfileSettings { user_name: name, user_persona: settings.user_persona }
}

/// The settings with another persona. Where none were stored, the rest is as
/// it is by default.
pub fn set_user_persona(stored: Option<UserProfileSettings>, persona: String) -> (r:
    UserProfileSettings)
    ensures
        r.user_persona == persona,
        match stored {
            Some(settings) => r.user_name == settings.user_name,
            None => r.user_name@ == "User"@,
        },
{
    let settings = match stored {
        Some(settings) => settings,
        None => UserProfileSettings::default(),
    };
    UserProfileSettings { user_name: settings.user_name, user_persona: persona }
}

/// The prompt that goes before all others: the one in memory, else the stored
/// one. Tells also whether the stored one is to be taken into memory, which it
/// is unless it is empty.
pub fn get_jailbreak_prompt(in_memory: Option<String>, stored: Option<String>) -> (r: (
    String,
    bool,
))
    ensures
        r.0@ == (match text::opt_view(in_memory) {
            Some(prompt) => prompt,
            None => match text::opt_view(stored) {
                Some(prompt) => prompt,
                None => Seq::empty(),
            },
        }),
        r.1 == (in_memory is None && r.0@.len() > 0),
{
    if let Some(prompt) = in_memory {
        return (prompt, false);
    }
    let prompt = match stored {
        Some(prompt) => prompt,
        None => String::new(),
    };
    let remember = !prompt.as_str().is_empty();
    (prompt, remember)
}

/// How much of a conversation is kept.
#[derive(Debug)]
pub struct ContextSettings {
    pub strategy: String,
    pub max_message_chars: usize,
}

pub open spec fn clamped(n: int, low: int, high: int) -> int {
    if n < low {
        low
    } else if n > high {
        high
    } else {
        n
    }
}

/// The settings that take effect: any strategy but a summary is a window, and
/// the length of a message is kept within bounds.
pub fn set_context_settings(settings: ContextSettings) -> (r: ContextSettings)
    ensures
        r.strategy@ == (if settings.strategy@ == "summary"@ {
            "summary"@
        } else {
            "window"@
        }),
        r.max_message_chars == clamped(settings.max_message_chars as int, 100, 50_000),
{
    let strategy = if same_text(settings.strategy.as_str(), "summary") {
        "summary".to_owned()
    } else {
        "window".to_owned()
    };
    let max_message_chars: usize = if settings.max_message_chars < 100 {
        100
    } else if settings.max_message_chars > 50_000 {
        50_000
    } else {
        settings.max_message_chars
    };
    ContextSettings { strategy, max_message_chars }
}

/// The settings as they are stored.
pub fn context_settings_value(settings: &ContextSettings) -> (value: JsonValue)
    ensures
        value@ == JsonView::Object(
            seq![
                ("strategy"@, JsonView::Text(settings.strategy@)),
                ("max_message_chars"@, json::uint_value(settings.max_message_chars as u64)),
            ],
        ),
{
    let value = JsonObject::new().with("strategy", json_text(settings.strategy.as_str())).with(
        "max_message_chars",
        json_uint(settings.max_message_chars as u64),
    ).done();
    assert(value@->Object_0 =~= seq![
        ("strategy"@, JsonView::Text(settings.strategy@)),
        ("max_message_chars"@, json::uint_value(settings.max_message_chars as u64)),
    ]);
    value
}

/// A switch as it is stored.
pub fn switch_value(enabled: bool) -> (value: JsonValue)
    ensures
        value@ == JsonView::Object(seq![("enabled"@, JsonView::Bool(enabled))]),
{
    let value = JsonObject::new().with("enabled", JsonValue::Bool(enabled)).done();
    assert(value@->Object_0 =~= seq![("enabled"@, JsonView::Bool(enabled))]);
    value
}

/// A request to end the current session.
#[derive(Debug)]
pub struct EndSessionRequest {
    pub api_key: String,
    pub endpoint: Option<String>,
    pub model: Option<String>,
}

/// Whether the session that ends is summed up: only where memories are kept and
/// there is something to sum up. The history is cleared in any case.
pub fn session_has_summary(memory_enabled: bool, history_len: usize) -> (b: bool)
    ensures
        b == (memory_enabled && history_len >= 2),
{
    memory_enabled && history_len >= 2
}

/// One line to each message: who said it, and what.
pub open spec fn transcript_lines(messages: Seq<Message>) -> Seq<Seq<char>> {
    messages.map_values(|m: Message| m.role@ + ": "@ + m.content@)
}

/// In which language a summary is to be written.
pub open spec fn language_rule(language: Seq<char>) -> Seq<char> {
    let l = text::trim(language);
    if l.len() == 0 {
        "Write the summary in the language the users were speaking."@
    } else {
        "Write the summary in "@ + l
            + ". If the conversation uses another language, translate or summarize it into "@ + l
            + "."@
    }
}

pub open spec fn summary_instruction(language: Seq<char>) -> Seq<char> {
    "You are a conversation summarizer. Write a brief 2-3 sentence summary of this conversation. "@
        + language_rule(language)
        + " Focus on key topics discussed, any emotional moments, and important information shared. Write from a third-person perspective.\nOutput ONLY the summary, no labels or formatting."@
}

pub open spec fn summary_question(messages: Seq<Message>) -> Seq<char> {
    "Summarize this conversation:\n\n"@ + text::join(transcript_lines(messages), "\n"@)
}

fn summary_language_rule(language: &str) -> (r: String)
    ensures
        r@ == language_rule(language@),
{
    let l = trim_text(language);
    if l.as_str().is_empty() {
        return "Write the summary in the language the users were speaking.".to_owned();
    }
    let head = concat3(
        "Write the summary in ",
        l.as_str(),
        ". If the conversation uses another language, translate or summarize it into ",
    );
    concat3(head.as_str(), l.as_str(), ".")
}

/// What the model is asked for a summary: an instruction, and the conversation.
pub fn summary_request(messages: &Vec<Message>, language: &str) -> (r: (String, String))
    ensures
        r.0@ == summary_instruction(language@),
        r.1@ == summary_question(messages@),
{
    let mut lines: Vec<String> = Vec::new();
    let mut i: usize = 0;
    while i < messages.len()
        invariant
            i <= messages.len(),
            lines@.len() == i,
            forall|k: int|
                0 <= k < i ==> (#[trigger] lines@[k])@ == transcript_lines(messages@)[k],
        decreases messages.len() - i,
    {
        let m = &messages[i];
        lines.push(concat3(m.role.as_str(), ": ", m.content.as_str()));
        i += 1;
    }
    assert(text::views(lines@) =~= transcript_lines(messages@));
    let transcript = join_text(&lines, "\n");
    let rule = summary_language_rule(language);
    let instruction = concat3(
        "You are a conversation summarizer. Write a brief 2-3 sentence summary of this conversation. ",
        rule.as_str(),
        " Focus on key topics discussed, any emotional moments, and important information shared. Write from a third-person perspective.\nOutput ONLY the summary, no labels or formatting.",
    );
    (instruction, concat2("Summarize this conversation:\n\n", transcript.as_str()))
}

/// The model that is asked for a summary.
pub fn summary_model(request: &EndSessionRequest) -> (model: String)
    ensures
        model@ == (match text::opt_view(request.model) {
            Some(model) => model,
            None => "gpt-4"@,
        }),
{
    match &request.model {
        Some(model) => model.clone(),
        None => "gpt-4".to_owned(),
    }
}

/// The summary that is stored, if any: a blank one is not, nor is any when
/// memories are no longer kept by then.
pub fn summary_to_store(reply: &str, memory_enabled: bool) -> (r: Option<String>)
    ensures
        text::opt_view(r) == (if memory_enabled && !text::blank(reply@) {
            Some(text::trim(reply@))
        } else {
            None
        }),
{
    let summary = trim_text(reply);
    if summary.as_str().is_empty() || !memory_enabled {
        None
    } else {
        Some(summary)
    }
}

} // verus!
