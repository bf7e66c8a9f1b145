//! The Telegram bot: who is answered, commands, sessions, and what a reply
//! says.

use std::collections::HashMap;
use vstd::prelude::*;
use crate::bot_config::TelegramConfig;
use crate::bot_reply;
use crate::bot_reply::{current_character_id, BotReply};
use crate::encoding;
use crate::encoding::base64_encode;
use crate::media;
use crate::text;
use crate::text::{
    concat2, concat3, decimal_text, ends_with_text, find_char_text, find_text, is_blank, is_white,
    same_text, slice_text, starts_with_text, to_chars, trim_text,
};

verus! {

broadcast use {vstd::string::group_string_axioms, vstd::std_specs::hash::group_hash_axioms};

/// How many messages of a chat are let through in any one window.
pub const RATE_LIMIT_MAX: u64 = 10;

/// The length of a window in nanoseconds: one minute.
pub const RATE_LIMIT_WINDOW_NANOS: u64 = 60000000000;

/// Where a chat is listed nowhere, every chat is answered.
pub open spec fn chat_allowed(allowed: Seq<i64>, chat_id: i64) -> bool {
    allowed.len() == 0 || allowed.contains(chat_id)
}

pub fn is_chat_allowed(config: &TelegramConfig, chat_id: i64) -> (b: bool)
    ensures
        b == chat_allowed(config.allowed_chat_ids@, chat_id),
{
    let ids = &config.allowed_chat_ids;
    let mut i: usize = 0;
    while i < ids.len()
        invariant
            i <= ids.len(),
            ids@ == config.allowed_chat_ids@,
            forall|k: int| 0 <= k < i ==> ids@[k] != chat_id,
        decreases ids.len() - i,
    {
        if ids[i] == chat_id {
            assert(ids@[i as int] == chat_id);
            return true;
        }
        i += 1;
    }
    ids.len() == 0
}

/// A message let through at the time `t` still counts at the time `now`: less than
/// a window lies between them.
pub open spec fn counts_at(t: u64, now: u64) -> bool {
    now - t < RATE_LIMIT_WINDOW_NANOS
}

/// Those of the given times that still count at the time `now`.
pub open spec fn recent(times: Seq<u64>, now: u64) -> Seq<u64> {
    times.filter(|t: u64| counts_at(t, now))
}

/// A message at the time `now` is let through, where `times` are those of the
/// messages that were.
pub open spec fn rate_admits(times: Seq<u64>, now: u64) -> bool {
    recent(times, now).len() < RATE_LIMIT_MAX
}

/// The times that are remembered after one more message at the time `now`: those
/// that still count, and `now` where the message is let through.
pub open spec fn rate_after(times: Seq<u64>, now: u64) -> Seq<u64> {
    if rate_admits(times, now) {
        recent(times, now).push(now)
    } else {
        recent(times, now)
    }
}

/// The times that are remembered of a chat after messages at the given times.
pub open spec fn rate_after_all(times: Seq<u64>) -> Seq<u64>
    decreases times.len(),
{
    if times.len() == 0 {
        Seq::empty()
    } else {
        rate_after(rate_after_all(times.drop_last()), times.last())
    }
}

/// The times of those messages that are let through, of messages at the given
/// times.
pub open spec fn admitted(times: Seq<u64>) -> Seq<u64>
    decreases times.len(),
{
    if times.len() == 0 {
        Seq::empty()
    } else if rate_admits(rate_after_all(times.drop_last()), times.last()) {
        admitted(times.drop_last()).push(times.last())
    } else {
        admitted(times.drop_last())
    }
}

/// Those of the given times that lie in the window that begins at `start`.
pub open spec fn in_span(times: Seq<u64>, start: int) -> Seq<u64> {
    times.filter(|t: u64| start <= t < start + RATE_LIMIT_WINDOW_NANOS)
}

/// Time does not run backwards.
pub open spec fn in_order(times: Seq<u64>) -> bool {
    forall|i: int, j: int| 0 <= i <= j < times.len() ==> #[trigger] times[i] <= #[trigger] times[j]
}

/// What no longer counts need not be remembered.
proof fn lemma_recent_of_recent(times: Seq<u64>, then: u64, now: u64)
    requires
        then <= now,
    ensures
        recent(recent(times, then), now) == recent(times, now),
    decreases times.len(),
{
    reveal(Seq::filter);
    if times.len() > 0 {
        let before = times.drop_last();
        lemma_recent_of_recent(before, then, now);
        if counts_at(times.last(), then) {
            assert(recent(times, then) == recent(before, then).push(times.last()));
            assert(recent(times, then).drop_last() =~= recent(before, then));
        }
    }
}

/// One more time counts where it counts by itself.
proof fn lemma_recent_push(times: Seq<u64>, t: u64, now: u64)
    ensures
        recent(times.push(t), now) == (if counts_at(t, now) {
            recent(times, now).push(t)
        } else {
            recent(times, now)
        }),
{
    reveal(Seq::filter);
    assert(times.push(t).drop_last() =~= times);
}

/// What is remembered decides as all the messages that were let through would.
proof fn lemma_remembered(times: Seq<u64>, now: u64)
    requires
        in_order(times),
        times.len() > 0 ==> times.last() <= now,
    ensures
        recent(rate_after_all(times), now) == recent(admitted(times), now),
    decreases times.len(),
{
    if times.len() > 0 {
        let before = times.drop_last();
        let last = times.last();
        assert(in_order(before));
        if before.len() > 0 {
            assert(before.last() == times[times.len() - 2]);
        }
        lemma_remembered(before, last);
        lemma_remembered(before, now);
        let known = rate_after_all(before);
        lemma_recent_of_recent(known, last, now);
        lemma_recent_push(recent(known, last), last, now);
        lemma_recent_push(admitted(before), last, now);
    }
}

/// The times in a span are not more than those that count at a time in it.
proof fn lemma_span_counts(times: Seq<u64>, start: int, now: u64)
    requires
        start <= now < start + RATE_LIMIT_WINDOW_NANOS,
    ensures
        in_span(times, start).len() <= recent(times, now).len(),
    decreases times.len(),
{
    reveal(Seq::filter);
    if times.len() > 0 {
        lemma_span_counts(times.drop_last(), start, now);
    }
}

/// Whenever a chat sends its messages, no span as long as the window holds more
/// than ten that are let through.
pub proof fn lemma_rate_limit(times: Seq<u64>, start: int)
    requires
        in_order(times),
    ensures
        in_span(admitted(times), start).len() <= RATE_LIMIT_MAX,
    decreases times.len(),
{
    reveal(Seq::filter);
    if times.len() > 0 {
        let before = times.drop_last();
        let last = times.last();
        assert(in_order(before));
        lemma_rate_limit(before, start);
        if rate_admits(rate_after_all(before), last) {
            if before.len() > 0 {
                assert(before.last() == times[times.len() - 2]);
            }
            lemma_remembered(before, last);
            assert(admitted(before).push(last).drop_last() =~= admitted(before));
            if start <= last < start + RATE_LIMIT_WINDOW_NANOS {
                lemma_span_counts(admitted(before), start, last);
            }
        }
    }
}

/// A message is held back only where ten others were let through less than a
/// window before it: in particular, the first ten messages of a chat are let
/// through.
pub proof fn lemma_rate_admits(times: Seq<u64>, now: u64)
    requires
        in_order(times),
        times.len() > 0 ==> times.last() <= now,
    ensures
        rate_admits(rate_after_all(times), now) <==> recent(admitted(times), now).len()
            < RATE_LIMIT_MAX,
        times.len() < RATE_LIMIT_MAX ==> rate_admits(rate_after_all(times), now),
{
    lemma_remembered(times, now);
    lemma_admitted_len(times);
    admitted(times).lemma_filter_len(|t: u64| counts_at(t, now));
}

proof fn lemma_admitted_len(times: Seq<u64>)
    ensures
        admitted(times).len() <= times.len(),
    decreases times.len(),
{
    if times.len() > 0 {
        lemma_admitted_len(times.drop_last());
    }
}

/// The rate limit of all chats: the times of the messages that were let through
/// and may still count.
pub struct RateLimiter {
    chats: HashMap<i64, Vec<u64>>,
}

impl View for RateLimiter {
    type V = Map<i64, Seq<u64>>;

    closed spec fn view(&self) -> Map<i64, Seq<u64>> {
        self.chats@.map_values(|times: Vec<u64>| times@)
    }
}

/// What is remembered of a chat.
pub open spec fn times_in(chats: Map<i64, Seq<u64>>, chat_id: i64) -> Seq<u64> {
    if chats.contains_key(chat_id) {
        chats[chat_id]
    } else {
        Seq::empty()
    }
}

fn recent_times(times: &Vec<u64>, now: u64) -> (r: Vec<u64>)
    ensures
        r@ == recent(times@, now),
{
    let mut r: Vec<u64> = Vec::new();
    let mut i: usize = 0;
    proof {
        reveal(Seq::filter);
        assert(times@.take(0) =~= Seq::empty());
    }
    while i < times.len()
        invariant
            i <= times.len(),
            r@ == recent(times@.take(i as int), now),
        decreases times.len() - i,
    {
        let t: u64 = times[i];
        proof {
            lemma_recent_push(times@.take(i as int), t, now);
            assert(times@.take(i as int).push(t) =~= times@.take(i + 1));
        }
        if now < t || now - t < RATE_LIMIT_WINDOW_NANOS {
            r.push(t);
        }
        i += 1;
    }
    assert(times@.take(i as int) =~= times@);
    r
}

impl RateLimiter {
    pub fn new() -> (r: Self)
        ensures
            r@ == Map::<i64, Seq<u64>>::empty(),
    {
        let r = RateLimiter { chats: HashMap::new() };
        assert(r@ =~= Map::<i64, Seq<u64>>::empty());
        r
    }

    /// Counts a message of a chat; says whether it is let through. Times are
    /// in nanoseconds and do not run backwards.
    pub fn count_message(&mut self, chat_id: i64, now: u64) -> (b: bool)
        ensures
            b == rate_admits(times_in(old(self)@, chat_id), now),
            final(self)@ == old(self)@.insert(
                chat_id,
                rate_after(times_in(old(self)@, chat_id), now),
            ),
    {
        let mut times = match self.chats.get(&chat_id) {
            Some(times) => recent_times(times, now),
            None => Vec::new(),
        };
        proof {
            reveal(Seq::filter);
            assert(times@ =~= recent(times_in(self@, chat_id), now));
        }
        let admitted = times.len() < RATE_LIMIT_MAX as usize;
        if admitted {
            times.push(now);
        }
        self.chats.insert(chat_id, times);
        assert(self@ =~= old(self)@.insert(
            chat_id,
            rate_after(times_in(old(self)@, chat_id), now),
        ));
        admitted
    }
}

/// What kind of message it is.
#[derive(Debug, Clone, Copy, PartialEq, Eq, Structural)]
pub enum MessageRoute {
    Command,
    Voice,
    Photo,
    Text,
    Nothing,
}

/// A text that starts with a slash is a command; apart from that, voice comes
/// before photos, and photos before text.
pub open spec fn route_of(
    message_text: Option<Seq<char>>,
    has_voice: bool,
    has_photo: bool,
) -> MessageRoute {
    if message_text matches Some(t) && text::starts_with(t, "/"@) {
        MessageRoute::Command
    } else if has_voice {
        MessageRoute::Voice
    } else if has_photo {
        MessageRoute::Photo
    } else if message_text is Some {
        MessageRoute::Text
    } else {
        MessageRoute::Nothing
    }
}

pub fn route_message(message_text: Option<&str>, has_voice: bool, has_photo: bool) -> (route:
    MessageRoute)
    ensures
        route == route_of(text::opt_str(message_text), has_voice, has_photo),
{
    if let Some(t) = message_text {
        if starts_with_text(t, "/") {
            return MessageRoute::Command;
        }
    }
    if has_voice {
        MessageRoute::Voice
    } else if has_photo {
        MessageRoute::Photo
    } else if message_text.is_some() {
        MessageRoute::Text
    } else {
        MessageRoute::Nothing
    }
}

/// What is done with a message.
#[derive(Debug)]
pub enum MessageStep {
    /// The chat is not one that is answered; its message does not count either.
    Ignored,
    /// No handler sees the message; this note is the only answer to it.
    Note(String),
    /// The message goes to the handler of its kind.
    Handle(MessageRoute),
}

/// Takes in a message of a chat: one that is not allowed is ignored, one over the
/// limit is answered with a note, any other goes to its handler.
pub fn handle_message(
    config: &TelegramConfig,
    limiter: &mut RateLimiter,
    chat_id: i64,
    now: u64,
    message_text: Option<&str>,
    has_voice: bool,
    has_photo: bool,
) -> (step: MessageStep)
    ensures
        if !chat_allowed(config.allowed_chat_ids@, chat_id) {
            step is Ignored && final(limiter)@ == old(limiter)@
        } else {
            &&& final(limiter)@ == old(limiter)@.insert(
                chat_id,
                rate_after(times_in(old(limiter)@, chat_id), now),
            )
            &&& if rate_admits(times_in(old(limiter)@, chat_id), now) {
                step == MessageStep::Handle(
                    route_of(text::opt_str(message_text), has_voice, has_photo),
                )
            } else {
                step matches MessageStep::Note(note) && note@
                    == "⚠️ Too many messages. Please wait a moment."@
            }
        },
{
    if !is_chat_allowed(config, chat_id) {
        return MessageStep::Ignored;
    }
    if !limiter.count_message(chat_id, now) {
        return MessageStep::Note("⚠️ Too many messages. Please wait a moment.".to_owned());
    }
    MessageStep::Handle(route_message(message_text, has_voice, has_photo))
}

/// Which conversation a chat takes part in.
#[derive(Debug, Clone, Copy, PartialEq, Eq, Structural)]
pub enum SessionMode {
    /// The one on the desktop.
    Continue,
    /// A fresh one.
    New,
}

/// A command.
#[derive(Debug, Clone, Copy, PartialEq, Eq, Structural)]
pub enum Command {
    Start,
    New,
    Continue,
    Status,
    /// Not a command after all, but a text to answer.
    Text,
    /// Nothing but slashes.
    Nothing,
}

/// The position of the first character that is white, or is not, from `from`
/// on.
pub open spec fn next_where(s: Seq<char>, from: int, is_space: bool) -> int
    decreases s.len() - from,
{
    if from < 0 || from >= s.len() || text::white(s[from]) == is_space {
        from
    } else {
        next_where(s, from + 1, is_space)
    }
}

/// The first word of `s`, empty where it has none.
pub open spec fn first_word(s: Seq<char>) -> Seq<char> {
    let from = next_where(s, 0, false);
    s.subrange(from, next_where(s, from, true))
}

/// `s` holds nothing but slashes.
pub open spec fn only_slashes(s: Seq<char>) -> bool {
    forall|i: int| 0 <= i < s.len() ==> #[trigger] s[i] == '/'
}

/// The command that a text gives.
pub open spec fn command_of(s: Seq<char>) -> Command {
    let word = first_word(s);
    if word == "/start"@ {
        Command::Start
    } else if word == "/new"@ {
        Command::New
    } else if word == "/continue"@ {
        Command::Continue
    } else if word == "/status"@ {
        Command::Status
    } else if only_slashes(s) {
        Command::Nothing
    } else {
        Command::Text
    }
}

fn skip_to(chars: &Vec<char>, from: usize, is_space: bool) -> (at: usize)
    requires
        from <= chars.len(),
    ensures
        at == next_where(chars@, from as int, is_space),
        from <= at <= chars.len(),
{
    let mut at: usize = from;
    while at < chars.len() && is_white(chars[at]) != is_space
        invariant
            from <= at <= chars.len(),
            next_where(chars@, from as int, is_space) == next_where(chars@, at as int, is_space),
        decreases chars.len() - at,
    {
        at += 1;
    }
    at
}

fn has_only_slashes(chars: &Vec<char>) -> (b: bool)
    ensures
        b == only_slashes(chars@),
{
    let mut i: usize = 0;
    while i < chars.len()
        invariant
            i <= chars.len(),
            forall|k: int| 0 <= k < i ==> #[trigger] chars@[k] == '/',
        decreases chars.len() - i,
    {
        if chars[i] != '/' {
            return false;
        }
        i += 1;
    }
    true
}

pub fn parse_command(message_text: &str) -> (command: Command)
    ensures
        command == command_of(message_text@),
{
    let chars = to_chars(message_text);
    let from = skip_to(&chars, 0, false);
    let to = skip_to(&chars, from, true);
    let word = text::from_chars(&chars, from, to);
    let word = word.as_str();
    if same_text(word, "/start") {
        Command::Start
    } else if same_text(word, "/new") {
        Command::New
    } else if same_text(word, "/continue") {
        Command::Continue
    } else if same_text(word, "/status") {
        Command::Status
    } else if has_only_slashes(&chars) {
        Command::Nothing
    } else {
        Command::Text
    }
}

/// The sessions of all chats.
pub struct Sessions {
    modes: HashMap<i64, SessionMode>,
}

impl View for Sessions {
    type V = Map<i64, SessionMode>;

    closed spec fn view(&self) -> Map<i64, SessionMode> {
        self.modes@
    }
}

/// The mode of a chat; one that never said otherwise takes part in the
/// conversation on the desktop.
pub open spec fn mode_in(modes: Map<i64, SessionMode>, chat_id: i64) -> SessionMode {
    if modes.contains_key(chat_id) {
        modes[chat_id]
    } else {
        SessionMode::Continue
    }
}

/// The words for a mode.
pub open spec fn mode_words(mode: SessionMode) -> Seq<char> {
    match mode {
        SessionMode::Continue => "Continue (desktop)"@,
        SessionMode::New => "New conversation"@,
    }
}

/// The reply to a command, where it has one.
pub open spec fn command_reply(
    command: Command,
    mode: SessionMode,
    history_len: nat,
) -> Option<Seq<char>> {
    match command {
        Command::Start => Some(
            "Kokoro Engine — Telegram Bridge\n\nCommands:\n/continue — Resume the desktop conversation\n/new — Start a fresh conversation\n/status — Show current session info\n\nJust send a text or voice message to chat!"@,
        ),
        Command::New => Some("✨ New conversation started."@),
        Command::Continue => Some("🔗 Continuing desktop conversation."@),
        Command::Status => Some(
            "📊 Session: "@ + mode_words(mode) + "\n💬 History: "@ + text::decimal(history_len)
                + " messages"@,
        ),
        Command::Text => None,
        Command::Nothing => None,
    }
}

/// The modes after a command of a chat.
pub open spec fn modes_after(
    modes: Map<i64, SessionMode>,
    chat_id: i64,
    command: Command,
) -> Map<i64, SessionMode> {
    match command {
        Command::New => modes.insert(chat_id, SessionMode::New),
        Command::Continue => modes.insert(chat_id, SessionMode::Continue),
        _ => modes,
    }
}

impl Sessions {
    pub fn new() -> (r: Self)
        ensures
            r@ == Map::<i64, SessionMode>::empty(),
    {
        Sessions { modes: HashMap::new() }
    }

    pub fn mode(&self, chat_id: i64) -> (mode: SessionMode)
        ensures
            mode == mode_in(self@, chat_id),
    {
        match self.modes.get(&chat_id) {
            Some(mode) => *mode,
            None => SessionMode::Continue,
        }
    }

    /// Carries out a command; returns the reply to it, where it has one.
    /// `history_len` is the length of the conversation. On `Command::New` the
    /// caller starts the conversation afresh; `Command::Text` is answered as a
    /// message.
    pub fn command(&mut self, chat_id: i64, command: Command, history_len: u64) -> (reply: Option<
        String,
    >)
        ensures
            final(self)@ == modes_after(old(self)@, chat_id, command),
            text::opt_view(reply) == command_reply(
                command,
                mode_in(old(self)@, chat_id),
                history_len as nat,
            ),
    {
        match command {
            Command::Start => Some(
                "Kokoro Engine — Telegram Bridge\n\nCommands:\n/continue — Resume the desktop conversation\n/new — Start a fresh conversation\n/status — Show current session info\n\nJust send a text or voice message to chat!".to_owned(),
            ),
            Command::New => {
                self.modes.insert(chat_id, SessionMode::New);
                Some("✨ New conversation started.".to_owned())
            },
            Command::Continue => {
                self.modes.insert(chat_id, SessionMode::Continue);
                Some("🔗 Continuing desktop conversation.".to_owned())
            },
            Command::Status => {
                let words = match self.mode(chat_id) {
                    SessionMode::Continue => "Continue (desktop)",
                    SessionMode::New => "New conversation",
                };
                let head = concat3("📊 Session: ", words, "\n💬 History: ");
                Some(
                    concat3(head.as_str(), decimal_text(history_len).as_str(), " messages"),
                )
            },
            Command::Text => None,
            Command::Nothing => None,
        }
    }
}

/// After `/new` the status says so, until `/continue`.
pub proof fn lemma_session_modes(modes: Map<i64, SessionMode>, chat_id: i64, other: i64)
    ensures
        mode_in(modes_after(modes, chat_id, Command::New), chat_id) == SessionMode::New,
        mode_in(modes_after(modes, chat_id, Command::Continue), chat_id) == SessionMode::Continue,
        other != chat_id ==> mode_in(modes_after(modes, chat_id, Command::New), other) == mode_in(
            modes,
            other,
        ),
{
}

/// The character that answers: the configured one, unless there is none, else
/// the current one.
pub fn telegram_character(config: &TelegramConfig, in_memory: &str, stored: Option<&str>) -> (id:
    String)
    ensures
        id@ == (if text::opt_view(config.character_id) matches Some(c) && c.len() > 0 {
            text::opt_view(config.character_id)->0
        } else {
            bot_reply::current_character(in_memory@, text::opt_str(stored))
        }),
{
    if let Some(id) = &config.character_id {
        if !id.as_str().is_empty() {
            return id.clone();
        }
    }
    current_character_id(in_memory, stored)
}

/// A reply that goes out, or the note in its place. There is nothing to send where
/// the reply is empty and asks for no image, or where images are not made for it:
/// they are for a text, and not for a photo.
pub fn telegram_answer(reply: Result<BotReply, String>, makes_images: bool) -> (r: Result<
    BotReply,
    String,
>)
    ensures
        match r {
            Ok(answer) => reply == Ok::<BotReply, String>(answer) && (answer.reply@.len() > 0 || (
            makes_images && answer.image_prompts@.len() > 0)),
            Err(note) => {
                &&& note@ == "(No response from AI)"@
                &&& reply matches Ok(answer) ==> answer.reply@.len() == 0 && (makes_images
                    ==> answer.image_prompts@.len() == 0)
            },
        },
{
    if let Ok(answer) = reply {
        if !answer.reply.as_str().is_empty() || (makes_images && answer.image_prompts.len() > 0) {
            return Ok(answer);
        }
    }
    Err("(No response from AI)".to_owned())
}

/// The text that is sent for a reply: with its translation below it.
pub fn telegram_reply_text(response: &str, translation: &Option<String>) -> (r: String)
    ensures
        r@ == (match text::opt_view(*translation) {
            Some(t) => response@ + "\n\n📝 "@ + t,
            None => response@,
        }),
{
    match translation {
        Some(t) => concat3(response, "\n\n📝 ", t.as_str()),
        None => response.to_owned(),
    }
}

/// The note that answers a voice message where there is no service that could
/// transcribe it. It is not fetched, and nothing else follows.
pub fn voice_gate(stt_available: bool) -> (note: Option<String>)
    ensures
        match note {
            Some(note) => !stt_available && note@ == "⚠️ STT service not available."@,
            None => stt_available,
        },
{
    if stt_available {
        None
    } else {
        Some("⚠️ STT service not available.".to_owned())
    }
}

/// What follows on a voice message.
#[derive(Debug)]
pub enum VoiceOutcome {
    /// Nothing was understood; this note is sent.
    Note(String),
    /// This note is sent, and what was said is answered as a text.
    Answer(String),
}

/// What follows on a voice message, given what the transcriber made of it, if
/// it made anything.
pub fn voice_outcome(transcription: Option<&str>) -> (r: VoiceOutcome)
    ensures
        match text::opt_str(transcription) {
            None => r matches VoiceOutcome::Note(note) && note@
                == "⚠️ Failed to transcribe voice message."@,
            Some(said) => if text::blank(said) {
                r matches VoiceOutcome::Note(note) && note@ == "🔇 (Could not recognize speech)"@
            } else {
                r matches VoiceOutcome::Answer(note) && note@ == "🎤 "@ + said
            },
        },
{
    match transcription {
        None => VoiceOutcome::Note("⚠️ Failed to transcribe voice message.".to_owned()),
        Some(said) => if is_blank(said) {
            VoiceOutcome::Note("🔇 (Could not recognize speech)".to_owned())
        } else {
            VoiceOutcome::Answer(concat2("🎤 ", said))
        },
    }
}

/// The URL of a photo for the model: PNG where the path says so, else JPEG.
pub fn photo_data_url(data: &[u8], file_path: &str) -> (url: String)
    ensures
        url@ == media::data_url(
            if text::ends_with(file_path@, ".png"@) {
                "image/png"@
            } else {
                "image/jpeg"@
            },
            encoding::base64_encoded(data@),
        ),
{
    let mime = if ends_with_text(file_path, ".png") {
        "image/png"
    } else {
        "image/jpeg"
    };
    concat2(
        concat3("data:", mime, ";base64,").as_str(),
        base64_encode(data).as_str(),
    )
}

/// The user's message that goes with a photo.
pub fn photo_caption(caption: Option<&str>) -> (r: String)
    ensures
        r@ == (match text::opt_str(caption) {
            Some(c) => c,
            None => "The user sent you a photo:"@,
        }),
{
    match caption {
        Some(c) => c.to_owned(),
        None => "The user sent you a photo:".to_owned(),
    }
}

/// How a photo is shown on the desktop.
pub fn photo_sync_text(caption: &str) -> (r: String)
    ensures
        r@ == "[TG] 📷 "@ + caption@,
{
    concat2("[TG] 📷 ", caption)
}

/// The prompts in the `[IMAGE_PROMPT:..]` tags of `s` from `from` on.
pub open spec fn image_tag_prompts(s: Seq<char>, from: int) -> Seq<Seq<char>>
    decreases s.len() - from,
{
    match text::find(s, "[IMAGE_PROMPT:"@, from) {
        Some(start) if 0 <= from <= start < s.len() => {
            let inside = start + "[IMAGE_PROMPT:"@.len();
            match text::find_char(s, ']', inside) {
                Some(end) if start <= end < s.len() => {
                    let prompt = text::trim(s.subrange(inside, end));
                    let rest = image_tag_prompts(s, end + 1);
                    if prompt.len() == 0 {
                        rest
                    } else {
                        seq![prompt] + rest
                    }
                },
                _ => Seq::empty(),
            }
        },
        _ => Seq::empty(),
    }
}

/// The images that a response asks for.
pub fn image_prompts_of(response: &str) -> (prompts: Vec<String>)
    ensures
        text::views(prompts@) == image_tag_prompts(response@, 0),
{
    let mut prompts: Vec<String> = Vec::new();
    let mut from: usize = 0;
    assert(text::views(prompts@) + image_tag_prompts(response@, 0) =~= image_tag_prompts(response@, 0));
    loop
        invariant
            image_tag_prompts(response@, 0) == text::views(prompts@) + image_tag_prompts(
                response@,
                from as int,
            ),
        ensures
            image_tag_prompts(response@, 0) == text::views(prompts@),
        decreases response@.len() - from,
    {
        let Some(start) = find_text(response, "[IMAGE_PROMPT:", from) else {
            assert(text::views(prompts@) + Seq::<Seq<char>>::empty() =~= text::views(prompts@));
            break ;
        };
        proof {
            reveal_strlit("[IMAGE_PROMPT:");
            text::lemma_find_bounds(response@, "[IMAGE_PROMPT:"@, from as int);
        }
        let Some(end) = find_char_text(response, ']', start + 14) else {
            assert(text::views(prompts@) + Seq::<Seq<char>>::empty() =~= text::views(prompts@));
            break ;
        };
        proof {
            text::lemma_find_char_bounds(response@, ']', start + 14);
        }
        let prompt = trim_text(slice_text(response, start + 14, end).as_str());
        let ghost rest = image_tag_prompts(response@, end + 1);
        if !prompt.as_str().is_empty() {
            let ghost before = prompts@;
            prompts.push(prompt);
            assert(text::views(prompts@) =~= text::views(before).push(prompt@));
            assert(text::views(before) + (seq![prompt@] + rest) =~= text::views(before).push(prompt@) + rest);
        }
        from = end + 1;
    }
    prompts
}

} // verus!
