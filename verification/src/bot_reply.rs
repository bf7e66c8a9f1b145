//! A bot's reply to one message: from the prompt over the rounds with the
//! model to what is sent back.

use vstd::prelude::*;
use crate::json::{json_text, print_json, JsonObject, JsonView};
use crate::json;
use crate::media::{
    bot_reply_image_from_generated, BotReplyAudio, BotReplyImage, GeneratedBotImage,
};
use crate::encoding;
use crate::reply_text;
use crate::reply_text::{
    compact_newlines, extract_image_prompt_tags, extract_translate_tags, merge_continuation_text,
    strip_control_tags, strip_leaked_tags,
};
use crate::tags;
use crate::tags::{parse_tool_call_tags, ToolCall};
use crate::telegram;
use crate::telegram::image_prompts_of;
use crate::telegram_text;
use crate::text;
use crate::text::{
    concat2, concat3, is_blank, join_text, same_text, trim_text,
};

verus! {

broadcast use vstd::string::group_string_axioms;

/// What a bot sends back.
#[derive(Debug)]
pub struct BotReply {
    pub reply: String,
    pub translation: Option<String>,
    pub images: Vec<BotReplyImage>,
    pub audio: Option<BotReplyAudio>,
    pub image_prompts: Vec<String>,
    pub generated_image_count: usize,
}

impl BotReply {
    /// The images are counted.
    pub open spec fn well_formed(&self) -> bool {
        self.generated_image_count == self.images@.len()
    }
}

/// The reply with its translation below it, unless that is blank.
pub open spec fn with_translation(
    reply: Seq<char>,
    translation: Option<Seq<char>>,
) -> Seq<char> {
    if translation matches Some(t) && !text::blank(t) {
        reply + "\n\nTranslation: "@ + translation->0
    } else {
        reply
    }
}

pub fn reply_text_with_translation(reply: &BotReply) -> (r: String)
    ensures
        r@ == with_translation(reply.reply@, text::opt_view(reply.translation)),
{
    match &reply.translation {
        Some(translation) => if is_blank(translation.as_str()) {
            reply.reply.clone()
        } else {
            concat3(reply.reply.as_str(), "\n\nTranslation: ", translation.as_str())
        },
        None => reply.reply.clone(),
    }
}

/// The prompt for a message: its text, or a note that it is an image.
pub open spec fn prompt_of(message: Seq<char>, has_images: bool) -> Option<Seq<char>> {
    if !text::blank(message) {
        Some(text::trim(message))
    } else if has_images {
        Some("The user sent an image:"@)
    } else {
        None
    }
}

pub fn bot_prompt(message: &str, has_images: bool) -> (r: Result<String, String>)
    ensures
        match r {
            Ok(prompt) => prompt_of(message@, has_images) == Some(prompt@),
            Err(error) => prompt_of(message@, has_images) is None && error@
                == "Message text is empty"@,
        },
{
    let trimmed = trim_text(message);
    if !trimmed.as_str().is_empty() {
        Ok(trimmed)
    } else if has_images {
        Ok("The user sent an image:".to_owned())
    } else {
        Err("Message text is empty".to_owned())
    }
}

/// Why no turn can begin, if none can: the character did not load, or it is
/// just being changed.
pub fn turn_gate(degraded: Option<&str>, activation_error: Option<&str>) -> (r: Result<(), String>)
    ensures
        match degraded {
            Some(reason) => r matches Err(error) && error@ == "Character runtime is degraded ("@
                + reason@
                + "). Please re-activate or select a character in Character Settings."@,
            None => match activation_error {
                Some(fault) => r matches Err(error) && error@
                    == "Character activation is in progress: "@ + fault@,
                None => r is Ok,
            },
        },
{
    if let Some(reason) = degraded {
        return Err(
            concat3(
                "Character runtime is degraded (",
                reason,
                "). Please re-activate or select a character in Character Settings.",
            ),
        );
    }
    if let Some(fault) = activation_error {
        return Err(concat2("Character activation is in progress: ", fault));
    }
    Ok(())
}

/// The character in memory, unless there is none or only the default one; else
/// the stored one; else the default one.
pub open spec fn current_character(in_memory: Seq<char>, stored: Option<Seq<char>>) -> Seq<char> {
    if in_memory.len() > 0 && in_memory != "default"@ {
        in_memory
    } else {
        match stored {
            Some(id) => id,
            None => "default"@,
        }
    }
}

/// The character that answers: the one asked for, unless that is blank, else
/// the current one.
pub fn bot_character(requested: Option<&str>, in_memory: &str, stored: Option<&str>) -> (id: String)
    ensures
        id@ == (if text::opt_str(requested) matches Some(r) && !text::blank(r) {
            text::opt_str(requested)->0
        } else {
            current_character(in_memory@, text::opt_str(stored))
        }),
{
    if let Some(id) = requested {
        if !is_blank(id) {
            return id.to_owned();
        }
    }
    current_character_id(in_memory, stored)
}

pub fn current_character_id(in_memory: &str, stored: Option<&str>) -> (id: String)
    ensures
        id@ == current_character(in_memory@, text::opt_str(stored)),
{
    if !in_memory.is_empty() && !same_text(in_memory, "default") {
        in_memory.to_owned()
    } else {
        match stored {
            Some(id) => id.to_owned(),
            None => "default".to_owned(),
        }
    }
}

/// The key under which a conversation is known: the given one, unless that is
/// blank, else the platform.
pub fn bot_conversation_key(key: Option<&str>, platform: &str) -> (r: String)
    ensures
        r@ == (if text::opt_str(key) matches Some(k) && !text::blank(k) {
            text::opt_str(key)->0
        } else {
            platform@
        }),
{
    match key {
        Some(key) => if is_blank(key) {
            platform.to_owned()
        } else {
            key.to_owned()
        },
        None => platform.to_owned(),
    }
}

/// How the user's message is shown on the desktop.
pub fn user_sync_text(platform: &str, prompt: &str, has_images: bool) -> (r: String)
    ensures
        r@ == "["@ + platform@ + "] "@ + prompt@ + (if has_images {
            " [image]"@
        } else {
            ""@
        }),
{
    let head = concat2(concat3("[", platform, "] ").as_str(), prompt);
    if has_images {
        concat2(head.as_str(), " [image]")
    } else {
        concat2(head.as_str(), "")
    }
}

/// What is done about the user's message at the end of the composed prompt.
#[derive(Debug, Clone, Copy, PartialEq, Eq, Structural)]
pub enum UserTurn {
    Keep,
    Append,
    ReplaceWithImages,
    AppendWithImages,
}

/// The last message of the prompt is the user's, with the images where there
/// are any.
pub fn place_user_turn(last_is_user: bool, has_images: bool) -> (turn: UserTurn)
    ensures
        turn == (if has_images {
            if last_is_user {
                UserTurn::ReplaceWithImages
            } else {
                UserTurn::AppendWithImages
            }
        } else if last_is_user {
            UserTurn::Keep
        } else {
            UserTurn::Append
        }),
{
    if has_images {
        if last_is_user {
            UserTurn::ReplaceWithImages
        } else {
            UserTurn::AppendWithImages
        }
    } else if last_is_user {
        UserTurn::Keep
    } else {
        UserTurn::Append
    }
}

/// The platform whose way of cleaning text is used.
#[derive(Debug, Clone, Copy, PartialEq, Eq, Structural)]
pub enum ReplyStyle {
    Bot,
    Telegram,
}

/// The rounds of one reply with the model.
pub struct ReplyRounds {
    style: ReplyStyle,
    all_text: String,
    translations: Vec<String>,
    image_prompts: Vec<String>,
    images: Vec<BotReplyImage>,
    rounds_left: usize,
    done: bool,
}

/// The view of the rounds.
pub ghost struct RoundsView {
    pub style: ReplyStyle,
    pub all_text: Seq<char>,
    pub translations: Seq<Seq<char>>,
    pub image_prompts: Seq<Seq<char>>,
    pub images: Seq<BotReplyImage>,
    pub rounds_left: int,
    pub done: bool,
}

impl View for ReplyRounds {
    type V = RoundsView;

    closed spec fn view(&self) -> RoundsView {
        RoundsView {
            style: self.style,
            all_text: self.all_text@,
            translations: text::views(self.translations@),
            image_prompts: text::views(self.image_prompts@),
            images: self.images@,
            rounds_left: self.rounds_left as int,
            done: self.done,
        }
    }
}

/// What one response holds: the text to show, its translation, the image
/// prompts and the tool calls.
pub ghost struct ResponseParts {
    pub shown: Seq<char>,
    pub translation: Option<Seq<char>>,
    pub image_prompts: Seq<Seq<char>>,
    pub calls: Seq<tags::CallView>,
}

pub open spec fn response_parts(style: ReplyStyle, response: Seq<char>) -> ResponseParts {
    match style {
        ReplyStyle::Bot => {
            let (s1, calls) = tags::tool_calls_of(response);
            let (s2, translation) = reply_text::translated(s1);
            let (s3, image_prompts) = reply_text::image_prompt_scan(s2, Seq::empty());
            ResponseParts {
                shown: text::trim(reply_text::leaked_scan(text::trim(s3))),
                translation,
                image_prompts,
                calls,
            }
        },
        ReplyStyle::Telegram => {
            let (s1, calls) = telegram_text::tool_calls_of(response);
            let (s2, translation) = reply_text::translated(s1);
            ResponseParts {
                shown: text::trim(reply_text::leaked_scan(s2)),
                translation,
                image_prompts: Seq::empty(),
                calls,
            }
        },
    }
}

/// The text of all rounds so far with that of one more.
pub open spec fn with_round_text(
    style: ReplyStyle,
    all_text: Seq<char>,
    shown: Seq<char>,
) -> Seq<char> {
    if shown.len() == 0 {
        all_text
    } else {
        match style {
            ReplyStyle::Bot => reply_text::merged(all_text, shown),
            ReplyStyle::Telegram => if all_text.len() > 0 {
                all_text.push(' ') + shown
            } else {
                shown
            },
        }
    }
}

/// The rounds after one more response. An empty response ends them, and so
/// does one without tool calls.
pub open spec fn after_response(rounds: RoundsView, response: Seq<char>) -> RoundsView {
    if response.len() == 0 {
        RoundsView { done: true, ..rounds }
    } else {
        let parts = response_parts(rounds.style, response);
        RoundsView {
            all_text: with_round_text(rounds.style, rounds.all_text, parts.shown),
            translations: match parts.translation {
                Some(t) => rounds.translations.push(t),
                None => rounds.translations,
            },
            image_prompts: rounds.image_prompts + parts.image_prompts,
            done: parts.calls.len() == 0,
            ..rounds
        }
    }
}

/// The final text of the rounds.
pub open spec fn final_text(style: ReplyStyle, all_text: Seq<char>) -> Seq<char> {
    match style {
        ReplyStyle::Bot => reply_text::compacted(reply_text::without_control_tags(all_text)),
        ReplyStyle::Telegram => telegram_text::without_control_tags(
            telegram_text::compacted(all_text),
        ),
    }
}

/// The images that the rounds ask for. In a Telegram reply the tags for them stay
/// until the end, and are read where the other control tags are gone.
pub open spec fn final_prompts(rounds: RoundsView) -> Seq<Seq<char>> {
    match rounds.style {
        ReplyStyle::Bot => rounds.image_prompts,
        ReplyStyle::Telegram => telegram::image_tag_prompts(
            telegram_text::with_image_tags(telegram_text::compacted(rounds.all_text)),
            0,
        ),
    }
}

/// The final translation of the rounds.
pub open spec fn final_translation(
    style: ReplyStyle,
    translations: Seq<Seq<char>>,
) -> Option<Seq<char>> {
    if translations.len() == 0 {
        None
    } else {
        match style {
            ReplyStyle::Bot => Some(reply_text::compacted(text::join(translations, " "@))),
            ReplyStyle::Telegram => Some(telegram_text::compacted(text::join(translations, " "@))),
        }
    }
}

fn append_texts(list: &mut Vec<String>, more: Vec<String>)
    ensures
        text::views(final(list)@) == text::views(old(list)@) + text::views(more@),
{
    let mut more = more;
    let ghost before = list@;
    let ghost added = more@;
    list.append(&mut more);
    assert(text::views(list@) =~= text::views(before) + text::views(added));
}

impl ReplyRounds {
    /// No round has been made. At least one will be.
    pub fn new(style: ReplyStyle, max_tool_rounds: usize) -> (r: Self)
        ensures
            r@ == (RoundsView {
                style,
                all_text: Seq::empty(),
                translations: Seq::empty(),
                image_prompts: Seq::empty(),
                images: Seq::empty(),
                rounds_left: if max_tool_rounds < 1 {
                    1
                } else {
                    max_tool_rounds as int
                },
                done: false,
            }),
    {
        let r = ReplyRounds {
            style,
            all_text: String::new(),
            translations: Vec::new(),
            image_prompts: Vec::new(),
            images: Vec::new(),
            rounds_left: if max_tool_rounds < 1 {
                1
            } else {
                max_tool_rounds
            },
            done: false,
        };
        assert(text::views(r.translations@) =~= Seq::empty());
        assert(text::views(r.image_prompts@) =~= Seq::empty());
        r
    }

    /// Whether the model is to be asked once more.
    pub fn next_round(&mut self) -> (more: bool)
        ensures
            more == (!old(self)@.done && old(self)@.rounds_left > 0),
            final(self)@ == (if more {
                RoundsView { rounds_left: old(self)@.rounds_left - 1, ..old(self)@ }
            } else {
                old(self)@
            }),
    {
        if !self.done && self.rounds_left > 0 {
            self.rounds_left -= 1;
            true
        } else {
            false
        }
    }

    /// Takes in the model's response; returns the tool calls to make.
    pub fn round_response(&mut self, response: &str) -> (calls: Vec<ToolCall>)
        ensures
            final(self)@ == after_response(old(self)@, response@),
            tags::call_views(calls@) == (if response@.len() == 0 {
                Seq::empty()
            } else {
                response_parts(old(self)@.style, response@).calls
            }),
    {
        if response.is_empty() {
            self.done = true;
            let calls: Vec<ToolCall> = Vec::new();
            assert(tags::call_views(calls@) =~= Seq::empty());
            return calls;
        }
        let (cleaned, calls) = match self.style {
            ReplyStyle::Bot => parse_tool_call_tags(response),
            ReplyStyle::Telegram => telegram_text::parse_tool_call_tags(response),
        };
        let (cleaned, translation) = extract_translate_tags(cleaned.as_str());
        let (cleaned, prompts) = match self.style {
            ReplyStyle::Bot => extract_image_prompt_tags(cleaned.as_str()),
            ReplyStyle::Telegram => (cleaned, Vec::new()),
        };
        let shown = strip_leaked_tags(cleaned.as_str());
        let ghost parts = response_parts(self.style, response@);
        proof {
            assert(shown@ == parts.shown);
            assert(self.style is Telegram ==> text::views(prompts@) =~= Seq::<Seq<char>>::empty());
            assert(text::views(prompts@) == parts.image_prompts);
        }
        if let Some(translation) = translation {
            let ghost before = self.translations@;
            self.translations.push(translation);
            assert(text::views(self.translations@) =~= text::views(before).push(translation@));
        }
        append_texts(&mut self.image_prompts, prompts);
        if !shown.as_str().is_empty() {
            match self.style {
                ReplyStyle::Bot => {
                    merge_continuation_text(&mut self.all_text, shown.as_str());
                },
                ReplyStyle::Telegram => {
                    if !self.all_text.as_str().is_empty() {
                        self.all_text.push(' ');
                    }
                    let ghost before = self.all_text@;
                    self.all_text.append(shown.as_str());
                    assert(before.len() == 0 ==> before + shown@ =~= shown@);
                },
            }
        }
        assert(tags::call_views(calls@).len() == calls@.len());
        self.done = calls.len() == 0;
        calls
    }

    /// Takes in what the tools gave: a line for each, the images they made, and
    /// whether one of them asks for the model to be told. Returns the message
    /// that tells it, where the rounds go on.
    pub fn tools_ran(
        &mut self,
        result_lines: &Vec<String>,
        any_needs_feedback: bool,
        images: Vec<BotReplyImage>,
    ) -> (told: Option<String>)
        ensures
            final(self)@ == (RoundsView {
                images: old(self)@.images + images@,
                done: old(self)@.done || !any_needs_feedback,
                ..old(self)@
            }),
            text::opt_view(told) == (if any_needs_feedback {
                Some(tool_results_message(text::views(result_lines@)))
            } else {
                None
            }),
    {
        let mut images = images;
        self.images.append(&mut images);
        if !any_needs_feedback {
            self.done = true;
            None
        } else {
            Some(
                concat3(
                    "[Tool results]\n",
                    join_text(result_lines, "\n").as_str(),
                    "\nContinue your response naturally.",
                ),
            )
        }
    }

    /// The reply that the rounds come to. There is none where they gave no
    /// text, no image prompt and no image.
    pub fn finish(self) -> (r: Result<BotReply, String>)
        ensures
            match r {
                Ok(reply) => {
                    &&& reply.well_formed()
                    &&& !nothing_to_send(self@)
                    &&& reply.reply@ == final_text(self@.style, self@.all_text)
                    &&& text::opt_view(reply.translation) == final_translation(
                        self@.style,
                        self@.translations,
                    )
                    &&& reply.images@ == self@.images
                    &&& reply.audio is None
                    &&& text::views(reply.image_prompts@) == final_prompts(self@)
                },
                Err(error) => nothing_to_send(self@) && error@ == "No response from AI"@,
            },
    {
        let (reply, image_prompts) = match self.style {
            ReplyStyle::Bot => (
                compact_newlines(strip_control_tags(self.all_text.as_str()).as_str()),
                self.image_prompts,
            ),
            ReplyStyle::Telegram => {
                let compact = telegram_text::compact_newlines(self.all_text.as_str());
                let tagged = telegram_text::keep_image_tags(compact.as_str());
                (
                    telegram_text::strip_control_tags(compact.as_str()),
                    image_prompts_of(tagged.as_str()),
                )
            },
        };
        assert(text::views(image_prompts@).len() == image_prompts@.len());
        if reply.as_str().is_empty() && image_prompts.len() == 0 && self.images.len() == 0 {
            return Err("No response from AI".to_owned());
        }
        assert(text::views(self.translations@).len() == self.translations@.len());
        let translation = if self.translations.len() == 0 {
            None
        } else {
            let joined = join_text(&self.translations, " ");
            match self.style {
                ReplyStyle::Bot => Some(compact_newlines(joined.as_str())),
                ReplyStyle::Telegram => Some(telegram_text::compact_newlines(joined.as_str())),
            }
        };
        let generated_image_count = self.images.len();
        Ok(
            BotReply {
                reply,
                translation,
                images: self.images,
                audio: None,
                image_prompts,
                generated_image_count,
            },
        )
    }
}

/// What the model is told of the tools' results.
pub open spec fn tool_results_message(lines: Seq<Seq<char>>) -> Seq<char> {
    "[Tool results]\n"@ + text::join(lines, "\n"@) + "\nContinue your response naturally."@
}

/// The rounds gave no text, no image prompt and no image.
pub open spec fn nothing_to_send(rounds: RoundsView) -> bool {
    final_text(rounds.style, rounds.all_text).len() == 0 && final_prompts(rounds).len() == 0
        && rounds.images.len() == 0
}

/// A response without brackets is shown as it is, but for the white space around
/// it: it calls no tools, has no translation and asks for no images.
pub proof fn lemma_plain_response(style: ReplyStyle, response: Seq<char>)
    requires
        !response.contains('['),
        !response.contains('<'),
    ensures
        response_parts(style, response) == (ResponseParts {
            shown: text::trim(response),
            translation: None,
            image_prompts: Seq::empty(),
            calls: Seq::empty(),
        }),
{
    let shown = text::trim(response);
    tags::lemma_plain_text_calls_nothing(response, false);
    tags::lemma_plain_text_calls_nothing(response, true);
    assert(tags::tool_calls_of(response).1 =~= Seq::empty());
    assert(telegram_text::tool_calls_of(response).1 =~= Seq::empty());
    text::lemma_trim_brings_nothing(response, '[');
    text::lemma_trim_brings_nothing(response, '<');
    text::lemma_trim_idempotent(response);
    reveal_strlit("[TRANSLATE:");
    reveal_strlit("[IMAGE_PROMPT:");
    reveal_strlit("<tool_result>");
    text::lemma_absent(shown, "[TRANSLATE:"@, 0);
    text::lemma_absent(shown, "[IMAGE_PROMPT:"@, 0);
    text::lemma_absent(shown, "<tool_result>"@, 0);
    let parts = response_parts(style, response);
    assert(parts.image_prompts =~= Seq::empty());
    assert(parts.calls =~= Seq::empty());
}

/// What one round brings: the model's response, and what its tools give.
pub ghost struct RoundInput {
    pub response: Seq<char>,
    pub needs_feedback: bool,
    pub images: Seq<BotReplyImage>,
}

/// The rounds after one whole round. The tools only run where the response calls
/// some.
pub open spec fn after_round(rounds: RoundsView, input: RoundInput) -> RoundsView {
    let begun = RoundsView { rounds_left: rounds.rounds_left - 1, ..rounds };
    let answered = after_response(begun, input.response);
    if answered.done {
        answered
    } else {
        RoundsView {
            images: answered.images + input.images,
            done: !input.needs_feedback,
            ..answered
        }
    }
}

/// How many times the model is asked, where the rounds would bring `inputs`.
pub open spec fn times_asked(rounds: RoundsView, inputs: Seq<RoundInput>) -> nat
    decreases inputs.len(),
{
    if inputs.len() == 0 || rounds.done || rounds.rounds_left <= 0 {
        0
    } else {
        1 + times_asked(after_round(rounds, inputs[0]), inputs.drop_first())
    }
}

/// The model is asked at most as often as there are rounds left; and once a
/// response is empty or calls no tool, or no tool result is to be told, it is not
/// asked again.
pub proof fn lemma_rounds_end(rounds: RoundsView, inputs: Seq<RoundInput>)
    requires
        rounds.rounds_left >= 0,
    ensures
        times_asked(rounds, inputs) <= rounds.rounds_left,
        inputs.len() > 0 && (inputs[0].response.len() == 0 || response_parts(
            rounds.style,
            inputs[0].response,
        ).calls.len() == 0 || !inputs[0].needs_feedback) ==> times_asked(rounds, inputs) <= 1,
    decreases inputs.len(),
{
    if inputs.len() == 0 || rounds.done || rounds.rounds_left <= 0 {
    } else {
        lemma_rounds_end(after_round(rounds, inputs[0]), inputs.drop_first());
    }
}

/// The metadata that is stored with a reply: its translation.
pub open spec fn translation_metadata(translation: Seq<char>) -> JsonView {
    JsonView::Object(seq![("translation"@, JsonView::Text(translation))])
}

/// The metadata of a reply as it is stored.
pub fn reply_metadata(translation: &Option<String>) -> (r: Option<String>)
    ensures
        text::opt_view(r) == (match text::opt_view(*translation) {
            Some(t) => Some(json::printed_json(translation_metadata(t))),
            None => None,
        }),
{
    match translation {
        Some(t) => {
            let value = JsonObject::new().with("translation", json_text(t.as_str())).done();
            Some(print_json(&value))
        },
        None => None,
    }
}

/// The images of a reply with those that were generated for its prompts.
pub open spec fn images_added(before: Seq<BotReplyImage>, after: Seq<BotReplyImage>, new: Seq<
    GeneratedBotImage,
>) -> bool {
    &&& after.len() == before.len() + new.len()
    &&& after.take(before.len() as int) == before
    &&& forall|i: int|
        0 <= i < new.len() ==> {
            let image = #[trigger] after[before.len() + i];
            &&& image.prompt@ == new[i].prompt@
            &&& image.mime_type@ == new[i].mime_type@
            &&& image.file_name@ == new[i].file_name@
            &&& image.data_base64@ == encoding::base64_encoded(new[i].data@)
            &&& encoding::base64_text(image.data_base64@)
        }
}

/// Adds generated images to a reply, and counts them.
pub fn attach_generated_images_to_reply(reply: &mut BotReply, images: Vec<GeneratedBotImage>)
    requires
        old(reply).generated_image_count + images@.len() <= usize::MAX,
    ensures
        final(reply).generated_image_count == old(reply).generated_image_count + images@.len(),
        old(reply).well_formed() ==> final(reply).well_formed(),
        images_added(old(reply).images@, final(reply).images@, images@),
        final(reply).reply == old(reply).reply,
        final(reply).translation == old(reply).translation,
        final(reply).audio == old(reply).audio,
        final(reply).image_prompts == old(reply).image_prompts,
{
    let ghost before = reply.images@;
    let ghost all = images@;
    let count: usize = reply.generated_image_count + images.len();
    let mut images = images;
    let ghost mut done: int = 0;
    assert(before.take(before.len() as int) =~= before);
    while images.len() > 0
        invariant
            0 <= done <= all.len(),
            images@ == all.skip(done),
            images_added(before, reply.images@, all.take(done)),
            reply.reply == old(reply).reply,
            reply.translation == old(reply).translation,
            reply.audio == old(reply).audio,
            reply.image_prompts == old(reply).image_prompts,
        decreases images.len(),
    {
        let ghost now = reply.images@;
        let image = bot_reply_image_from_generated(images.remove(0));
        reply.images.push(image);
        proof {
            let next = all.take(done + 1);
            assert(all.skip(done)[0] == all[done]);
            assert(reply.images@.take(before.len() as int) =~= before) by {
                assert(now.take(before.len() as int) == before);
                assert forall|k: int| 0 <= k < before.len() implies now[k] == before[k] by {
                    assert(now.take(before.len() as int)[k] == now[k]);
                }
            }
            assert forall|i: int| 0 <= i < next.len() implies {
                let image = #[trigger] reply.images@[before.len() + i];
                &&& image.prompt@ == next[i].prompt@
                &&& image.mime_type@ == next[i].mime_type@
                &&& image.file_name@ == next[i].file_name@
                &&& image.data_base64@ == encoding::base64_encoded(next[i].data@)
                &&& encoding::base64_text(image.data_base64@)
            } by {
                if i < done {
                    assert(now[before.len() + i] == reply.images@[before.len() + i]);
                    assert(next[i] == all.take(done)[i]);
                }
            }
            assert(images@ =~= all.skip(done + 1));
            done = done + 1;
        }
    }
    assert(all.take(done) =~= all);
    reply.generated_image_count = count;
}

} // verus!
