//! What holds of the bots on their platforms, whatever messages they get.

use vstd::prelude::*;
use vstd::utf8::*;
use crate::bot_config::{DiscordBotConfig, LineBotConfig};
use crate::bot_reply;
use crate::bot_reply::{ReplyStyle, RoundsView};
use crate::discord;
use crate::discord::{ActionView, DiscordEvent, DiscordSessionExit, SessionView};
use crate::encoding;
use crate::json;
use crate::json::JsonView;
use crate::line;
use crate::line::{LineEvent, LineMessage, TaskView};
use crate::media;
use crate::reply_laws;
use crate::reply_text;
use crate::tags;
use crate::telegram;
use crate::telegram::{Command, MessageRoute, SessionMode};
use crate::telegram_text;
use crate::text;
use crate::text_laws;

verus! {

broadcast use vstd::string::group_string_axioms;

proof fn lemma_next_where(s: Seq<char>, from: int, to: int, is_space: bool)
    requires
        0 <= from <= to <= s.len(),
        forall|k: int| from <= k < to ==> text::white(#[trigger] s[k]) != is_space,
        to < s.len() ==> text::white(s[to]) == is_space,
    ensures
        telegram::next_where(s, from, is_space) == to,
    decreases to - from,
{
    if from < to {
        assert(text::white(s[from]) != is_space);
        lemma_next_where(s, from + 1, to, is_space);
    }
}

/// The first word of a text is what stands between the white space in front and the
/// next white space.
pub proof fn lemma_first_word(lead: Seq<char>, word: Seq<char>, rest: Seq<char>)
    requires
        text_laws::all_white(lead),
        word.len() > 0,
        forall|k: int| 0 <= k < word.len() ==> !text::white(#[trigger] word[k]),
        rest.len() > 0 ==> text::white(rest[0]),
    ensures
        telegram::first_word(lead + word + rest) == word,
{
    let s = lead + word + rest;
    let from = lead.len() as int;
    let to = from + word.len();
    assert forall|k: int| 0 <= k < from implies text::white(#[trigger] s[k]) by {
        assert(s[k] == lead[k]);
    }
    assert(s[from] == word[0]);
    lemma_next_where(s, 0, from, false);
    assert forall|k: int| from <= k < to implies !text::white(#[trigger] s[k]) by {
        assert(s[k] == word[k - from]);
    }
    if to < s.len() {
        assert(s[to] == rest[0]);
    }
    lemma_next_where(s, from, to, true);
    assert(s.subrange(from, to) =~= word);
}

/// A command is told by its first word alone, whatever follows; any other word makes
/// a text to answer, unless it is slashes and nothing else.
pub proof fn lemma_command(lead: Seq<char>, word: Seq<char>, rest: Seq<char>)
    requires
        text_laws::all_white(lead),
        word.len() > 0,
        forall|k: int| 0 <= k < word.len() ==> !text::white(#[trigger] word[k]),
        rest.len() > 0 ==> text::white(rest[0]),
    ensures
        ({
            let command = telegram::command_of(lead + word + rest);
            &&& word == "/start"@ ==> command == Command::Start
            &&& word == "/new"@ ==> command == Command::New
            &&& word == "/continue"@ ==> command == Command::Continue
            &&& word == "/status"@ ==> command == Command::Status
            &&& word != "/start"@ && word != "/new"@ && word != "/continue"@ && word
                != "/status"@ ==> command == (if lead.len() == 0 && rest.len() == 0 && forall|k: int|
                0 <= k < word.len() ==> #[trigger] word[k] == '/' {
                Command::Nothing
            } else {
                Command::Text
            })
        }),
{
    reveal_strlit("/start");
    reveal_strlit("/new");
    reveal_strlit("/continue");
    reveal_strlit("/status");
    lemma_first_word(lead, word, rest);
    let s = lead + word + rest;
    assert("/start"@[1] == 's' && "/new"@[1] == 'n' && "/continue"@[1] == 'c');
    assert("/status"@[3] == 'a' && "/start"@[3] == 'a' && "/start"@.len() == 6 && "/status"@.len()
        == 7);
    assert(!text::white('/'));
    if telegram::only_slashes(s) {
        if lead.len() > 0 {
            assert(s[0] == lead[0]);
            assert(text::white(lead[0]));
        }
        if rest.len() > 0 {
            assert(s[(lead.len() + word.len()) as int] == rest[0]);
        }
        assert forall|k: int| 0 <= k < word.len() implies #[trigger] word[k] == '/' by {
            assert(s[lead.len() + k] == word[k]);
        }
    }
    if lead.len() == 0 && rest.len() == 0 {
        assert(s =~= word);
    }
}

/// A text that begins with a slash is a command, whatever comes with it; without it
/// a voice message is heard, a photo looked at, a text answered, in this order.
pub proof fn lemma_route(s: Seq<char>, other: Seq<char>, has_voice: bool, has_photo: bool)
    requires
        other.len() > 0 ==> other[0] != '/',
    ensures
        telegram::route_of(Some(seq!['/'] + s), has_voice, has_photo) == MessageRoute::Command,
        telegram::route_of(Some(other), true, has_photo) == MessageRoute::Voice,
        telegram::route_of(None, true, has_photo) == MessageRoute::Voice,
        telegram::route_of(Some(other), false, true) == MessageRoute::Photo,
        telegram::route_of(None, false, true) == MessageRoute::Photo,
        telegram::route_of(Some(other), false, false) == MessageRoute::Text,
        telegram::route_of(None, false, false) == MessageRoute::Nothing,
{
    reveal_strlit("/");
    let t = seq!['/'] + s;
    assert(t.subrange(0, 1) =~= "/"@);
    if text::starts_with(other, "/"@) {
        assert(other.subrange(0, 1)[0] == other[0]);
    }
}

/// Where chats are listed, those are answered and no others; where none is listed,
/// all are.
pub proof fn lemma_allowed_chats(ids: Seq<i64>, id: i64)
    ensures
        telegram::chat_allowed(Seq::empty(), id),
        ids.len() > 0 ==> (telegram::chat_allowed(ids, id) <==> exists|k: int|
            0 <= k < ids.len() && #[trigger] ids[k] == id),
        telegram::chat_allowed(ids.push(id), id),
{
    assert(ids.push(id)[ids.len() as int] == id);
}

/// What the commands of a chat do: `/new` and `/continue` set its mode and that of
/// no other chat, the others change nothing; and `/status` tells the mode and the
/// length of the conversation.
pub proof fn lemma_commands(modes: Map<i64, SessionMode>, chat: i64, other: i64, length: nat)
    requires
        chat != other,
    ensures
        telegram::mode_in(Map::empty(), chat) == SessionMode::Continue,
        forall|command: Command|
            #![trigger telegram::modes_after(modes, chat, command)]
            telegram::mode_in(telegram::modes_after(modes, chat, command), other)
                == telegram::mode_in(modes, other) && telegram::mode_in(
                telegram::modes_after(modes, chat, command),
                chat,
            ) == (match command {
                Command::New => SessionMode::New,
                Command::Continue => SessionMode::Continue,
                _ => telegram::mode_in(modes, chat),
            }),
        telegram::command_reply(Command::Status, SessionMode::New, length) == Some(
            "📊 Session: "@ + "New conversation"@ + "\n💬 History: "@ + text::decimal(length)
                + " messages"@,
        ),
        telegram::command_reply(Command::Status, SessionMode::Continue, length) == Some(
            "📊 Session: "@ + "Continue (desktop)"@ + "\n💬 History: "@ + text::decimal(length)
                + " messages"@,
        ),
        forall|mode: SessionMode|
            #![trigger telegram::command_reply(Command::New, mode, length)]
            telegram::command_reply(Command::New, mode, length) == Some(
                "✨ New conversation started."@,
            ),
        forall|mode: SessionMode|
            #![trigger telegram::command_reply(Command::Continue, mode, length)]
            telegram::command_reply(Command::Continue, mode, length) == Some(
                "🔗 Continuing desktop conversation."@,
            ),
        forall|mode: SessionMode|
            #![trigger telegram::command_reply(Command::Text, mode, length)]
            telegram::command_reply(Command::Text, mode, length) is None,
        forall|mode: SessionMode|
            #![trigger telegram::command_reply(Command::Nothing, mode, length)]
            telegram::command_reply(Command::Nothing, mode, length) is None,
{
}

/// What a LINE message asks for: a text that is not blank is answered, word for
/// word; an image and audio are fetched by the id of the message; nothing else is
/// asked for.
pub proof fn lemma_line_task(message: LineMessage)
    ensures
        ({
            let kind = message.message_type@;
            let task = line::task_of(message);
            &&& kind == "text"@ ==> match message.text {
                Some(t) => task == (if text_laws::all_white(t@) {
                    None
                } else {
                    Some(TaskView::Say(t@))
                }),
                None => task is None,
            }
            &&& kind == "image"@ ==> match message.id {
                Some(id) => task == Some(
                    TaskView::Image(
                        "https://api-data.line.me/v2/bot/message/"@ + id@ + "/content"@,
                    ),
                ),
                None => task is None,
            }
            &&& kind == "audio"@ ==> match message.id {
                Some(id) => task == Some(
                    TaskView::Audio(
                        "https://api-data.line.me/v2/bot/message/"@ + id@ + "/content"@,
                    ),
                ),
                None => task is None,
            }
            &&& kind != "text"@ && kind != "image"@ && kind != "audio"@ ==> task is None
        }),
{
    reveal_strlit("text");
    reveal_strlit("image");
    reveal_strlit("audio");
    assert("text"@.len() == 4 && "image"@.len() == 5 && "audio"@.len() == 5);
    assert("image"@[0] == 'i' && "audio"@[0] == 'a');
    if let Some(t) = message.text {
        text_laws::lemma_blank_is_white(t@);
    }
}

/// Whom the LINE bot answers: where users are listed, a sender who is among them;
/// where none is listed, anyone. An event that is no message, or cannot be
/// answered, or asks for nothing, is passed over; all others are answered.
pub proof fn lemma_line_answers(config: LineBotConfig, event: LineEvent)
    ensures
        ({
            let listed = config.allowed_user_ids@;
            let admitted = listed.len() == 0 || (event.source matches Some(source)
                && source.user_id matches Some(id) && exists|k: int|
                0 <= k < listed.len() && (#[trigger] listed[k])@ == id@);
            line::answerable(config, event) <==> (event.event_type@ == "message"@ && admitted
                && event.reply_token is Some && (event.message matches Some(message)
                && line::task_of(message) is Some))
        }),
{
    let listed = config.allowed_user_ids@;
    let views = text::views(listed);
    if let Some(source) = event.source {
        if let Some(id) = source.user_id {
            if views.contains(id@) {
                let k = choose|k: int| 0 <= k < views.len() && views[k] == id@;
                assert(listed[k]@ == id@);
            }
            if exists|k: int| 0 <= k < listed.len() && (#[trigger] listed[k])@ == id@ {
                let k = choose|k: int| 0 <= k < listed.len() && (#[trigger] listed[k])@ == id@;
                assert(views[k] == id@);
            }
        }
    }
}

/// The text of a LINE reply: the body stays in front; where images were asked for,
/// a note on them comes behind it, or alone where there is no body.
pub proof fn lemma_line_text(body: Seq<char>, count: int)
    requires
        count >= 0,
    ensures
        line::line_text(body, false, count) == body,
        ({
            let note = if count == 0 {
                "Image generation was requested, but Kokoro Engine could not create the image. Please check the Kokoro Engine client."@
            } else {
                "Image generated in Kokoro Engine. Please open the Kokoro Engine client to view it."@
            };
            line::line_text(body, true, count) == (if text_laws::all_white(body) {
                note
            } else {
                body + seq!['\n', '\n'] + note
            })
        }),
{
    reveal_strlit("\n\n");
    assert("\n\n"@ =~= seq!['\n', '\n']);
    text_laws::lemma_blank_is_white(body);
}

/// The value of a field is the first one with its name.
pub proof fn lemma_field(
    before: Seq<(Seq<char>, JsonView)>,
    key: Seq<char>,
    value: JsonView,
    after: Seq<(Seq<char>, JsonView)>,
)
    requires
        forall|k: int| 0 <= k < before.len() ==> (#[trigger] before[k]).0 != key,
    ensures
        json::field(JsonView::Object(before.push((key, value)) + after), key) == Some(value),
        json::field(JsonView::Object(before), key) is None,
    decreases before.len(),
{
    let all = before.push((key, value)) + after;
    if before.len() > 0 {
        let rest = before.drop_first();
        assert(before[0].0 != key);
        assert forall|k: int| 0 <= k < rest.len() implies (#[trigger] rest[k]).0 != key by {
            assert(rest[k] == before[k + 1]);
        }
        lemma_field(rest, key, value, after);
        assert(all.drop_first() =~= rest.push((key, value)) + after);
    }
}

/// All attachments of a Discord message that are images or audio are looked at, in
/// their order, and no others.
pub proof fn lemma_attachments(values: Seq<JsonView>)
    ensures
        discord::attachments_in(values) == values.filter(
            |value: JsonView| discord::attachment_of(value) is Some,
        ).map_values(|value: JsonView| discord::attachment_of(value)->0),
    decreases values.len(),
{
    reveal(Seq::filter);
    let known = |value: JsonView| discord::attachment_of(value) is Some;
    let read = |value: JsonView| discord::attachment_of(value)->0;
    if values.len() > 0 {
        lemma_attachments(values.drop_last());
    }
    assert(discord::attachments_in(values) =~= values.filter(known).map_values(read));
}

/// An attachment is looked at just where it has an address and is an image or audio;
/// its address, name and type are kept, and one that is both counts as an image.
pub proof fn lemma_attachment(value: JsonView)
    ensures
        ({
            let url = json::text_field(value, "url"@);
            let name = json::text_field(value, "filename"@);
            let kind = json::text_field(value, "content_type"@);
            let image = media::image_media(kind, name);
            let audio = media::audio_media(kind, name);
            match discord::attachment_of(value) {
                Some(a) => url == Some(a.url) && a.url.len() > 0 && a.filename == name
                    && a.content_type == kind && a.is_image == image && (image || audio),
                None => url is None || url->0.len() == 0 || (!image && !audio),
            }
        }),
{
}

/// Which Discord messages are answered: those of people, in a channel that is
/// listed, or direct ones where these are let in.
pub proof fn lemma_discord_answers(config: DiscordBotConfig, message: JsonView)
    ensures
        ({
            let channel = json::text_field(message, "channel_id"@);
            let author = json::field(message, "author"@);
            let listed = config.allowed_channel_ids@;
            let person = match author {
                Some(a) => json::bool_field(a, "bot"@) != Some(true),
                None => true,
            };
            discord::answered(config, message) <==> (person && channel is Some && channel->0.len()
                > 0 && (match json::text_field(message, "guild_id"@) {
                None => config.allow_direct_messages,
                Some(_) => exists|k: int|
                    0 <= k < listed.len() && (#[trigger] listed[k])@ == channel->0,
            }))
        }),
{
    let listed = config.allowed_channel_ids@;
    let views = text::views(listed);
    if let Some(id) = json::text_field(message, "channel_id"@) {
        if views.contains(id) {
            let k = choose|k: int| 0 <= k < views.len() && views[k] == id;
            assert(listed[k]@ == id);
        }
        if exists|k: int| 0 <= k < listed.len() && (#[trigger] listed[k])@ == id {
            let k = choose|k: int| 0 <= k < listed.len() && (#[trigger] listed[k])@ == id;
            assert(views[k] == id);
        }
    }
}

/// A conversation on Discord is one of a person in a channel.
pub proof fn lemma_discord_key(message: JsonView, channel: Seq<char>, author: JsonView)
    requires
        json::text_field(message, "channel_id"@) == Some(channel),
        json::field(message, "author"@) == Some(author),
    ensures
        json::text_field(author, "id"@) matches Some(id) ==> discord::discord_key(message)
            == channel + seq![':'] + id,
        json::text_field(author, "id"@) is None ==> discord::discord_key(message) == channel,
{
    reveal_strlit(":");
    assert(":"@ =~= seq![':']);
}

/// What was said in one more piece of audio goes behind what is there; blank pieces
/// add nothing.
pub proof fn lemma_transcriptions(content: Seq<char>, heard: Seq<Seq<char>>, said: Seq<char>)
    ensures
        discord::with_transcriptions(content, Seq::empty()) == content,
        text_laws::all_white(said) ==> discord::with_transcriptions(content, heard.push(said))
            == discord::with_transcriptions(content, heard),
        ({
            let before = discord::with_transcriptions(content, heard);
            !text_laws::all_white(said) ==> discord::with_transcriptions(content, heard.push(said))
                == (if text_laws::all_white(before) {
                said
            } else {
                before + "\n\nVoice message transcript: "@ + said
            })
        }),
{
    assert(heard.push(said).drop_last() =~= heard);
    text_laws::lemma_blank_is_white(said);
    text_laws::lemma_blank_is_white(discord::with_transcriptions(content, heard));
}

/// The answer to a Discord message is on its content; a message of images alone is
/// told of, and one of nothing is not answered.
pub proof fn lemma_discord_content(content: Seq<char>)
    ensures
        !text_laws::all_white(content) ==> discord::content_to_answer(content, true) == Some(
            content,
        ) && discord::content_to_answer(content, false) == Some(content),
        text_laws::all_white(content) ==> discord::content_to_answer(content, true) == Some(
            "The user sent an image:"@,
        ) && discord::content_to_answer(content, false) is None,
{
    text_laws::lemma_blank_is_white(content);
}

/// The heartbeat after a payload with a number carries that number; after one
/// without, the number before it.
pub proof fn lemma_heartbeat_number(session: SessionView, token: Seq<char>, payload: JsonView)
    requires
        session.greeted,
    ensures
        ({
            let next = discord::on_payload(session, payload).0;
            let number = match json::int_field(payload, "s"@) {
                Some(n) => Some(n),
                None => session.sequence,
            };
            discord::on_event(next, token, DiscordEvent::HeartbeatDue).1 == ActionView::Send(
                json::printed_json(
                    JsonView::Object(
                        seq![
                            ("op"@, json::uint_value(1)),
                            (
                                "d"@,
                                match number {
                                    Some(n) => json::int_value(n),
                                    None => JsonView::Null,
                                },
                            ),
                        ],
                    ),
                ),
            )
        }),
{
}

/// What a session does about a text of the gateway: before the hello it waits for
/// that, and answers it with its token; after it, each new message is handled, and a
/// request to connect again is followed.
pub proof fn lemma_gateway_texts(session: SessionView, token: Seq<char>, raw: String)
    ensures
        ({
            let event = DiscordEvent::Text(raw);
            let action = discord::on_event(session, token, event).1;
            match json::parsed_json(raw@) {
                None => action is Wait,
                Some(payload) => {
                    let op = json::int_field(payload, "op"@);
                    if !session.greeted {
                        if op == Some(10i64) {
                            action matches ActionView::Identify(sent, interval) && sent
                                == json::printed_json(discord::identify_payload(token)) && interval
                                == (match json::field(payload, "d"@) {
                                Some(d) => match json::uint_field(d, "heartbeat_interval"@) {
                                    Some(n) => n,
                                    None => 45000u64,
                                },
                                None => 45000u64,
                            })
                        } else {
                            action is Wait
                        }
                    } else if op == Some(7i64) {
                        action == ActionView::Exit(DiscordSessionExit::Reconnect)
                    } else if op == Some(0i64) && json::text_field(payload, "t"@) == Some(
                        "MESSAGE_CREATE"@,
                    ) {
                        match json::field(payload, "d"@) {
                            Some(d) => action == ActionView::Handle(d),
                            None => action == ActionView::Handle(JsonView::Null),
                        }
                    } else {
                        action is Wait
                    }
                },
            }
        }),
        discord::on_event(session, token, DiscordEvent::Shutdown).1 == ActionView::Exit(
            DiscordSessionExit::Shutdown,
        ),
        discord::on_event(session, token, DiscordEvent::Closed).1 == ActionView::Exit(
            DiscordSessionExit::Reconnect,
        ),
        discord::on_event(session, token, DiscordEvent::SendFailed).1 == ActionView::Exit(
            DiscordSessionExit::Reconnect,
        ),
{
}

/// The token stands in the message with which a session identifies itself.
pub proof fn lemma_identify(token: Seq<char>)
    ensures
        json::int_field(discord::identify_payload(token), "op"@) == Some(2i64),
        json::field(discord::identify_payload(token), "d"@) matches Some(d) && json::text_field(
            d,
            "token"@,
        ) == Some(token) && json::int_field(d, "intents"@) == Some(37377i64),
{
    reveal_strlit("op");
    reveal_strlit("d");
    reveal_strlit("token");
    reveal_strlit("intents");
    assert("op"@.len() == 2 && "d"@.len() == 1 && "token"@.len() == 5 && "intents"@.len() == 7);
    reveal_with_fuel(json::field_in, 3);
}

/// A round adds to what the earlier ones gave, and takes nothing away: the text, the
/// translations and the image prompts so far stay in front.
pub proof fn lemma_rounds_only_add(rounds: RoundsView, response: Seq<char>)
    ensures
        ({
            let next = bot_reply::after_response(rounds, response);
            let parts = bot_reply::response_parts(rounds.style, response);
            &&& rounds.all_text.is_prefix_of(next.all_text)
            &&& response.len() > 0 ==> text::trim(parts.shown).is_suffix_of(next.all_text)
            &&& next.translations == rounds.translations + (if response.len() == 0 {
                Seq::<Seq<char>>::empty()
            } else {
                match parts.translation {
                    Some(t) => seq![t],
                    None => Seq::empty(),
                }
            })
            &&& next.image_prompts == rounds.image_prompts + (if response.len() == 0 {
                Seq::<Seq<char>>::empty()
            } else {
                parts.image_prompts
            })
            &&& next.images == rounds.images
            &&& next.rounds_left == rounds.rounds_left
            &&& next.done <==> response.len() == 0 || parts.calls.len() == 0
        }),
{
    let next = bot_reply::after_response(rounds, response);
    let parts = bot_reply::response_parts(rounds.style, response);
    assert(rounds.all_text =~= rounds.all_text.take(rounds.all_text.len() as int));
    assert(rounds.image_prompts + Seq::<Seq<char>>::empty() =~= rounds.image_prompts);
    assert(rounds.translations + Seq::<Seq<char>>::empty() =~= rounds.translations);
    assert(next.translations =~= rounds.translations + (if response.len() == 0 {
        Seq::<Seq<char>>::empty()
    } else {
        match parts.translation {
            Some(t) => seq![t],
            None => Seq::empty(),
        }
    }));
    reply_laws::lemma_rounds_merge(rounds.all_text, parts.shown);
    if response.len() > 0 {
        let shown = text::trim(parts.shown);
        lemma_shown_is_trimmed(rounds.style, response);
        if parts.shown.len() == 0 {
            assert(shown =~= next.all_text.skip(next.all_text.len() as int));
        } else if rounds.style is Telegram {
            assert(shown =~= next.all_text.skip(next.all_text.len() - shown.len()));
        }
        assert(rounds.all_text =~= next.all_text.take(rounds.all_text.len() as int));
    }
}

proof fn lemma_shown_is_trimmed(style: ReplyStyle, response: Seq<char>)
    ensures
        text::trim(bot_reply::response_parts(style, response).shown) == bot_reply::response_parts(
            style,
            response,
        ).shown,
{
    let parts = bot_reply::response_parts(style, response);
    match style {
        ReplyStyle::Bot => {
            let (s1, calls) = tags::tool_calls_of(response);
            let (s2, translation) = reply_text::translated(s1);
            let (s3, prompts) = reply_text::image_prompt_scan(s2, Seq::empty());
            text::lemma_trim_idempotent(reply_text::leaked_scan(text::trim(s3)));
        },
        ReplyStyle::Telegram => {
            let (s1, calls) = telegram_text::tool_calls_of(response);
            let (s2, translation) = reply_text::translated(s1);
            text::lemma_trim_idempotent(reply_text::leaked_scan(s2));
        },
    }
}

/// A translation stands below the reply, unless it is blank.
pub proof fn lemma_translation_below(reply: Seq<char>, translation: Seq<char>)
    ensures
        bot_reply::with_translation(reply, None) == reply,
        text_laws::all_white(translation) ==> bot_reply::with_translation(reply, Some(translation))
            == reply,
        !text_laws::all_white(translation) ==> bot_reply::with_translation(
            reply,
            Some(translation),
        ) == reply + "\n\nTranslation: "@ + translation,
{
    text_laws::lemma_blank_is_white(translation);
}

/// A message is put to the model as it is, trimmed; of one without text, only that
/// there is an image.
pub proof fn lemma_prompt(message: Seq<char>, has_images: bool)
    ensures
        !text_laws::all_white(message) ==> bot_reply::prompt_of(message, has_images) == Some(
            text::trim(message),
        ),
        text_laws::all_white(message) ==> bot_reply::prompt_of(message, true) == Some(
            "The user sent an image:"@,
        ) && bot_reply::prompt_of(message, false) is None,
{
    text_laws::lemma_blank_is_white(message);
}

/// The character in memory answers, unless it is the default one or none: then the
/// stored one does, and without that the default one.
pub proof fn lemma_current_character(in_memory: Seq<char>, stored: Seq<char>)
    ensures
        in_memory.len() > 0 && in_memory != "default"@ ==> bot_reply::current_character(
            in_memory,
            Some(stored),
        ) == in_memory && bot_reply::current_character(in_memory, None) == in_memory,
        bot_reply::current_character("default"@, Some(stored)) == stored,
        bot_reply::current_character(Seq::empty(), Some(stored)) == stored,
        bot_reply::current_character("default"@, None) == "default"@,
        bot_reply::current_character(Seq::empty(), None) == "default"@,
{
}

/// What the tools gave is told line by line, all of it and in order.
pub proof fn lemma_tool_results(lines: Seq<Seq<char>>, more: Seq<char>)
    requires
        lines.len() > 0,
    ensures
        ({
            let head = "[Tool results]\n"@;
            let tail = "\nContinue your response naturally."@;
            let told = text::join(lines, "\n"@);
            &&& bot_reply::tool_results_message(lines) == head + told + tail
            &&& bot_reply::tool_results_message(lines.push(more)) == head + (told.push('\n') + more)
                + tail
            &&& bot_reply::tool_results_message(seq![more]) == head + more + tail
        }),
{
    reveal_strlit("\n");
    text_laws::lemma_join_more(lines, more, "\n"@);
    let told = text::join(lines, "\n"@);
    assert(told + "\n"@ + more =~= told.push('\n') + more);
}

/// Ten messages of a chat are let through in a minute.
pub proof fn lemma_limit()
    ensures
        telegram::RATE_LIMIT_MAX == 10,
        telegram::RATE_LIMIT_WINDOW_NANOS == 60 * 1000 * 1000 * 1000,
{
}

proof fn lemma_recent_is_span(times: Seq<u64>, now: u64)
    requires
        forall|k: int| 0 <= k < times.len() ==> #[trigger] times[k] <= now,
    ensures
        telegram::recent(times, now) == times.filter(
            |t: u64| now as int - 60_000_000_000 < t as int <= now as int,
        ),
    decreases times.len(),
{
    reveal(Seq::filter);
    if times.len() > 0 {
        let before = times.drop_last();
        assert(times[times.len() - 1] <= now);
        assert forall|k: int| 0 <= k < before.len() implies #[trigger] before[k] <= now by {
            assert(before[k] == times[k]);
        }
        lemma_recent_is_span(before, now);
    }
}

proof fn lemma_admitted_in_order(times: Seq<u64>, now: u64)
    requires
        telegram::in_order(times),
        times.len() > 0 ==> times.last() <= now,
    ensures
        forall|k: int|
            0 <= k < telegram::admitted(times).len() ==> #[trigger] telegram::admitted(times)[k]
                <= now,
    decreases times.len(),
{
    if times.len() > 0 {
        let before = times.drop_last();
        assert(telegram::in_order(before));
        if before.len() > 0 {
            assert(before.last() == times[times.len() - 2]);
            assert(times[times.len() - 2] <= times[times.len() - 1]);
        }
        lemma_admitted_in_order(before, now);
        assert forall|k: int| 0 <= k < telegram::admitted(times).len() implies #[trigger] telegram::admitted(
            times,
        )[k] <= now by {
            if k < telegram::admitted(before).len() {
                assert(telegram::admitted(times)[k] == telegram::admitted(before)[k]);
            }
        }
    }
}

/// A message is let through just where fewer than ten were in the minute before it.
pub proof fn lemma_let_through(times: Seq<u64>, now: u64)
    requires
        telegram::in_order(times),
        times.len() > 0 ==> times.last() <= now,
    ensures
        telegram::rate_admits(telegram::rate_after_all(times), now) <==> telegram::admitted(
            times,
        ).filter(|t: u64| now as int - 60_000_000_000 < t as int <= now as int).len() < 10,
        telegram::admitted(times.push(now)) == (if telegram::rate_admits(
            telegram::rate_after_all(times),
            now,
        ) {
            telegram::admitted(times) + seq![now]
        } else {
            telegram::admitted(times)
        }),
        telegram::admitted(Seq::empty()) == Seq::<u64>::empty(),
{
    telegram::lemma_rate_admits(times, now);
    lemma_admitted_in_order(times, now);
    lemma_recent_is_span(telegram::admitted(times), now);
    assert(times.push(now).drop_last() =~= times);
    assert(telegram::admitted(times).push(now) =~= telegram::admitted(times) + seq![now]);
}

/// What is remembered of a chat is its own.
pub proof fn lemma_times_in(chats: Map<i64, Seq<u64>>, chat: i64, other: i64, times: Seq<u64>)
    requires
        chat != other,
    ensures
        telegram::times_in(Map::empty(), chat) == Seq::<u64>::empty(),
        telegram::times_in(chats.insert(chat, times), chat) == times,
        telegram::times_in(chats.insert(chat, times), other) == telegram::times_in(chats, other),
{
}

/// When a call of the LINE webhook is let in: the secret is known, the signature is
/// that of the body under it, the access token is known and the body can be read.
/// Else the first of these that fails gives the answer.
pub proof fn lemma_line_admits(
    secret: Seq<char>,
    signature: Seq<char>,
    body: Seq<u8>,
    token_known: bool,
    error: Seq<char>,
)
    ensures
        ({
            let signed = text::trim(signature) == encoding::base64_encoded(
                encoding::hmac_sha256_code(encode_utf8(secret), body),
            );
            &&& line::line_fault(None, Some(signature), body, token_known, None) == Some(
                (500u16, "LINE channel secret is not configured"@),
            )
            &&& line::line_fault(Some(secret), None, body, token_known, None) == Some(
                (401u16, "Missing LINE signature"@),
            )
            &&& !signed ==> line::line_fault(Some(secret), Some(signature), body, token_known, None)
                == Some((401u16, "Invalid LINE signature"@))
            &&& !signed ==> line::line_fault(
                Some(secret),
                Some(signature),
                body,
                token_known,
                Some(error),
            ) == Some((401u16, "Invalid LINE signature"@))
            &&& signed ==> line::line_fault(Some(secret), Some(signature), body, false, None)
                == Some((500u16, "LINE channel access token is not configured"@))
            &&& signed ==> line::line_fault(Some(secret), Some(signature), body, true, Some(error))
                == Some((400u16, "Invalid JSON: "@ + error))
            &&& signed ==> line::line_fault(Some(secret), Some(signature), body, true, None) is None
        }),
{
}

/// The sender of a LINE event is the user that its source names.
pub proof fn lemma_line_sender(event: LineEvent)
    ensures
        event.source is None ==> line::sender(event) is None,
        event.source matches Some(source) ==> (source.user_id matches Some(id) ==> line::sender(
            event,
        ) == Some(id@)),
        event.source matches Some(source) ==> (source.user_id is None ==> line::sender(
            event,
        ) is None),
{
}

/// What a message of Discord says of its channel and its attachments.
pub proof fn lemma_discord_parts(message: JsonView, values: Seq<JsonView>)
    ensures
        json::text_field(message, "channel_id"@) matches Some(id) ==> discord::channel_of(message)
            == id,
        json::field(message, "attachments"@) == Some(JsonView::Array(values))
            ==> discord::attachments_of(message) == discord::attachments_in(values),
        json::field(message, "attachments"@) is None ==> discord::attachments_of(message).len() == 0,
{
}

} // verus!
