//! What holds of what goes to the model and to the window, whatever the messages.

use vstd::prelude::*;
use crate::chat;
use crate::chat::{
    BeforeLlmRequestMessage, ChatErrorEvent, LlmChatMessage, VisionObservation,
};
use crate::context;
use crate::context::UserProfileSettings;
use crate::history::Message;
use crate::json;
use crate::json::JsonView;
use crate::memory;
use crate::memory::MemoryTasks;
use crate::text;
use crate::text_laws;

verus! {

broadcast use vstd::string::group_string_axioms;

/// A reply says nothing just where it is blank or is the word `pass`, in any case
/// and with any white space around it.
pub proof fn lemma_says_nothing(reply: Seq<char>)
    ensures
        ({
            let word = text::trim(reply);
            chat::says_nothing(reply) <==> text_laws::all_white(reply) || (word.len() == 4 && (word[0]
                == 'p' || word[0] == 'P') && (word[1] == 'a' || word[1] == 'A') && (word[2] == 's'
                || word[2] == 'S') && (word[3] == 's' || word[3] == 'S'))
        }),
{
    reveal_strlit("pass");
    let word = text::trim(reply);
    let low = chat::ascii_lower(word);
    text_laws::lemma_blank_is_white(reply);
    assert("pass"@ =~= seq!['p', 'a', 's', 's']);
    assert forall|c: char| 'A' <= c <= 'Z' implies (#[trigger] chat::ascii_lower_char(c)) as u32
        == c as u32 + 32 by {}
    if word.len() == 4 {
        assert(low[0] == chat::ascii_lower_char(word[0]));
        assert(low[1] == chat::ascii_lower_char(word[1]));
        assert(low[2] == chat::ascii_lower_char(word[2]));
        assert(low[3] == chat::ascii_lower_char(word[3]));
        if (word[0] == 'p' || word[0] == 'P') && (word[1] == 'a' || word[1] == 'A') && (word[2]
            == 's' || word[2] == 'S') && (word[3] == 's' || word[3] == 'S') {
            assert(low =~= "pass"@);
        }
        if low == "pass"@ {
            assert(low[0] == 'p' && low[1] == 'a' && low[2] == 's' && low[3] == 's');
        }
    } else {
        assert(low.len() == word.len());
    }
}

/// The user's last message is the one behind which none of theirs follows.
pub proof fn lemma_latest_user(
    before: Seq<LlmChatMessage>,
    message: LlmChatMessage,
    after: Seq<LlmChatMessage>,
)
    requires
        message.role@ == "user"@,
        forall|k: int| 0 <= k < after.len() ==> (#[trigger] after[k]).role@ != "user"@,
    ensures
        chat::latest_user(before.push(message) + after) == Some(before.len() as int),
        chat::latest_user(after) is None,
    decreases after.len(),
{
    let all = before.push(message) + after;
    if after.len() == 0 {
        assert(all =~= before.push(message));
    } else {
        let fewer = after.drop_last();
        assert(after[after.len() - 1].role@ != "user"@);
        assert forall|k: int| 0 <= k < fewer.len() implies (#[trigger] fewer[k]).role@ != "user"@ by {
            assert(fewer[k] == after[k]);
        }
        lemma_latest_user(before, message, fewer);
        assert(all.drop_last() =~= before.push(message) + fewer);
        assert(all.last() == after.last());
    }
}

/// What was seen on the screen stands right before the user's last message, and all
/// other messages stay where they are; without a message of the user it comes last.
pub proof fn lemma_vision_place(
    before: Seq<LlmChatMessage>,
    message: LlmChatMessage,
    after: Seq<LlmChatMessage>,
    seen: LlmChatMessage,
)
    requires
        message.role@ == "user"@,
        forall|k: int| 0 <= k < after.len() ==> (#[trigger] after[k]).role@ != "user"@,
    ensures
        chat::with_vision(before.push(message) + after, seen) == before + seq![seen, message]
            + after,
        chat::with_vision(after, seen) == after + seq![seen],
{
    lemma_latest_user(before, message, after);
    let all = before.push(message) + after;
    assert(chat::with_vision(all, seen) =~= before + seq![seen, message] + after);
    assert(chat::with_vision(after, seen) =~= after + seq![seen]);
}

/// A message keeps what was stored with it where it still stands in its place with
/// its role, and nothing else does.
pub proof fn lemma_kept_metadata(original: Seq<Message>, i: int, role: Seq<char>)
    requires
        0 <= i < original.len(),
    ensures
        original[i].role@ == role ==> chat::kept_metadata(original, i, role) == json::opt_json(
            original[i].metadata,
        ),
        original[i].role@ != role ==> chat::kept_metadata(original, i, role) is None,
        chat::kept_metadata(original, original.len() as int, role) is None,
{
}

/// What is kept of an observation beside its words.
pub proof fn lemma_observation(o: VisionObservation)
    ensures
        ({
            let kept = JsonView::Object(chat::observation_fields(o));
            &&& json::text_field(kept, "type"@) == Some("vision_observation"@)
            &&& json::text_field(kept, "observation_id"@) == Some(o.id@)
            &&& json::text_field(kept, "captured_at"@) == Some(o.captured_at@)
            &&& json::text_field(kept, "analyzed_at"@) == Some(o.analyzed_at@)
            &&& json::text_field(kept, "source"@) == Some(o.source@)
        }),
{
    reveal_strlit("type");
    reveal_strlit("observation_id");
    reveal_strlit("captured_at");
    reveal_strlit("analyzed_at");
    reveal_strlit("source");
    assert("type"@.len() == 4 && "observation_id"@.len() == 14 && "captured_at"@.len() == 11
        && "analyzed_at"@.len() == 11 && "source"@.len() == 6);
    assert("captured_at"@[0] == 'c' && "analyzed_at"@[0] == 'a');
    reveal_with_fuel(json::field_in, 6);
}

/// The file of an image of the local server is what stands behind `/vision/`; an
/// image of another server has none.
pub proof fn lemma_local_file(port: nat, name: Seq<char>, url: Seq<char>)
    requires
        text_laws::absent(name, "/vision/"@),
    ensures
        chat::local_file(
            "http://127.0.0.1:"@ + text::decimal(port) + "/vision/"@ + name,
            port as int,
        ) == Some(name),
        text_laws::absent(url, "http://127.0.0.1:"@ + text::decimal(port)) ==> chat::local_file(
            url,
            port as int,
        ) is None,
        text_laws::absent(url, "/vision/"@) ==> chat::local_file(url, port as int) is None,
{
    let server = "http://127.0.0.1:"@ + text::decimal(port);
    let pat = "/vision/"@;
    let s = server + pat + name;
    text_laws::lemma_where_it_stands(server, pat + name, url, server);
    assert(s =~= server + (pat + name));
    assert(text::matches_at(s, server, 0));
    assert(text::contains(s, server));
    lemma_server_name(port);
    text_laws::lemma_decimal(port);
    assert(server.last() == text::decimal(port)[text::decimal(port).len() - 1]);
    lemma_server_path(server, name);
    text_laws::lemma_find_absent(name, pat);
    text_laws::lemma_find_absent(url, pat);
}

proof fn lemma_server_name(port: nat)
    ensures
        text_laws::absent("http://127.0.0.1:"@ + text::decimal(port), "/vision/"@),
{
    reveal_strlit("http://127.0.0.1:");
    reveal_strlit("/vision/");
    let head = "http://127.0.0.1:"@;
    let digits = text::decimal(port);
    let s = head + digits;
    let pat = "/vision/"@;
    text_laws::lemma_decimal(port);
    assert forall|k: int| 0 <= k && k + pat.len() <= s.len() implies #[trigger] s.subrange(
        k,
        k + pat.len(),
    ) != pat by {
        assert(s.subrange(k, k + pat.len())[0] == s[k]);
        assert(s.subrange(k, k + pat.len())[1] == s[k + 1]);
        if k >= 17 {
            assert(s[k] == digits[k - 17]);
        } else if k + 1 < 17 {
            assert(s[k] == head[k] && s[k + 1] == head[k + 1]);
        } else {
            assert(s[k] == head[16]);
        }
    }
}

proof fn lemma_server_path(server: Seq<char>, name: Seq<char>)
    requires
        text_laws::absent(server, "/vision/"@),
        server.len() > 0,
        server.last() != 'n',
    ensures
        text::find(server + "/vision/"@ + name, "/vision/"@, 0) == Some(server.len() as int),
        (server + "/vision/"@ + name).skip(server.len() as int + 8) == name,
{
    reveal_strlit("/vision/");
    let pat = "/vision/"@;
    let s = server + pat + name;
    let at = server.len() as int;
    assert(s.subrange(at, at + pat.len()) =~= pat);
    assert(text::matches_at(s, pat, at));
    text::lemma_find_bounds(s, pat, 0);
    if let Some(k) = text::find(s, pat, 0) {
        if k < at {
            assert(s.subrange(k, k + 8) == pat);
            if k + 8 <= at {
                assert(server.subrange(k, k + 8) =~= s.subrange(k, k + 8));
            } else {
                assert(s.subrange(k, k + 8)[at - k] == s[at]);
                assert(s[at] == '/');
                assert(pat[at - k] == '/');
                assert(at - k == 7);
                assert(s.subrange(k, k + 8)[0] == s[k]);
                assert(s.subrange(k, k + 8)[6] == s[k + 6]);
            }
        }
    }
    assert(s.skip(at + 8) =~= name);
}

/// A length is kept as it is between its bounds, and moved to the nearer one outside
/// of them.
pub proof fn lemma_clamped(n: int, low: int, high: int)
    requires
        low <= high,
    ensures
        low <= context::clamped(n, low, high) <= high,
        low <= n <= high ==> context::clamped(n, low, high) == n,
        n < low ==> context::clamped(n, low, high) == low,
        n > high ==> context::clamped(n, low, high) == high,
{
}

/// The conversation that is summed up is told message by message, each as who said
/// it and what, all of them and in order.
pub proof fn lemma_transcript(messages: Seq<Message>, more: Message)
    requires
        messages.len() > 0,
    ensures
        context::summary_question(seq![more]) == "Summarize this conversation:\n\n"@ + (more.role@
            + seq![':', ' '] + more.content@),
        context::summary_question(messages.push(more)) == context::summary_question(messages).push(
            '\n',
        ) + (more.role@ + seq![':', ' '] + more.content@),
{
    reveal_strlit(": ");
    reveal_strlit("\n");
    assert(": "@ =~= seq![':', ' ']);
    let line = more.role@ + ": "@ + more.content@;
    let lines = context::transcript_lines(messages);
    assert(context::transcript_lines(messages.push(more)) =~= lines.push(line));
    assert(context::transcript_lines(seq![more]) =~= seq![line]);
    text_laws::lemma_join_more(lines, line, "\n"@);
    assert(context::summary_question(messages.push(more)) =~= context::summary_question(
        messages,
    ).push('\n') + line);
}

/// A summary is asked for in the language that is set, and in that of the users where
/// none is.
pub proof fn lemma_summary_language(language: Seq<char>)
    ensures
        text_laws::all_white(language) ==> context::language_rule(language)
            == "Write the summary in the language the users were speaking."@,
        !text_laws::all_white(language) ==> context::language_rule(language)
            == "Write the summary in "@ + text::trim(language)
            + ". If the conversation uses another language, translate or summarize it into "@
            + text::trim(language) + "."@,
{
    text_laws::lemma_blank_is_white(language);
}

/// While memory is on, extraction comes with every fifth message and consolidation
/// with every twentieth, and with no others.
pub proof fn lemma_every_fifth(event_due: bool, k: int, off: int)
    requires
        k > 0,
        0 < off < 5,
    ensures
        memory::tasks_due(true, event_due, 5 * k).periodic,
        !memory::tasks_due(true, event_due, 5 * k + off).periodic,
        !memory::tasks_due(true, event_due, 5 * k + off).consolidation,
        memory::tasks_due(true, event_due, 20 * k).consolidation,
        memory::tasks_due(true, event_due, 5 * k).consolidation <==> k % 4 == 0,
        memory::tasks_due(true, event_due, 0) == (MemoryTasks {
            event: event_due,
            periodic: false,
            consolidation: false,
        }),
        memory::tasks_due(true, event_due, 5 * k).event == event_due,
        memory::tasks_due(true, event_due, 5 * k + off).event == event_due,
{
}

/// What the window is told of an error.
pub proof fn lemma_error_value(event: ChatErrorEvent)
    ensures
        ({
            let value = chat::error_value(event);
            &&& json::text_field(value, "code"@) == Some(event.code@)
            &&& json::text_field(value, "stage"@) == Some(event.stage@)
            &&& json::bool_field(value, "retryable"@) == Some(event.retryable)
            &&& json::text_field(value, "trace_id"@) == Some(event.trace_id@)
            &&& json::text_field(value, "message"@) == Some(event.message@)
        }),
{
    reveal_strlit("code");
    reveal_strlit("stage");
    reveal_strlit("retryable");
    reveal_strlit("trace_id");
    reveal_strlit("message");
    assert("code"@.len() == 4 && "stage"@.len() == 5 && "retryable"@.len() == 9 && "trace_id"@.len()
        == 8 && "message"@.len() == 7);
    reveal_with_fuel(json::field_in, 6);
}

/// A plain message holds its words and nothing else; the words of a message that hooks
/// see, and of one that they gave back, are those of the message.
pub proof fn lemma_messages(
    message: LlmChatMessage,
    role: Seq<char>,
    words: Seq<char>,
    shown: BeforeLlmRequestMessage,
    given: Message,
    original: Seq<Message>,
    i: int,
)
    ensures
        chat::is_plain(message, role, words) ==> message.role@ == role && message.text@ == words
            && message.images@.len() == 0 && message.tool_calls@.len() == 0
            && message.tool_call_id is None && message.reasoning_content is None
            && message.provider_data@.len() == 0,
        chat::same_words(shown, given) <==> shown.role@ == given.role@ && shown.content@
            == given.content@,
        chat::applied(given, shown, original, i) ==> given.role@ == shown.role@ && given.content@
            == shown.content@ && json::opt_json(given.metadata) == chat::kept_metadata(
            original,
            i,
            shown.role@,
        ),
{
}

/// Putting images into a message changes nothing else of it.
pub proof fn lemma_with_images(message: LlmChatMessage, images: Vec<String>)
    ensures
        chat::with_images(message, images).images == images,
        chat::with_images(message, images).role == message.role,
        chat::with_images(message, images).text == message.text,
        chat::with_images(message, images).tool_calls == message.tool_calls,
        chat::with_images(message, images).tool_call_id == message.tool_call_id,
        chat::with_images(message, images).reasoning_content == message.reasoning_content,
        chat::with_images(message, images).provider_data == message.provider_data,
{
}

/// The user is called `User` until they say more of themselves.
pub proof fn lemma_default_profile(settings: UserProfileSettings)
    ensures
        context::is_default_profile(settings) <==> settings.user_name@ == "User"@
            && settings.user_persona@ == Seq::<char>::empty(),
{
    if settings.user_persona@.len() == 0 {
        assert(settings.user_persona@ =~= Seq::<char>::empty());
    }
}

/// What is asked of the one who sums up: a short summary, in the right language.
pub proof fn lemma_summary_instruction(language: Seq<char>)
    ensures
        context::summary_instruction(language)
            == "You are a conversation summarizer. Write a brief 2-3 sentence summary of this conversation. "@
            + context::language_rule(language)
            + " Focus on key topics discussed, any emotional moments, and important information shared. Write from a third-person perspective.\nOutput ONLY the summary, no labels or formatting."@,
{
}

/// The name of a file ends where the server's path comes a second time.
pub proof fn lemma_local_file_end(port: nat, name: Seq<char>, more: Seq<char>)
    requires
        text_laws::absent(name, "/vision/"@),
        name.len() > 0,
        name.last() != 'n',
    ensures
        chat::local_file(
            "http://127.0.0.1:"@ + text::decimal(port) + "/vision/"@ + (name + "/vision/"@ + more),
            port as int,
        ) == Some(name),
{
    let server = "http://127.0.0.1:"@ + text::decimal(port);
    let pat = "/vision/"@;
    let rest = name + pat + more;
    let s = server + pat + rest;
    text_laws::lemma_where_it_stands(server, pat + rest, s, server);
    assert(s =~= server + (pat + rest));
    assert(text::matches_at(s, server, 0));
    assert(text::contains(s, server));
    lemma_server_name(port);
    text_laws::lemma_decimal(port);
    assert(server.last() == text::decimal(port)[text::decimal(port).len() - 1]);
    lemma_server_path(server, rest);
    lemma_server_path(name, more);
    assert(rest.take(name.len() as int) =~= name);
}

} // verus!
