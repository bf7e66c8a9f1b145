//! What holds of a turn of the chat and of a bot's reply as a whole, whatever the
//! model says.

use vstd::prelude::*;
use crate::bot_reply;
use crate::bot_reply::{ReplyStyle, ResponseParts, RoundsView};
use crate::chat;
use crate::chat::{LlmChatMessage, LlmToolCall};
use crate::chat_turn;
use crate::chat_turn::{ChatTurnView, ProviderFlags};
use crate::cleaning_laws;
use crate::encoding;
use crate::json;
use crate::json::{JsonValue, JsonView};
use crate::media::{BotReplyImage, GeneratedBotImage};
use crate::reply_laws;
use crate::reply_text;
use crate::tag_laws;
use crate::tags;
use crate::tags::CallView;
use crate::telegram_text;
use crate::text;
use crate::text_laws;

verus! {

broadcast use vstd::string::group_string_axioms;

/// A bracket that is no tool call.
proof fn lemma_other_bracket(a: Seq<char>, inner: Seq<char>, b: Seq<char>, tight: bool)
    requires
        !a.contains('['),
        !b.contains('['),
        !inner.contains('['),
        !inner.contains(']'),
        !inner.contains('|'),
        inner.len() >= 2,
        inner[1] != 'O',
    ensures
        tags::found_calls(a.push('[') + (inner.push(']') + b), tight) == (
            a.push('[') + (inner.push(']') + b),
            Seq::<(int, CallView)>::empty(),
        ),
{
    reveal_strlit("[TOOL_CALL:");
    let s = a.push('[') + (inner.push(']') + b);
    let pat = "[TOOL_CALL:"@;
    let at = a.len() as int;
    assert forall|k: int| 0 <= k < s.len() && k != at implies #[trigger] s[k] != '[' by {
        if k < at {
            assert(a.contains(a[k]));
        } else if k - at - 1 < inner.len() {
            assert(s[k] == inner[k - at - 1]);
            assert(inner.contains(inner[k - at - 1]));
        } else if k - at - 1 > inner.len() {
            assert(s[k] == b[k - at - 2 - inner.len()]);
            assert(b.contains(b[k - at - 2 - inner.len()]));
        }
    }
    text::lemma_rfind_bounds(s, pat, s.len() as int);
    if let Some(k) = text::rfind(s, pat, s.len() as int) {
        assert(s.subrange(k, k + pat.len())[0] == s[k]);
        assert(s.subrange(k, k + pat.len())[2] == s[k + 2]);
        assert(s[at + 2] == inner[1]);
    }
    tag_laws::lemma_short_call(inner, Seq::empty());
    assert forall|k: int| 0 <= k < a.len() implies #[trigger] a[k] != '[' by {
        assert(a.contains(a[k]));
    }
    tag_laws::lemma_bracket_stays(a, inner, b, 0, tight);
    text_laws::lemma_find_char_absent(s, '[', at + 1);
    assert(tags::found_calls(s, tight).1 =~= Seq::<(int, CallView)>::empty());
}

/// A text without white space at its outer ends.
pub open spec fn tidy(a: Seq<char>, b: Seq<char>) -> bool {
    (a.len() > 0 ==> !text::white(a[0])) && (b.len() > 0 ==> !text::white(b.last()))
}

/// No tag of any kind stands in the text.
pub open spec fn untagged(s: Seq<char>) -> bool {
    !s.contains('[') && !s.contains('<')
}

proof fn lemma_sum_untagged(a: Seq<char>, b: Seq<char>)
    requires
        untagged(a),
        untagged(b),
    ensures
        untagged(a + b),
        untagged(text::trim_end(a)),
        untagged(text::trim_start(a)),
        untagged(text::trim(a)),
{
    assert forall|k: int| 0 <= k < (a + b).len() implies (a + b)[k] != '[' && (a + b)[k] != '<' by {
        if k < a.len() {
            assert(a.contains(a[k]));
        } else {
            assert(b.contains(b[k - a.len()]));
        }
    }
    text::lemma_trim_end_len(a);
    text::lemma_trim_start_len(a);
    text::lemma_trim_brings_nothing(a, '[');
    text::lemma_trim_brings_nothing(a, '<');
    let e = text::trim_end(a);
    assert forall|k: int| 0 <= k < e.len() implies e[k] != '[' && e[k] != '<' by {
        assert(e[k] == a[k]);
        assert(a.contains(a[k]));
    }
    let t = text::trim_start(a);
    assert forall|k: int| 0 <= k < t.len() implies t[k] != '[' && t[k] != '<' by {
        assert(t[k] == a[k + a.len() - t.len()]);
        assert(a.contains(a[k + a.len() - t.len()]));
    }
}

proof fn lemma_untagged_scans(s: Seq<char>)
    requires
        untagged(s),
    ensures
        text_laws::absent(s, "[TRANSLATE:"@),
        text_laws::absent(s, "[IMAGE_PROMPT:"@),
        text_laws::absent(s, "<tool_result>"@),
        reply_text::translated(s) == (text::trim(s), None::<Seq<char>>),
        reply_text::image_prompt_scan(s, Seq::empty()) == (s, Seq::<Seq<char>>::empty()),
        reply_text::leaked_scan(s) == s,
{
    reveal_strlit("[TRANSLATE:");
    reveal_strlit("[IMAGE_PROMPT:");
    reveal_strlit("<tool_result>");
    lemma_absent_by_first(s, "[TRANSLATE:"@);
    lemma_absent_by_first(s, "[IMAGE_PROMPT:"@);
    lemma_absent_by_first(s, "<tool_result>"@);
    reply_laws::lemma_no_translation(s);
    reply_laws::lemma_no_image_prompt(s, Seq::empty());
    reply_laws::lemma_no_leaked_result(s);
}

proof fn lemma_absent_by_first(s: Seq<char>, pat: Seq<char>)
    requires
        pat.len() > 0,
        !s.contains(pat[0]),
    ensures
        text_laws::absent(s, pat),
{
    assert forall|k: int| 0 <= k && k + pat.len() <= s.len() implies #[trigger] s.subrange(
        k,
        k + pat.len(),
    ) != pat by {
        assert(s.subrange(k, k + pat.len())[0] == s[k]);
        assert(s.contains(s[k]));
    }
}

/// A response with one translation in it: the text around it is shown, in its order
/// and without white space where it meets, the translation is the one in the tag,
/// and no tool is called.
pub proof fn lemma_response_with_translation(a: Seq<char>, t: Seq<char>, b: Seq<char>)
    requires
        untagged(a),
        untagged(b),
        tidy(a, b),
        !t.contains('['),
        !t.contains(']'),
        !t.contains('|'),
    ensures
        ({
            let response = a + "[TRANSLATE:"@ + (t.push(']') + b);
            let shown = text::trim(text::trim_end(a) + text::trim_start(b));
            let translation = if text::trim(t).len() > 0 {
                Some(text::trim(t))
            } else {
                None
            };
            &&& chat_turn::chat_parts(response) == (shown, translation, Seq::<CallView>::empty())
            &&& forall|style: ReplyStyle|
                #![trigger bot_reply::response_parts(style, response)]
                bot_reply::response_parts(style, response) == (ResponseParts {
                    shown,
                    translation,
                    image_prompts: Seq::empty(),
                    calls: Seq::empty(),
                })
        }),
{
    reveal_strlit("[TRANSLATE:");
    let pat = "[TRANSLATE:"@;
    let inner = pat.skip(1) + t;
    let response = a + pat + (t.push(']') + b);
    assert(response =~= a.push('[') + (inner.push(']') + b));
    lemma_opening_inside(pat, t);
    assert(inner[1] == pat[2]);
    lemma_other_bracket(a, inner, b, false);
    lemma_other_bracket(a, inner, b, true);
    assert(!text::white('[') && !text::white(']'));
    assert(response[0] == (if a.len() > 0 {
        a[0]
    } else {
        '['
    }));
    assert(response.last() == (if b.len() > 0 {
        b.last()
    } else {
        ']'
    }));
    text::lemma_trim_fixed(response);
    assert(tags::tool_calls_of(response).1 =~= Seq::<CallView>::empty());
    assert(telegram_text::tool_calls_of(response).1 =~= Seq::<CallView>::empty());
    lemma_sum_untagged(a, b);
    lemma_sum_untagged(b, a);
    lemma_sum_untagged(text::trim_end(a), text::trim_start(b));
    let rest = text::trim_end(a) + text::trim_start(b);
    lemma_untagged_scans(a);
    lemma_untagged_scans(rest);
    reply_laws::lemma_one_translation(a, t, b);
    let shown = text::trim(rest);
    lemma_sum_untagged(rest, Seq::empty());
    lemma_untagged_scans(shown);
    text::lemma_trim_idempotent(rest);
}

proof fn lemma_opening_inside(pat: Seq<char>, t: Seq<char>)
    requires
        pat.len() > 0,
        forall|k: int| 0 < k < pat.len() ==> pat[k] != '[' && pat[k] != ']' && #[trigger] pat[k] != '|',
        !t.contains('['),
        !t.contains(']'),
        !t.contains('|'),
    ensures
        !(pat.skip(1) + t).contains('['),
        !(pat.skip(1) + t).contains(']'),
        !(pat.skip(1) + t).contains('|'),
{
    let inner = pat.skip(1) + t;
    assert forall|k: int| 0 <= k < inner.len() implies inner[k] != '[' && inner[k] != ']'
        && inner[k] != '|' by {
        if k + 1 < pat.len() {
            assert(inner[k] == pat[k + 1]);
        } else {
            assert(inner[k] == t[k + 1 - pat.len()]);
            assert(t.contains(t[k + 1 - pat.len()]));
        }
    }
}

/// A response with one image prompt in it: a bot takes it out, keeps the text around
/// it with one space between, and asks for that image.
pub proof fn lemma_response_with_image_prompt(a: Seq<char>, t: Seq<char>, b: Seq<char>)
    requires
        untagged(a),
        untagged(b),
        tidy(a, b),
        !t.contains('['),
        !t.contains(']'),
        !t.contains('|'),
    ensures
        ({
            let response = a + "[IMAGE_PROMPT:"@ + (t.push(']') + b);
            let l = text::trim_end(a);
            let r = text::trim_start(b);
            let gap = if l.len() == 0 || r.len() == 0 {
                Seq::<char>::empty()
            } else {
                seq![' ']
            };
            bot_reply::response_parts(ReplyStyle::Bot, response) == (ResponseParts {
                shown: text::trim(l + gap + r),
                translation: None,
                image_prompts: if text::trim(t).len() > 0 {
                    seq![text::trim(t)]
                } else {
                    Seq::empty()
                },
                calls: Seq::empty(),
            })
        }),
{
    reveal_strlit("[IMAGE_PROMPT:");
    reveal_strlit("[TRANSLATE:");
    let pat = "[IMAGE_PROMPT:"@;
    let inner = pat.skip(1) + t;
    let response = a + pat + (t.push(']') + b);
    assert(response =~= a.push('[') + (inner.push(']') + b));
    lemma_opening_inside(pat, t);
    assert(inner[1] == pat[2]);
    lemma_other_bracket(a, inner, b, false);
    assert(!text::white('[') && !text::white(']'));
    assert(response[0] == (if a.len() > 0 {
        a[0]
    } else {
        '['
    }));
    assert(response.last() == (if b.len() > 0 {
        b.last()
    } else {
        ']'
    }));
    text::lemma_trim_fixed(response);
    assert(tags::tool_calls_of(response).1 =~= Seq::<CallView>::empty());
    assert(text_laws::absent(response, "[TRANSLATE:"@)) by {
        let other = "[TRANSLATE:"@;
        let at = a.len() as int;
        assert forall|k: int| 0 <= k && k + other.len() <= response.len() implies #[trigger] response.subrange(
            k,
            k + other.len(),
        ) != other by {
            assert(response.subrange(k, k + other.len())[0] == response[k]);
            assert(response.subrange(k, k + other.len())[1] == response[k + 1]);
            if k < at {
                assert(a.contains(a[k]));
            } else if k == at {
                assert(response[k + 1] == pat[1]);
            } else if k - at - 1 < inner.len() {
                assert(response[k] == inner[k - at - 1]);
                assert(inner.contains(inner[k - at - 1]));
            } else if k - at - 1 > inner.len() {
                assert(response[k] == b[k - at - 2 - inner.len()]);
                assert(b.contains(b[k - at - 2 - inner.len()]));
            }
        }
    }
    reply_laws::lemma_no_translation(response);
    let l = text::trim_end(a);
    let r = text::trim_start(b);
    let gap = if l.len() == 0 || r.len() == 0 {
        Seq::<char>::empty()
    } else {
        seq![' ']
    };
    lemma_untagged_scans(a);
    lemma_sum_untagged(a, b);
    lemma_sum_untagged(b, a);
    assert(untagged(gap)) by {
        assert forall|k: int| 0 <= k < gap.len() implies gap[k] != '[' && gap[k] != '<' by {}
    }
    lemma_sum_untagged(l, gap);
    lemma_sum_untagged(l + gap, r);
    let rest = l + gap + r;
    let none = Seq::<Seq<char>>::empty();
    reply_laws::lemma_image_prompt_taken(a, t, b, none);
    let found = if text::trim(t).len() == 0 {
        none
    } else {
        none.push(text::trim(t))
    };
    lemma_untagged_scans(rest);
    reply_laws::lemma_no_image_prompt(rest, found);
    assert(none.push(text::trim(t)) =~= seq![text::trim(t)]);
    lemma_sum_untagged(rest, Seq::empty());
    lemma_untagged_scans(text::trim(rest));
    text::lemma_trim_idempotent(rest);
}

/// A response with tool calls in it: all of them are made, in their order, and the
/// text between them is shown.
pub proof fn lemma_response_with_calls(plains: Seq<Seq<char>>, inners: Seq<Seq<char>>)
    requires
        tag_laws::plain_pieces(plains, inners),
        forall|i: int| 0 <= i < plains.len() ==> !(#[trigger] plains[i]).contains('<'),
    ensures
        ({
            let response = tag_laws::with_tags("[TOOL_CALL:"@, plains, inners);
            let (shown, translation, calls) = chat_turn::chat_parts(response);
            let parts = bot_reply::response_parts(ReplyStyle::Bot, response);
            &&& shown == text::trim(tag_laws::in_a_row(plains))
            &&& translation is None
            &&& calls.len() == inners.len()
            &&& forall|i: int|
                0 <= i < inners.len() ==> #[trigger] calls[i] == tags::call_of(inners[i])
            &&& parts.shown == shown
            &&& parts.translation is None
            &&& parts.image_prompts.len() == 0
            &&& parts.calls == calls
        }),
{
    let response = tag_laws::with_tags("[TOOL_CALL:"@, plains, inners);
    tag_laws::lemma_reply_with_explicit_tags(plains, inners);
    let row = tag_laws::in_a_row(plains);
    lemma_row_untagged(plains);
    lemma_sum_untagged(row, Seq::empty());
    lemma_untagged_scans(text::trim(row));
    text::lemma_trim_idempotent(row);
}

proof fn lemma_row_untagged(plains: Seq<Seq<char>>)
    requires
        forall|i: int|
            0 <= i < plains.len() ==> !(#[trigger] plains[i]).contains('[') && !plains[i].contains('<'),
    ensures
        untagged(tag_laws::in_a_row(plains)),
    decreases plains.len(),
{
    if plains.len() > 0 {
        let before = plains.drop_last();
        assert forall|i: int| 0 <= i < before.len() implies !(#[trigger] before[i]).contains('[')
            && !before[i].contains('<') by {
            assert(before[i] == plains[i]);
        }
        lemma_row_untagged(before);
        assert(!plains[plains.len() - 1].contains('['));
        lemma_sum_untagged(tag_laws::in_a_row(before), plains.last());
    }
}

/// A response adds to a turn, and takes nothing away: the text so far stays in front
/// and the new text comes behind it, a translation is added to those before, thoughts
/// go behind thoughts, and nothing else of the turn changes.
pub proof fn lemma_turn_only_adds(turn: ChatTurnView, response: Seq<char>, reasoning: Seq<char>)
    ensures
        ({
            let next = chat_turn::with_response(turn, response, reasoning);
            let (shown, translation, calls) = chat_turn::chat_parts(response);
            &&& turn.all_text.is_prefix_of(next.all_text)
            &&& text::trim(shown).is_suffix_of(next.all_text)
            &&& next.all_text.len() <= turn.all_text.len() + text::trim(shown).len() + 1
            &&& next.translations == turn.translations + (match translation {
                Some(t) => seq![t],
                None => Seq::<Seq<char>>::empty(),
            })
            &&& next.reasoning == turn.reasoning + reasoning
            &&& next == (ChatTurnView {
                all_text: next.all_text,
                translations: next.translations,
                reasoning: next.reasoning,
                ..turn
            })
        }),
{
    let next = chat_turn::with_response(turn, response, reasoning);
    let (shown, translation, calls) = chat_turn::chat_parts(response);
    reply_laws::lemma_rounds_merge(turn.all_text, shown);
    assert(next.translations =~= turn.translations + (match translation {
        Some(t) => seq![t],
        None => Seq::<Seq<char>>::empty(),
    }));
}

/// The first provider with an id says whether it takes tools; where none has it, the
/// provider itself is believed.
pub proof fn lemma_native_tools(
    before: Seq<ProviderFlags>,
    provider: ProviderFlags,
    after: Seq<ProviderFlags>,
    id: Seq<char>,
    otherwise: bool,
)
    requires
        forall|k: int| 0 <= k < before.len() ==> (#[trigger] before[k]).id@ != id,
        provider.id@ == id,
    ensures
        chat_turn::native_tools(before, id, otherwise) == otherwise,
        chat_turn::native_tools(before.push(provider) + after, id, otherwise)
            == provider.supports_native_tools,
    decreases before.len(),
{
    let all = before.push(provider) + after;
    if before.len() > 0 {
        let rest = before.drop_first();
        assert(before[0].id@ != id);
        assert forall|k: int| 0 <= k < rest.len() implies (#[trigger] rest[k]).id@ != id by {
            assert(rest[k] == before[k + 1]);
        }
        lemma_native_tools(rest, provider, after, id, otherwise);
        assert(all.drop_first() =~= rest.push(provider) + after);
    }
}

/// A reply is stored while it grows just where the turn is shown, goes on, and has
/// something to say apart from leaked tool results.
pub proof fn lemma_drafts(turn: ChatTurnView)
    ensures
        turn.hidden ==> !chat_turn::drafts(turn, false),
        !chat_turn::drafts(turn, true),
        untagged(turn.all_text) && !turn.hidden ==> (chat_turn::drafts(turn, false)
            <==> !text_laws::all_white(turn.all_text)),
        untagged(turn.all_text) ==> chat_turn::reply_of(turn.all_text) == text::trim(turn.all_text),
{
    text_laws::lemma_blank_is_white(turn.all_text);
    if untagged(turn.all_text) {
        lemma_untagged_scans(turn.all_text);
    }
}

/// What the tools gave is told line by line, and translations are put together word
/// by word, all of them and in order.
pub proof fn lemma_put_together(lines: Seq<Seq<char>>, more: Seq<char>, turn: ChatTurnView)
    requires
        lines.len() > 0,
    ensures
        chat_turn::told(lines) == "[Tool results]\n"@ + text::join(lines, "\n"@),
        chat_turn::told(seq![more]) == "[Tool results]\n"@ + more,
        chat_turn::told(lines.push(more)) == chat_turn::told(lines).push('\n') + more,
        chat_turn::translation_of(ChatTurnView { translations: Seq::empty(), ..turn }) is None,
        chat_turn::translation_of(ChatTurnView { translations: seq![more], ..turn }) == Some(more),
        chat_turn::translation_of(ChatTurnView { translations: lines.push(more), ..turn }) == Some(
            chat_turn::translation_of(ChatTurnView { translations: lines, ..turn })->0.push(' ')
                + more,
        ),
{
    reveal_strlit("\n");
    reveal_strlit(" ");
    text_laws::lemma_join_more(lines, more, "\n"@);
    text_laws::lemma_join_more(lines, more, " "@);
    let words = text::join(lines, " "@);
    assert(words + " "@ + more =~= words.push(' ') + more);
    assert(chat_turn::told(lines.push(more)) =~= chat_turn::told(lines).push('\n') + more);
}

/// All that a turn stored is known at its end: the messages with calls and results
/// in their order, and the draft.
pub proof fn lemma_stored_messages(turn: ChatTurnView, id: i64)
    ensures
        chat_turn::stored_messages(ChatTurnView { draft: None, ..turn }) == turn.rows,
        chat_turn::stored_messages(ChatTurnView { draft: Some(id), ..turn }) == turn.rows + seq![id],
{
    assert(turn.rows.push(id) =~= turn.rows + seq![id]);
}

/// A reply is translated afterwards just where the model gave no translation of it
/// and the two languages are known and not the same.
pub proof fn lemma_wants_translation(turn: ChatTurnView, user: Seq<char>, reply: Seq<char>)
    ensures
        turn.translations.len() > 0 ==> !chat_turn::wants_translation(turn, user, reply),
        !chat_turn::wants_translation(turn, user, user),
        !chat_turn::wants_translation(turn, Seq::empty(), reply),
        !chat_turn::wants_translation(turn, user, Seq::empty()),
        turn.translations.len() == 0 && user.len() > 0 && reply.len() > 0 && user != reply ==> (
        chat_turn::wants_translation(turn, user, reply) <==> chat_turn::reply_of(
            turn.all_text,
        ).len() > 0),
{
}

/// A turn is reported as failed just where the model failed and nothing came of it.
pub proof fn lemma_finish_status(turn: ChatTurnView)
    ensures
        turn.stream_failed && chat_turn::reply_of(turn.all_text).len() == 0
            ==> chat_turn::finish_status(turn) == "error"@,
        !turn.stream_failed ==> chat_turn::finish_status(turn) == "completed"@,
        chat_turn::reply_of(turn.all_text).len() > 0 ==> chat_turn::finish_status(turn)
            == "completed"@,
{
}

proof fn lemma_event_keys()
    ensures
        "turn_id"@ != "client_request_id"@,
        "turn_id"@ != "conversation_id"@,
        "turn_id"@ != "user_message_id"@,
        "client_request_id"@ != "conversation_id"@,
        "client_request_id"@ != "user_message_id"@,
        "conversation_id"@ != "user_message_id"@,
        "turn_id"@ != "text"@,
        "turn_id"@ != "translation_pending"@,
        "turn_id"@ != "translation"@,
        "text"@ != "translation_pending"@,
        "text"@ != "translation"@,
        "translation_pending"@ != "translation"@,
        "turn_id"@ != "status"@,
        "turn_id"@ != "assistant_message_id"@,
        "status"@ != "client_request_id"@,
        "status"@ != "conversation_id"@,
        "status"@ != "assistant_message_id"@,
        "client_request_id"@ != "assistant_message_id"@,
        "conversation_id"@ != "assistant_message_id"@,
        "turn_id"@ != "reasoning_content"@,
        "turn_id"@ != "provider_data"@,
        "translation"@ != "reasoning_content"@,
        "translation"@ != "provider_data"@,
        "reasoning_content"@ != "provider_data"@,
        "type"@ != "turn_id"@,
        "type"@ != "tool_calls"@,
        "turn_id"@ != "tool_calls"@,
        "type"@ != "reasoning_content"@,
        "type"@ != "provider_data"@,
        "tool_calls"@ != "reasoning_content"@,
        "tool_calls"@ != "provider_data"@,
{
    reveal_strlit("turn_id");
    reveal_strlit("client_request_id");
    reveal_strlit("conversation_id");
    reveal_strlit("user_message_id");
    reveal_strlit("text");
    reveal_strlit("translation_pending");
    reveal_strlit("translation");
    reveal_strlit("status");
    reveal_strlit("assistant_message_id");
    reveal_strlit("reasoning_content");
    reveal_strlit("provider_data");
    reveal_strlit("type");
    reveal_strlit("tool_calls");
    assert("turn_id"@.len() == 7 && "client_request_id"@.len() == 17 && "conversation_id"@.len() == 15
        && "user_message_id"@.len() == 15);
    assert("text"@.len() == 4 && "translation_pending"@.len() == 19 && "translation"@.len() == 11
        && "status"@.len() == 6 && "assistant_message_id"@.len() == 20);
    assert("reasoning_content"@.len() == 17 && "provider_data"@.len() == 13 && "type"@.len() == 4
        && "tool_calls"@.len() == 10);
    assert("conversation_id"@[0] == 'c' && "user_message_id"@[0] == 'u');
    assert("client_request_id"@[0] == 'c' && "reasoning_content"@[0] == 'r');
}

/// What the event at the beginning of a turn says.
pub proof fn lemma_start_event(turn: ChatTurnView, id: Option<i64>)
    ensures
        ({
            let event = chat_turn::start_event(turn, id);
            &&& json::text_field(event, "turn_id"@) == Some(turn.turn_id)
            &&& json::text_field(event, "client_request_id"@) == turn.client_request_id
            &&& json::text_field(event, "conversation_id"@) == Some(turn.conversation_id)
            &&& json::int_field(event, "user_message_id"@) == id
        }),
{
    lemma_event_keys();
    reveal_with_fuel(json::field_in, 5);
    if let Some(n) = id {
        lemma_int_value(n);
    }
}

proof fn lemma_int_value(n: i64)
    ensures
        json::int_value(n) matches JsonView::Number(signed, _, _) && signed == Some(n),
{
}

/// What the event says that tells of a reply's text.
pub proof fn lemma_complete_event(
    turn_id: Seq<char>,
    reply: Seq<char>,
    pending: bool,
    translation: Option<Seq<char>>,
)
    ensures
        ({
            let event = chat_turn::complete_event(turn_id, reply, pending, translation);
            &&& json::text_field(event, "turn_id"@) == Some(turn_id)
            &&& json::text_field(event, "text"@) == Some(reply)
            &&& json::bool_field(event, "translation_pending"@) == Some(pending)
            &&& json::text_field(event, "translation"@) == translation
        }),
{
    lemma_event_keys();
    reveal_with_fuel(json::field_in, 5);
}

/// What the event at the end of a turn says.
pub proof fn lemma_finish_event(turn: ChatTurnView, status: Seq<char>, id: Option<i64>)
    ensures
        ({
            let event = chat_turn::finish_event(turn, status, id);
            &&& json::text_field(event, "turn_id"@) == Some(turn.turn_id)
            &&& json::text_field(event, "status"@) == Some(status)
            &&& json::text_field(event, "client_request_id"@) == turn.client_request_id
            &&& json::text_field(event, "conversation_id"@) == Some(turn.conversation_id)
            &&& json::int_field(event, "assistant_message_id"@) == id
        }),
{
    lemma_event_keys();
    reveal_with_fuel(json::field_in, 6);
    if let Some(n) = id {
        lemma_int_value(n);
    }
}

/// What is kept with a finished reply: its turn, its translation, the model's
/// thoughts, and what belongs to the provider alone, each where there is any.
pub proof fn lemma_reply_metadata(turn: ChatTurnView)
    ensures
        ({
            let kept = chat_turn::reply_metadata(turn);
            &&& json::text_field(kept, "turn_id"@) == Some(turn.turn_id)
            &&& json::text_field(kept, "translation"@) == chat_turn::translation_of(turn)
            &&& json::text_field(kept, "reasoning_content"@) == (if text_laws::all_white(
                turn.reasoning,
            ) {
                None
            } else {
                Some(turn.reasoning)
            })
            &&& json::field(kept, "provider_data"@) == (if turn.provider_data.len() == 0 {
                None
            } else {
                Some(JsonView::Array(turn.provider_data))
            })
        }),
{
    lemma_event_keys();
    text_laws::lemma_blank_is_white(turn.reasoning);
    reveal_with_fuel(json::field_in, 5);
}

/// What is kept with a message that makes tool calls: its type and turn, the calls,
/// the model's thoughts, and what belongs to the provider alone.
pub proof fn lemma_calls_metadata(
    turn_id: Seq<char>,
    calls: Seq<JsonView>,
    reasoning: Seq<char>,
    data: Seq<JsonView>,
)
    ensures
        ({
            let kept = chat_turn::calls_metadata(turn_id, calls, reasoning, data);
            &&& json::text_field(kept, "type"@) == Some("assistant_tool_calls"@)
            &&& json::text_field(kept, "turn_id"@) == Some(turn_id)
            &&& json::field(kept, "tool_calls"@) == Some(JsonView::Array(calls))
            &&& json::text_field(kept, "reasoning_content"@) == (if text_laws::all_white(reasoning) {
                None
            } else {
                Some(reasoning)
            })
            &&& json::field(kept, "provider_data"@) == (if data.len() == 0 {
                None
            } else {
                Some(JsonView::Array(data))
            })
        }),
{
    lemma_event_keys();
    text_laws::lemma_blank_is_white(reasoning);
    reveal_with_fuel(json::field_in, 6);
}

proof fn lemma_not_in_front(s: Seq<char>, pattern: Seq<char>)
    requires
        pattern.len() > 0,
        s.len() > 0,
        s[0] != pattern[0],
    ensures
        chat_turn::without_start(s, pattern) == s,
        chat_turn::without_start(pattern + s, pattern) == s,
{
    if text::starts_with(s, pattern) {
        assert(s.subrange(0, pattern.len() as int)[0] == s[0]);
    }
    let all = pattern + s;
    assert(all.subrange(0, pattern.len() as int) =~= pattern);
    assert(all.skip(pattern.len() as int) =~= s);
}

proof fn lemma_not_at_end(s: Seq<char>, pattern: Seq<char>)
    requires
        pattern.len() > 0,
        s.len() > 0,
        s.last() != pattern.last(),
    ensures
        chat_turn::without_end(s, pattern) == s,
        chat_turn::without_end(s + pattern, pattern) == s,
{
    let n = pattern.len() as int;
    if text::ends_with(s, pattern) {
        assert(s.subrange(s.len() - n, s.len() as int)[n - 1] == s[s.len() - 1]);
    }
    let all = s + pattern;
    assert(all.subrange(all.len() - n, all.len() as int) =~= pattern);
    assert(all.take(all.len() - n) =~= s);
}

/// Marks for code around a reply are taken off, and nothing of what they enclose.
pub proof fn lemma_code_fence(lead: Seq<char>, body: Seq<char>, tail: Seq<char>)
    requires
        text_laws::all_white(lead),
        text_laws::all_white(tail),
        body.len() > 0,
        body[0] != '`' && body[0] != 'j',
        body.last() != '`',
        !text::white(body[0]),
        !text::white(body.last()),
    ensures
        chat_turn::unfenced(lead + ("```json"@ + (body + "```"@)) + tail) == body,
        chat_turn::unfenced(lead + ("```"@ + (body + "```"@)) + tail) == body,
        chat_turn::unfenced(lead + body + tail) == body,
{
    reveal_strlit("```json");
    reveal_strlit("```");
    let j = "```json"@;
    let f = "```"@;
    let inside = body + f;
    assert(!text::white('`'));
    assert(inside[0] == body[0] && inside.last() == '`');
    text_laws::lemma_trim_core(lead, j + inside, tail);
    text_laws::lemma_trim_core(lead, f + inside, tail);
    text_laws::lemma_trim_core(lead, body, tail);
    lemma_not_in_front(inside, j);
    lemma_not_in_front(inside, f);
    lemma_not_in_front(body, j);
    lemma_not_in_front(body, f);
    lemma_not_at_end(body, f);
    let plain = f + inside;
    if text::starts_with(plain, j) {
        assert(plain.subrange(0, j.len() as int)[3] == plain[3]);
        assert(plain[3] == inside[0]);
    }
}

/// The cue of a reply is played just where it is one that the model has.
pub proof fn lemma_named_cue(value: JsonView, cue: Seq<char>, cues: Seq<Seq<char>>)
    requires
        json::text_field(value, "cue"@) == Some(cue),
    ensures
        chat_turn::named_cue(Some(value), Some(cues)) == (if exists|k: int|
            0 <= k < cues.len() && #[trigger] cues[k] == text::trim(cue) {
            Some(text::trim(cue))
        } else {
            None
        }),
        chat_turn::named_cue(Some(value), None) is None,
        chat_turn::named_cue(None, Some(cues)) is None,
{
}

/// A turn has nothing to say just where it is hidden and its reply is blank or says
/// that it passes.
pub proof fn lemma_noop(turn: ChatTurnView)
    ensures
        !turn.hidden ==> !chat_turn::is_noop(turn),
        turn.hidden && untagged(turn.all_text) && text_laws::all_white(turn.all_text)
            ==> chat_turn::is_noop(turn),
        turn.hidden && untagged(turn.all_text) && text::trim(turn.all_text).len() > 4
            ==> !chat_turn::is_noop(turn),
{
    reveal_strlit("pass");
    if untagged(turn.all_text) {
        let reply = text::trim(turn.all_text);
        lemma_untagged_scans(turn.all_text);
        text_laws::lemma_blank_is_white(turn.all_text);
        text::lemma_trim_idempotent(turn.all_text);
        assert(chat::ascii_lower(reply).len() == reply.len());
    }
}

/// On one line.
pub open spec fn one_line(s: Seq<char>) -> bool {
    !s.contains('\n') && !s.contains('\r')
}

/// What is sent of a reply that is one line without tags: that line, trimmed, unless
/// it is one that says nothing on Telegram; and a translation of one line likewise.
pub proof fn lemma_final_line(s: Seq<char>)
    requires
        untagged(s),
        one_line(s),
    ensures
        bot_reply::final_text(ReplyStyle::Bot, s) == text::trim(s),
        !telegram_text::empty_line(s) ==> bot_reply::final_text(ReplyStyle::Telegram, s)
            == text::trim(s),
        telegram_text::empty_line(s) ==> bot_reply::final_text(ReplyStyle::Telegram, s)
            == Seq::<char>::empty(),
        bot_reply::final_translation(ReplyStyle::Bot, seq![s]) == Some(text::trim(s)),
        !telegram_text::empty_line(s) ==> bot_reply::final_translation(
            ReplyStyle::Telegram,
            seq![s],
        ) == Some(text::trim(s)),
{
    let t = text::trim(s);
    let none = Seq::<char>::empty();
    text::lemma_trim_brings_nothing(s, '\n');
    text::lemma_trim_brings_nothing(s, '\r');
    text::lemma_trim_idempotent(s);
    lemma_sum_untagged(s, none);
    cleaning_laws::lemma_untagged_reply(s);
    cleaning_laws::lemma_untagged_reply(t);
    cleaning_laws::lemma_untagged_reply(none);
    cleaning_laws::lemma_one_line(s);
    cleaning_laws::lemma_one_line(t);
    text_laws::lemma_trim_core(none, none, none);
    assert(none + none + none =~= none);
    text_laws::lemma_join_more(seq![s], s, " "@);
}

/// The translations of all rounds go out together, each behind the one before it.
pub proof fn lemma_final_translations(style: ReplyStyle, a: Seq<char>, b: Seq<char>)
    requires
        one_line(a),
        one_line(b),
        !telegram_text::empty_line(a.push(' ') + b),
    ensures
        bot_reply::final_translation(style, Seq::empty()) is None,
        bot_reply::final_translation(style, seq![a, b]) == Some(text::trim(a.push(' ') + b)),
{
    reveal_strlit(" ");
    let s = a.push(' ') + b;
    text_laws::lemma_join_more(seq![a], b, " "@);
    assert(seq![a].push(b) =~= seq![a, b]);
    assert(a + " "@ + b =~= s);
    text_laws::lemma_join_more(seq![a], a, " "@);
    assert forall|k: int| 0 <= k < s.len() implies s[k] != '\n' && s[k] != '\r' by {
        if k < a.len() {
            assert(a.contains(a[k]));
        } else if k > a.len() {
            assert(b.contains(b[k - a.len() - 1]));
        }
    }
    cleaning_laws::lemma_one_line(s);
}

/// A Telegram reply of one line with one image tag: the image is asked for, and the
/// text around the tag is sent, without white space where it meets.
pub proof fn lemma_telegram_image(a: Seq<char>, t: Seq<char>, b: Seq<char>, rounds: RoundsView)
    requires
        untagged(a),
        untagged(b),
        tidy(a, b),
        one_line(a),
        one_line(t),
        one_line(b),
        !t.contains('['),
        !t.contains(']'),
        rounds.style is Telegram,
        rounds.all_text == a + "[IMAGE_PROMPT:"@ + (t.push(']') + b),
    ensures
        bot_reply::final_text(ReplyStyle::Telegram, rounds.all_text) == text::trim(
            text::trim_end(a) + text::trim_start(b),
        ),
        bot_reply::final_prompts(rounds) == (if text::trim(t).len() > 0 {
            seq![text::trim(t)]
        } else {
            Seq::empty()
        }),
{
    reveal_strlit("[IMAGE_PROMPT:");
    reveal_strlit("[ACTION:");
    reveal_strlit("[EMOTION:");
    let pat = "[IMAGE_PROMPT:"@;
    let s = rounds.all_text;
    let at = a.len() as int;
    let n = pat.len() as int;
    assert forall|k: int| 0 <= k < s.len() implies s[k] != '\n' && s[k] != '\r' && (k != at
        ==> s[k] != '[') by {
        if k < at {
            assert(s[k] == a[k]);
            assert(a.contains(a[k]));
        } else if k < at + n {
            assert(s[k] == pat[k - at]);
        } else if k < at + n + t.len() {
            assert(s[k] == t[k - at - n]);
            assert(t.contains(t[k - at - n]));
        } else if k > at + n + t.len() {
            assert(s[k] == b[k - at - n - t.len() - 1]);
            assert(b.contains(b[k - at - n - t.len() - 1]));
        }
    }
    assert(!s.contains('\n') && !s.contains('\r'));
    assert(s[at] == '[');
    assert(!text::white('[') && !text::white(']'));
    cleaning_laws::lemma_empty_line(
        Seq::empty(),
        Seq::empty(),
        Seq::empty(),
        Seq::empty(),
        Seq::empty(),
        s,
    );
    cleaning_laws::lemma_one_line(s);
    assert(s[0] == (if a.len() > 0 {
        a[0]
    } else {
        '['
    }));
    assert(s.last() == (if b.len() > 0 {
        b.last()
    } else {
        ']'
    }));
    text::lemma_trim_fixed(s);
    lemma_other_tag_absent(s, at, "[ACTION:"@);
    lemma_other_tag_absent(s, at, "[EMOTION:"@);
    assert(s[at + 1] == pat[1]);
    text_laws::lemma_find_absent(s, "[ACTION:"@);
    text_laws::lemma_find_absent(s, "[EMOTION:"@);
    lemma_sum_untagged(a, b);
    lemma_sum_untagged(b, a);
    lemma_sum_untagged(text::trim_end(a), text::trim_start(b));
    let rest = text::trim_end(a) + text::trim_start(b);
    lemma_untagged_scans(a);
    lemma_untagged_scans(b);
    lemma_untagged_scans(rest);
    reply_laws::lemma_first_image_tag(a, t, b);
    reply_laws::lemma_no_image_prompt(b, Seq::empty());
    reply_laws::lemma_control_tag_taken(pat, a, t, b);
    reply_laws::lemma_no_image_prompt(rest, Seq::empty());
    assert(seq![text::trim(t)] + Seq::<Seq<char>>::empty() =~= seq![text::trim(t)]);
    assert(Seq::<Seq<char>>::empty() + Seq::<Seq<char>>::empty() =~= Seq::empty());
}

proof fn lemma_other_tag_absent(s: Seq<char>, at: int, pat: Seq<char>)
    requires
        0 <= at,
        at + 1 < s.len(),
        forall|k: int| 0 <= k < s.len() && k != at ==> #[trigger] s[k] != '[',
        pat.len() > 1,
        pat[0] == '[',
        s[at + 1] != pat[1],
    ensures
        text_laws::absent(s, pat),
{
    assert forall|k: int| 0 <= k && k + pat.len() <= s.len() implies #[trigger] s.subrange(
        k,
        k + pat.len(),
    ) != pat by {
        assert(s.subrange(k, k + pat.len())[0] == s[k]);
        assert(s.subrange(k, k + pat.len())[1] == s[k + 1]);
    }
}

/// The views of JSON values are those of each, in its place.
pub proof fn lemma_json_views(values: Seq<JsonValue>)
    ensures
        chat_turn::json_views(values).len() == values.len(),
        forall|i: int|
            0 <= i < values.len() ==> #[trigger] chat_turn::json_views(values)[i] == values[i]@,
{
}

/// A message that makes tool calls holds the words, all of the calls, the thoughts
/// where there are any, and what belongs to the provider; one with a result holds the
/// id of its call and the result.
pub proof fn lemma_tool_messages(
    message: LlmChatMessage,
    words: Seq<char>,
    calls: Seq<LlmToolCall>,
    reasoning: Seq<char>,
    data: Seq<JsonView>,
    id: Seq<char>,
)
    ensures
        chat_turn::is_calls_message(message, words, calls, reasoning, data) ==> {
            &&& message.role@ == "assistant"@
            &&& message.text@ == words
            &&& message.images@.len() == 0
            &&& message.tool_calls@ == calls
            &&& message.tool_call_id is None
            &&& text_laws::all_white(reasoning) ==> message.reasoning_content is None
            &&& !text_laws::all_white(reasoning) ==> text::opt_view(message.reasoning_content)
                == Some(reasoning)
            &&& chat_turn::json_views(message.provider_data@) == data
        },
        chat_turn::is_result_message(message, id, words) ==> {
            &&& message.role@ == "tool"@
            &&& message.text@ == words
            &&& text::opt_view(message.tool_call_id) == Some(id)
            &&& message.images@.len() == 0
            &&& message.tool_calls@.len() == 0
            &&& message.reasoning_content is None
            &&& message.provider_data@.len() == 0
        },
{
    text_laws::lemma_blank_is_white(reasoning);
}

/// What a bot keeps with a reply is its translation, and a reply has nothing to send
/// just where it has no text, asks for no image and comes with none.
pub proof fn lemma_reply_end(rounds: RoundsView, translation: Seq<char>)
    ensures
        json::text_field(bot_reply::translation_metadata(translation), "translation"@) == Some(
            translation,
        ),
        bot_reply::nothing_to_send(rounds) <==> bot_reply::final_text(
            rounds.style,
            rounds.all_text,
        ).len() == 0 && bot_reply::final_prompts(rounds).len() == 0 && rounds.images.len() == 0,
        rounds.style is Bot ==> bot_reply::final_prompts(rounds) == rounds.image_prompts,
{
}

/// Images that were made for a reply are added behind those that it has, one for each,
/// with its own prompt, name, type and data.
pub proof fn lemma_images_added(
    before: Seq<BotReplyImage>,
    after: Seq<BotReplyImage>,
    new: Seq<GeneratedBotImage>,
    i: int,
)
    requires
        bot_reply::images_added(before, after, new),
        0 <= i < new.len(),
    ensures
        before.is_prefix_of(after),
        after.len() == before.len() + new.len(),
        after[before.len() + i].prompt@ == new[i].prompt@,
        after[before.len() + i].mime_type@ == new[i].mime_type@,
        after[before.len() + i].file_name@ == new[i].file_name@,
        after[before.len() + i].data_base64@ == encoding::base64_encoded(new[i].data@),
        encoding::base64_text(after[before.len() + i].data_base64@),
{
    assert(before =~= after.take(before.len() as int));
}

proof fn lemma_control_openings()
    ensures
        "[ACTION:"@.len() == 8 && "[ACTION:"@[0] == '[' && "[ACTION:"@[1] == 'A',
        "[EMOTION:"@.len() == 9 && "[EMOTION:"@[0] == '[' && "[EMOTION:"@[1] == 'E',
        "[IMAGE_PROMPT:"@.len() == 14 && "[IMAGE_PROMPT:"@[0] == '[' && "[IMAGE_PROMPT:"@[1] == 'I',
        text_laws::opens_once("[ACTION:"@) && !"[ACTION:"@.contains(']'),
        text_laws::opens_once("[EMOTION:"@) && !"[EMOTION:"@.contains(']'),
        text_laws::opens_once("[IMAGE_PROMPT:"@) && !"[IMAGE_PROMPT:"@.contains(']'),
        one_line("[ACTION:"@) && one_line("[EMOTION:"@) && one_line("[IMAGE_PROMPT:"@),
{
    reveal_strlit("[ACTION:");
    reveal_strlit("[EMOTION:");
    reveal_strlit("[IMAGE_PROMPT:");
}

/// The openings of the control tags.
pub open spec fn control_opening(pat: Seq<char>) -> bool {
    pat == "[ACTION:"@ || pat == "[EMOTION:"@ || pat == "[IMAGE_PROMPT:"@
}

proof fn lemma_bracket_places(a: Seq<char>, pat: Seq<char>, t: Seq<char>, b: Seq<char>)
    requires
        control_opening(pat),
        !a.contains('['),
        !t.contains('['),
        !b.contains('['),
    ensures
        ({
            let s = a + pat + (t.push(']') + b);
            &&& forall|k: int| 0 <= k < s.len() && k != a.len() ==> #[trigger] s[k] != '['
            &&& s[a.len() as int] == '['
            &&& s[a.len() as int + 1] == pat[1]
            &&& s.len() > a.len() + 1
        }),
{
    lemma_control_openings();
    let s = a + pat + (t.push(']') + b);
    let at = a.len() as int;
    let n = pat.len() as int;
    assert forall|k: int| 0 <= k < s.len() && k != at implies #[trigger] s[k] != '[' by {
        if k < at {
            assert(s[k] == a[k]);
            assert(a.contains(a[k]));
        } else if k < at + n {
            assert(s[k] == pat[k - at]);
            assert(pat[k - at] != pat[0]);
        } else if k < at + n + t.len() {
            assert(s[k] == t[k - at - n]);
            assert(t.contains(t[k - at - n]));
        } else if k > at + n + t.len() {
            assert(s[k] == b[k - at - n - t.len() - 1]);
            assert(b.contains(b[k - at - n - t.len() - 1]));
        }
    }
}

proof fn lemma_scans_of_others(a: Seq<char>, pat: Seq<char>, t: Seq<char>, b: Seq<char>, other:
    Seq<char>)
    requires
        control_opening(pat),
        control_opening(other),
        pat != other,
        !a.contains('['),
        !t.contains('['),
        !b.contains('['),
    ensures
        reply_text::bracket_scan(a + pat + (t.push(']') + b), other) == a + pat + (t.push(']') + b),
        telegram_text::bracket_scan(a + pat + (t.push(']') + b), other) == a + pat + (t.push(']')
            + b),
{
    lemma_control_openings();
    let s = a + pat + (t.push(']') + b);
    lemma_bracket_places(a, pat, t, b);
    lemma_other_tag_absent(s, a.len() as int, other);
    text_laws::lemma_find_absent(s, other);
}

proof fn lemma_scans_of_untagged(s: Seq<char>, pat: Seq<char>)
    requires
        untagged(s),
        control_opening(pat),
    ensures
        reply_text::bracket_scan(s, pat) == s,
        telegram_text::bracket_scan(s, pat) == s,
{
    lemma_control_openings();
    lemma_absent_by_first(s, pat);
    text_laws::lemma_find_absent(s, pat);
}

/// Each of the control tags is taken out of a reply, whichever it is, and the text
/// around it is left; on Telegram without the white space where it meets.
pub proof fn lemma_control_tags(a: Seq<char>, pat: Seq<char>, t: Seq<char>, b: Seq<char>)
    requires
        control_opening(pat),
        untagged(a),
        untagged(b),
        !t.contains('['),
        !t.contains(']'),
    ensures
        ({
            let s = a + pat + (t.push(']') + b);
            let closed = text::trim_end(a) + text::trim_start(b);
            &&& reply_text::without_control_tags(s) == text::trim(a + b)
            &&& telegram_text::without_control_tags(s) == text::trim(closed)
            &&& pat != "[IMAGE_PROMPT:"@ ==> telegram_text::with_image_tags(s) == text::trim(closed)
            &&& pat == "[IMAGE_PROMPT:"@ ==> telegram_text::with_image_tags(s) == text::trim(s)
        }),
{
    lemma_control_openings();
    let s = a + pat + (t.push(']') + b);
    let closed = text::trim_end(a) + text::trim_start(b);
    lemma_sum_untagged(a, b);
    lemma_sum_untagged(b, a);
    lemma_sum_untagged(text::trim_end(a), text::trim_start(b));
    lemma_absent_by_first(a, pat);
    reply_laws::lemma_control_tag_taken(pat, a, t, b);
    lemma_scans_of_untagged(a + b, pat);
    lemma_scans_of_untagged(closed, pat);
    lemma_scans_of_untagged(a + b, "[ACTION:"@);
    lemma_scans_of_untagged(a + b, "[EMOTION:"@);
    lemma_scans_of_untagged(a + b, "[IMAGE_PROMPT:"@);
    lemma_scans_of_untagged(closed, "[ACTION:"@);
    lemma_scans_of_untagged(closed, "[EMOTION:"@);
    lemma_scans_of_untagged(closed, "[IMAGE_PROMPT:"@);
    cleaning_laws::lemma_plain_text_shown(a + b, Seq::empty());
    if pat == "[ACTION:"@ {
    } else if pat == "[EMOTION:"@ {
        lemma_scans_of_others(a, pat, t, b, "[ACTION:"@);
    } else {
        lemma_scans_of_others(a, pat, t, b, "[ACTION:"@);
        lemma_scans_of_others(a, pat, t, b, "[EMOTION:"@);
    }
}

/// No control tag of a reply of one line is sent, whichever it is, and all of the text
/// around it is.
pub proof fn lemma_final_control_tags(a: Seq<char>, pat: Seq<char>, t: Seq<char>, b: Seq<char>)
    requires
        control_opening(pat),
        untagged(a),
        untagged(b),
        tidy(a, b),
        one_line(a),
        one_line(t),
        one_line(b),
        !t.contains('['),
        !t.contains(']'),
    ensures
        ({
            let s = a + pat + (t.push(']') + b);
            &&& bot_reply::final_text(ReplyStyle::Bot, s) == text::trim(a + b)
            &&& bot_reply::final_text(ReplyStyle::Telegram, s) == text::trim(
                text::trim_end(a) + text::trim_start(b),
            )
        }),
{
    lemma_control_openings();
    let s = a + pat + (t.push(']') + b);
    lemma_control_tags(a, pat, t, b);
    lemma_line_of_parts(a, b);
    lemma_line_of_parts(t, seq![']']);
    lemma_line_of_parts(t + seq![']'], b);
    lemma_line_of_parts(a, pat);
    lemma_line_of_parts(a + pat, t + seq![']'] + b);
    assert(t.push(']') + b =~= t + seq![']'] + b);
    let joined = text::trim(a + b);
    text::lemma_trim_brings_nothing(a + b, '\n');
    text::lemma_trim_brings_nothing(a + b, '\r');
    text::lemma_trim_idempotent(a + b);
    cleaning_laws::lemma_one_line(joined);
    lemma_bracket_places(a, pat, t, b);
    assert(!text::white('[') && !text::white(']'));
    cleaning_laws::lemma_empty_line(
        Seq::empty(),
        Seq::empty(),
        Seq::empty(),
        Seq::empty(),
        Seq::empty(),
        s,
    );
    assert(!telegram_text::empty_line(s)) by {
        assert(s[a.len() as int] == '[');
    }
    cleaning_laws::lemma_one_line(s);
    assert(s[0] == (if a.len() > 0 {
        a[0]
    } else {
        '['
    }));
    assert(s.last() == (if b.len() > 0 {
        b.last()
    } else {
        ']'
    }));
    text::lemma_trim_fixed(s);
}

proof fn lemma_line_of_parts(a: Seq<char>, b: Seq<char>)
    requires
        one_line(a),
        one_line(b),
    ensures
        one_line(a + b),
        one_line(seq![']']),
{
    assert forall|k: int| 0 <= k < (a + b).len() implies (a + b)[k] != '\n' && (a + b)[k] != '\r' by {
        if k < a.len() {
            assert(a.contains(a[k]));
        } else {
            assert(b.contains(b[k - a.len()]));
        }
    }
}

/// No empty line is sent of a bot's reply, whatever the model said.
pub proof fn lemma_final_has_no_gap(s: Seq<char>)
    ensures
        !reply_text::has_gap(bot_reply::final_text(ReplyStyle::Bot, s)),
        telegram_text::no_closed_tag(
            bot_reply::final_text(ReplyStyle::Telegram, s),
            "[IMAGE_PROMPT:"@,
        ),
{
    reply_text::lemma_compacted_no_gap(reply_text::without_control_tags(s));
    telegram_text::lemma_no_image_tag_left(telegram_text::compacted(s));
}

proof fn lemma_join_untagged(parts: Seq<Seq<char>>)
    requires
        forall|i: int| 0 <= i < parts.len() ==> untagged(#[trigger] parts[i]),
    ensures
        untagged(text::join(parts, seq!['\n'])),
    decreases parts.len(),
{
    if parts.len() > 1 {
        let before = parts.drop_last();
        assert forall|i: int| 0 <= i < before.len() implies untagged(#[trigger] before[i]) by {
            assert(before[i] == parts[i]);
        }
        lemma_join_untagged(before);
        let gap = seq!['\n'];
        assert forall|k: int| 0 <= k < gap.len() implies gap[k] != '[' && gap[k] != '<' by {}
        assert(untagged(gap));
        lemma_sum_untagged(text::join(before, gap), gap);
        assert(untagged(parts[parts.len() - 1]));
        lemma_sum_untagged(text::join(before, gap) + gap, parts.last());
    }
}

proof fn lemma_join_ends(parts: Seq<Seq<char>>, sep: Seq<char>)
    requires
        parts.len() > 0,
        parts[0].len() > 0,
        parts.last().len() > 0,
    ensures
        text::join(parts, sep).len() > 0,
        text::join(parts, sep)[0] == parts[0][0],
        text::join(parts, sep).last() == parts.last().last(),
{
    if parts.len() > 1 {
        text_laws::lemma_join_front(parts, sep);
    }
}

/// What is sent of a reply of several lines without tags: the lines that say something,
/// all of them and in their order.
pub proof fn lemma_final_lines(lines: Seq<Seq<char>>)
    requires
        lines.len() > 0,
        lines[0].len() > 0 && !text::white(lines[0][0]),
        lines.last().len() > 0 && !text::white(lines.last().last()),
        forall|i: int| 0 <= i < lines.len() ==> untagged(#[trigger] lines[i]) && one_line(lines[i]),
    ensures
        bot_reply::final_text(ReplyStyle::Bot, text::join(lines, seq!['\n'])) == text::trim(
            text::join(cleaning_laws::said_lines(lines), seq!['\n']),
        ),
        bot_reply::final_text(ReplyStyle::Telegram, text::join(lines, seq!['\n'])) == text::trim(
            text::join(cleaning_laws::telling_lines(lines), seq!['\n']),
        ),
{
    let sep = seq!['\n'];
    let s = text::join(lines, sep);
    lemma_join_untagged(lines);
    lemma_join_ends(lines, sep);
    text::lemma_trim_fixed(s);
    cleaning_laws::lemma_untagged_reply(s);
    cleaning_laws::lemma_lines_that_stay(lines);
    cleaning_laws::lemma_telegram_lines_that_stay(lines);
    let telling = cleaning_laws::telling_lines(lines);
    let known = |line: Seq<char>| !telegram_text::empty_line(line);
    assert forall|i: int| 0 <= i < telling.len() implies untagged(#[trigger] telling[i]) by {
        assert(lines.filter(known).contains(telling[i]));
        lines.lemma_filter_contains_rev(known, telling[i]);
        let k = choose|k: int| 0 <= k < lines.len() && lines[k] == telling[i];
        assert(untagged(lines[k]));
    }
    lemma_join_untagged(telling);
    let told = text::join(telling, sep);
    lemma_sum_untagged(told, Seq::empty());
    cleaning_laws::lemma_untagged_reply(text::trim(told));
    text::lemma_trim_idempotent(told);
}

proof fn lemma_leaked_openings()
    ensures
        "<tool_result>"@.len() == 13 && "<tool_result>"@[0] == '<',
        "</tool_result>"@.len() == 14,
        !"<tool_result>"@.contains('[') && !"</tool_result>"@.contains('['),
{
    reveal_strlit("<tool_result>");
    reveal_strlit("</tool_result>");
}

/// A tool result that leaked into a reply is neither stored nor shown; the text around
/// it is, in its order and without white space where it meets.
pub proof fn lemma_leaked_result(a: Seq<char>, t: Seq<char>, b: Seq<char>)
    requires
        untagged(a),
        untagged(b),
        tidy(a, b),
        a.len() > 0,
        b.len() > 0,
        !t.contains('['),
        text_laws::absent("<tool_result>"@ + t, "</tool_result>"@),
    ensures
        ({
            let s = a + "<tool_result>"@ + (t + "</tool_result>"@ + b);
            let shown = text::trim(text::trim_end(a) + text::trim_start(b));
            &&& chat_turn::reply_of(s) == shown
            &&& bot_reply::response_parts(ReplyStyle::Bot, s).shown == shown
            &&& bot_reply::response_parts(ReplyStyle::Telegram, s).shown == shown
        }),
{
    lemma_leaked_openings();
    let open = "<tool_result>"@;
    let close = "</tool_result>"@;
    let s = a + open + (t + close + b);
    let rest = text::trim_end(a) + text::trim_start(b);
    lemma_untagged_scans(a);
    reply_laws::lemma_leaked_result_taken(a, t, b);
    lemma_sum_untagged(a, b);
    lemma_sum_untagged(b, a);
    lemma_sum_untagged(text::trim_end(a), text::trim_start(b));
    lemma_untagged_scans(rest);
    assert forall|k: int| 0 <= k < s.len() implies s[k] != '[' by {
        let n = open.len() as int;
        let m = close.len() as int;
        let at = k - a.len();
        if at < 0 {
            assert(s[k] == a[k]);
            assert(a.contains(a[k]));
        } else if at < n {
            assert(s[k] == open[at]);
            assert(open.contains(open[at]));
        } else if at < n + t.len() {
            assert(s[k] == t[at - n]);
            assert(t.contains(t[at - n]));
        } else if at < n + t.len() + m {
            assert(s[k] == close[at - n - t.len()]);
            assert(close.contains(close[at - n - t.len()]));
        } else {
            assert(s[k] == b[at - n - t.len() - m]);
            assert(b.contains(b[at - n - t.len() - m]));
        }
    }
    assert(!s.contains('['));
    assert(s[0] == a[0] && s.last() == b.last());
    text::lemma_trim_fixed(s);
    tags::lemma_plain_text_calls_nothing(s, false);
    tags::lemma_plain_text_calls_nothing(s, true);
    reveal_strlit("[TRANSLATE:");
    reveal_strlit("[IMAGE_PROMPT:");
    lemma_absent_by_first(s, "[TRANSLATE:"@);
    lemma_absent_by_first(s, "[IMAGE_PROMPT:"@);
    reply_laws::lemma_no_translation(s);
    reply_laws::lemma_no_image_prompt(s, Seq::empty());
}

} // verus!
