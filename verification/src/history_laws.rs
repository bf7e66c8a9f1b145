//! What holds of conversations and of their messages, whatever they hold: which
//! message an edit finds, what stays in memory, and what the user sees.

use vstd::prelude::*;
use crate::conversation;
use crate::conversation::{
    ConversationInfo, EditConversationMessageRequest, EditLocator, ListedConversation,
};
use crate::history;
use crate::history::{Message, MessageRow, MessageView};
use crate::json;
use crate::json::JsonView;
use crate::text;

verus! {

broadcast use vstd::string::group_string_axioms;

/// The messages that the user sees, in their order.
pub open spec fn seen_rows(rows: Seq<MessageRow>) -> Seq<MessageRow> {
    rows.filter(|row: MessageRow| history::row_visible(row))
}

proof fn lemma_seen_push(rows: Seq<MessageRow>, row: MessageRow)
    ensures
        seen_rows(rows.push(row)) == (if history::row_visible(row) {
            seen_rows(rows).push(row)
        } else {
            seen_rows(rows)
        }),
{
    rows.lemma_filter_push(row, |row: MessageRow| history::row_visible(row));
}

proof fn lemma_seen_empty()
    ensures
        seen_rows(Seq::empty()) == Seq::<MessageRow>::empty(),
{
    reveal(Seq::filter);
    assert(seen_rows(Seq::empty()) =~= Seq::<MessageRow>::empty());
}

/// The positions that an edit may name are those of the messages that the user
/// sees: as many, in their order, each with its own id.
pub proof fn lemma_positions_are_visible_rows(rows: Seq<MessageRow>)
    ensures
        conversation::visible_ids(rows).len() == seen_rows(rows).len(),
        forall|i: int|
            0 <= i < seen_rows(rows).len() ==> #[trigger] conversation::visible_ids(rows)[i]
                == seen_rows(rows)[i].id,
    decreases rows.len(),
{
    if rows.len() == 0 {
        lemma_seen_empty();
        assert(rows =~= Seq::<MessageRow>::empty());
    } else {
        let before = rows.drop_last();
        lemma_positions_are_visible_rows(before);
        lemma_seen_push(before, rows.last());
        assert(rows =~= before.push(rows.last()));
    }
}

/// The message at a position is the visible one that has as many visible ones
/// before it.
pub proof fn lemma_position_of_row(rows: Seq<MessageRow>, k: int)
    requires
        0 <= k < rows.len(),
        history::row_visible(rows[k]),
    ensures
        seen_rows(rows.take(k)).len() < conversation::visible_ids(rows).len(),
        conversation::visible_ids(rows)[seen_rows(rows.take(k)).len() as int] == rows[k].id,
    decreases rows.len(),
{
    let before = rows.drop_last();
    lemma_positions_are_visible_rows(rows);
    lemma_positions_are_visible_rows(before);
    lemma_seen_push(before, rows.last());
    assert(rows =~= before.push(rows.last()));
    if k < before.len() {
        lemma_position_of_row(before, k);
        assert(before.take(k) =~= rows.take(k));
        assert(before[k] == rows[k]);
        let at = seen_rows(rows.take(k)).len() as int;
        assert(conversation::visible_ids(before)[at] == seen_rows(before)[at].id);
        assert(conversation::visible_ids(rows)[at] == seen_rows(rows)[at].id);
    } else {
        assert(rows.take(k) =~= before);
    }
}

/// No two positions name the same message, where no two messages share an id.
pub proof fn lemma_positions_distinct(rows: Seq<MessageRow>, i: int, j: int)
    requires
        forall|a: int, b: int|
            0 <= a < b < rows.len() ==> (#[trigger] rows[a]).id != (#[trigger] rows[b]).id,
        0 <= i < j < conversation::visible_ids(rows).len(),
    ensures
        conversation::visible_ids(rows)[i] != conversation::visible_ids(rows)[j],
    decreases rows.len(),
{
    let before = rows.drop_last();
    assert forall|a: int, b: int| 0 <= a < b < before.len() implies (#[trigger] before[a]).id != (
    #[trigger] before[b]).id by {
        assert(before[a] == rows[a] && before[b] == rows[b]);
    }
    let earlier = conversation::visible_ids(before);
    lemma_positions_are_visible_rows(rows);
    lemma_positions_are_visible_rows(before);
    lemma_seen_push(before, rows.last());
    assert(rows =~= before.push(rows.last()));
    assert(conversation::visible_ids(rows)[i] == seen_rows(rows)[i].id);
    assert(conversation::visible_ids(rows)[j] == seen_rows(rows)[j].id);
    if j < earlier.len() {
        assert(earlier[i] == seen_rows(before)[i].id);
        assert(earlier[j] == seen_rows(before)[j].id);
        lemma_positions_distinct(before, i, j);
    } else {
        assert(earlier[i] == seen_rows(before)[i].id);
        conversation::lemma_visible_ids(before, i);
        let k = choose|k: int|
            0 <= k < before.len() && history::row_visible(#[trigger] before[k]) && before[k].id
                == earlier[i];
        assert(rows[k].id != rows[rows.len() - 1].id);
    }
}

/// A message of a tool is never seen; any other is, unless its type is that of a
/// message which only the model gets.
pub proof fn lemma_what_is_seen(role: Seq<char>, kind: Seq<char>, rest: Seq<(Seq<char>, JsonView)>)
    ensures
        history::visible(role, None) <==> role != "tool"@,
        history::visible(
            role,
            Some(JsonView::Object(seq![("type"@, JsonView::Text(kind))] + rest)),
        ) <==> role != "tool"@ && kind != "assistant_tool_calls"@ && kind != "tool_result"@ && kind
            != "translation_instruction"@,
        conversation::loaded(None),
        conversation::loaded(
            Some(JsonView::Object(seq![("type"@, JsonView::Text(kind))] + rest)),
        ) <==> kind != "assistant_tool_calls"@ && kind != "translation_instruction"@,
{
    let fields = seq![("type"@, JsonView::Text(kind))] + rest;
    assert(fields[0] == ("type"@, JsonView::Text(kind)));
    assert(json::field_in(fields, "type"@) == Some(JsonView::Text(kind)));
}

/// Metadata that names no type leaves a message as it is.
pub proof fn lemma_untyped_is_seen(role: Seq<char>, metadata: JsonView)
    requires
        json::text_field(metadata, "type"@) is None,
    ensures
        history::visible(role, Some(metadata)) <==> role != "tool"@,
        conversation::loaded(Some(metadata)),
{
}

/// How many of the messages are seen.
pub proof fn lemma_visible_count(seen: Seq<bool>)
    ensures
        history::visible_count(seen) == seen.filter(|b: bool| b).len(),
    decreases seen.len(),
{
    if seen.len() == 0 {
        reveal(Seq::filter);
        assert(seen.filter(|b: bool| b).len() == 0);
    } else {
        lemma_visible_count(seen.drop_last());
        assert(seen =~= seen.drop_last().push(seen.last()));
        seen.drop_last().lemma_filter_push(seen.last(), |b: bool| b);
    }
}

/// Deleting takes nothing from a shorter beginning: fewer messages would hold fewer
/// visible ones than are to stay.
pub proof fn lemma_delete_keeps_least(seen: Seq<bool>, count: int, n: int)
    requires
        count > 0,
        0 <= n < history::kept_after_delete(seen, count),
    ensures
        history::visible_count(seen.take(n)) < history::visible_count(seen) - count,
{
    let kept = history::kept_after_delete(seen, count);
    history::lemma_delete_last(seen, count);
    let stay = seen.take(kept);
    lemma_count_grows(stay, n);
    assert(stay.take(n) =~= seen.take(n));
    assert(stay.last() == seen[kept - 1]);
}

proof fn lemma_count_grows(seen: Seq<bool>, n: int)
    requires
        0 <= n < seen.len(),
        seen.last(),
    ensures
        history::visible_count(seen.take(n)) < history::visible_count(seen),
{
    lemma_count_prefix(seen.drop_last(), n);
    assert(seen.drop_last().take(n) =~= seen.take(n));
}

proof fn lemma_count_prefix(seen: Seq<bool>, n: int)
    requires
        0 <= n <= seen.len(),
    ensures
        history::visible_count(seen.take(n)) <= history::visible_count(seen),
    decreases seen.len(),
{
    if n < seen.len() {
        lemma_count_prefix(seen.drop_last(), n);
        assert(seen.drop_last().take(n) =~= seen.take(n));
    } else {
        assert(seen.take(n) =~= seen);
    }
}

/// Deleting nothing keeps everything.
pub proof fn lemma_delete_nothing(seen: Seq<bool>)
    ensures
        history::kept_after_delete(seen, 0) == seen.len(),
{
}

/// The messages in memory are the last ones that are stored, at most twenty, each
/// with its role and its metadata, and with its text unless that is too long.
pub proof fn lemma_memory_holds_the_last(rows: Seq<MessageRow>, max_chars: int, i: int)
    requires
        0 <= i < history::synced(rows, max_chars).len(),
    ensures
        history::synced(rows, max_chars).len() == (if rows.len() < 20 {
            rows.len() as int
        } else {
            20
        }),
        ({
            let row = rows[rows.len() - history::synced(rows, max_chars).len() + i];
            let kept = history::synced(rows, max_chars)[i];
            &&& kept.role == row.role@
            &&& kept.metadata == history::read_metadata(text::opt_view(row.metadata))
            &&& row.content@.len() <= max_chars ==> kept.content == row.content@
        }),
{
}

/// A text that fits stays; one that is too long keeps its beginning, and says that
/// it was cut.
pub proof fn lemma_cut_text(content: Seq<char>, max_chars: int)
    requires
        max_chars >= 0,
    ensures
        content.len() <= max_chars ==> history::limited(content, max_chars) == content,
        content.len() > max_chars ==> history::limited(content, max_chars) == content.subrange(
            0,
            max_chars,
        ) + "…[truncated]"@,
{
    if content.len() > max_chars {
        assert(content.take(max_chars) =~= content.subrange(0, max_chars));
    }
}

/// Where messages come newest first, the trailing message of the user is the first
/// that is seen, if it is the user's.
pub proof fn lemma_trailing_message(rows: Seq<MessageRow>, k: int)
    requires
        0 <= k < rows.len(),
        history::row_visible(rows[k]),
        forall|i: int| 0 <= i < k ==> !history::row_visible(#[trigger] rows[i]),
    ensures
        history::trailing_user(rows) == (if rows[k].role@ == "user"@ {
            Some((rows[k].id, rows[k].content@))
        } else {
            None
        }),
    decreases k,
{
    if k > 0 {
        assert(!history::row_visible(rows[0]));
        let rest = rows.drop_first();
        assert forall|i: int| 0 <= i < k - 1 implies !history::row_visible(#[trigger] rest[i]) by {
            assert(rest[i] == rows[i + 1]);
        }
        lemma_trailing_message(rest, k - 1);
    }
}

/// Where nothing is seen, there is no trailing message.
pub proof fn lemma_no_trailing_message(rows: Seq<MessageRow>)
    requires
        forall|i: int| 0 <= i < rows.len() ==> !history::row_visible(#[trigger] rows[i]),
    ensures
        history::trailing_user(rows) is None,
    decreases rows.len(),
{
    if rows.len() > 0 {
        assert(!history::row_visible(rows[0]));
        let rest = rows.drop_first();
        assert forall|i: int| 0 <= i < rest.len() implies !history::row_visible(
            #[trigger] rest[i],
        ) by {
            assert(rest[i] == rows[i + 1]);
        }
        lemma_no_trailing_message(rest);
    }
}

/// Alignment changes nothing where the last message is the user's; else it puts the
/// question behind the others, and drops the oldest where there are too many.
pub proof fn lemma_alignment(history: Seq<MessageView>, content: Seq<char>)
    ensures
        history.len() > 0 && history.last().role == "user"@ ==> history::aligned(history, content)
            == history,
        !(history.len() > 0 && history.last().role == "user"@) ==> {
            let r = history::aligned(history, content);
            let n = r.len() - 1;
            &&& r.last().role == "user"@
            &&& r.last().content == content
            &&& r.last().metadata is None
            &&& n == (if history.len() < 20 {
                history.len() as int
            } else {
                19
            })
            &&& r.drop_last() == history.skip(history.len() - n)
        },
{
    if !(history.len() > 0 && history.last().role == "user"@) {
        let r = history::aligned(history, content);
        assert(r.drop_last() =~= history.skip(history.len() - (r.len() - 1)));
    }
}

/// A message is stored just when the user sees it asked, and not a second time.
pub proof fn lemma_when_a_question_is_stored(hidden: bool, regenerate: bool, trailing: bool)
    ensures
        history::inserts_user_message(false, false, trailing),
        !history::inserts_user_message(true, regenerate, trailing),
        history::inserts_user_message(false, true, trailing) <==> !trailing,
{
}

/// A pinned conversation is listed before any that is not; among either, the one
/// that changed later comes first.
pub proof fn lemma_listing(a: ConversationInfo, b: ConversationInfo, a_pinned: bool, b_pinned: bool)
    ensures
        ({
            let x = ListedConversation { info: a, pinned: a_pinned };
            let y = ListedConversation { info: b, pinned: b_pinned };
            &&& a_pinned && !b_pinned ==> conversation::listed_le(x, y) && !conversation::listed_le(
                y,
                x,
            )
            &&& a_pinned == b_pinned && a.updated_at@ == b.updated_at@ ==> conversation::listed_le(
                x,
                y,
            )
            &&& a_pinned == b_pinned && text::text_le(a.updated_at@, b.updated_at@)
                && a.updated_at@ != b.updated_at@ ==> conversation::listed_le(y, x)
                && !conversation::listed_le(x, y)
        }),
{
    if a.updated_at@ == b.updated_at@ {
        text::lemma_text_le_total(a.updated_at@, a.updated_at@);
    }
    lemma_text_le_antisymmetric(a.updated_at@, b.updated_at@);
}

/// Two texts of which each may stand before the other are the same.
pub proof fn lemma_text_le_antisymmetric(a: Seq<char>, b: Seq<char>)
    ensures
        text::text_le(a, b) && text::text_le(b, a) ==> a == b,
    decreases a.len(),
{
    if text::text_le(a, b) && text::text_le(b, a) {
        if a.len() > 0 && b.len() > 0 {
            lemma_text_le_antisymmetric(a.drop_first(), b.drop_first());
            assert(a =~= seq![a[0]] + a.drop_first());
            assert(b =~= seq![b[0]] + b.drop_first());
        } else {
            assert(a =~= b);
        }
    }
}

/// A text stands before any that it is the beginning of, and where two texts first
/// differ, the smaller character decides.
pub proof fn lemma_dictionary(common: Seq<char>, a: char, b: char, x: Seq<char>, y: Seq<char>)
    ensures
        text::text_le(common, common + x),
        a < b ==> text::text_le(common.push(a) + x, common.push(b) + y),
        a < b ==> !text::text_le(common.push(b) + y, common.push(a) + x),
    decreases common.len(),
{
    if common.len() == 0 {
        let l = common.push(a) + x;
        let r = common.push(b) + y;
        assert(l[0] == a && r[0] == b);
    } else {
        let rest = common.drop_first();
        lemma_dictionary(rest, a, b, x, y);
        assert((common + x).drop_first() =~= rest + x);
        assert((common.push(a) + x).drop_first() =~= rest.push(a) + x);
        assert((common.push(b) + y).drop_first() =~= rest.push(b) + y);
        assert((common.push(a) + x)[0] == common[0]);
        assert((common.push(b) + y)[0] == common[0]);
    }
}

/// A conversation is pinned just where its state is an object that says so.
pub proof fn lemma_pinned(state: Seq<char>)
    ensures
        conversation::pinned(state) ==> (json::parsed_json(text::trim(state)) matches Some(value)
            && json::field(value, "pinned"@) == Some(JsonView::Bool(true))),
        text::trim(state).len() > 0 && text::trim(state) != "{}"@ && (json::parsed_json(
            text::trim(state),
        ) matches Some(value) && json::field(value, "pinned"@) == Some(JsonView::Bool(true)))
            ==> conversation::pinned(state),
{
}

/// An edit names its message by the id where there is one, and by its position only
/// where there is none; without a text, or without a name, it is refused.
pub proof fn lemma_edit_request(request: EditConversationMessageRequest)
    ensures
        text::trim(request.new_content@).len() == 0 ==> conversation::edit_fault(request) == Some(
            "Message content cannot be empty"@,
        ),
        text::trim(request.new_content@).len() > 0 ==> (conversation::edit_fault(request) is None
            <==> request.message_id is Some || (request.conversation_id is Some
            && request.visible_index is Some)),
        request.message_id matches Some(id) ==> conversation::locator_of(request)
            == EditLocator::ById(id, request.conversation_id),
        request.message_id is None ==> (request.conversation_id matches Some(conversation) ==> (
        request.visible_index matches Some(index) ==> conversation::locator_of(request)
            == EditLocator::ByIndex(conversation, index))),
{
}

/// Each conversation is marked as its own state says, in its place.
pub proof fn lemma_marked(list: Seq<ConversationInfo>, i: int)
    requires
        0 <= i < list.len(),
    ensures
        conversation::marked(list).len() == list.len(),
        conversation::marked(list)[i].info == list[i],
        conversation::marked(list)[i].pinned == conversation::pinned(list[i].pinned_state@),
{
}

/// The view of a message is its role, its words and its metadata, and that of a
/// history is those of its messages.
pub proof fn lemma_message_views(messages: Seq<Message>)
    ensures
        history::message_views(messages).len() == messages.len(),
        forall|i: int|
            0 <= i < messages.len() ==> {
                let v = #[trigger] history::message_views(messages)[i];
                v.role == messages[i].role@ && v.content == messages[i].content@ && v.metadata
                    == json::opt_json(messages[i].metadata)
            },
{
}

/// Twenty messages are kept in memory.
pub proof fn lemma_history_limit()
    ensures
        history::MAX_IN_MEMORY_HISTORY_MESSAGES == 20,
{
}

/// One more conversation is listed behind all that may stand before it, and before
/// all others; these keep their order.
pub proof fn lemma_one_more_listed(
    list: Seq<ListedConversation>,
    x: ListedConversation,
) -> (at: int)
    ensures
        0 <= at <= list.len(),
        conversation::in_list_order(list.push(x)) == conversation::in_list_order(list).insert(
            at,
            x,
        ),
        forall|i: int|
            0 <= i < at ==> conversation::listed_le(
                #[trigger] conversation::in_list_order(list)[i],
                x,
            ),
        forall|i: int|
            at <= i < list.len() ==> !conversation::listed_le(
                #[trigger] conversation::in_list_order(list)[i],
                x,
            ),
        conversation::in_list_order(Seq::empty()) == Seq::<ListedConversation>::empty(),
{
    let sorted = conversation::in_list_order(list);
    conversation::lemma_list_permutes(list);
    conversation::lemma_list_ordered(list);
    conversation::lemma_listed_pos(sorted, x);
    assert(list.push(x).drop_last() =~= list);
    let at = conversation::listed_pos(sorted, x);
    assert forall|i: int| 0 <= i < at implies conversation::listed_le(#[trigger] sorted[i], x) by {
        if i < at - 1 {
            assert(conversation::listed_le(sorted[i], sorted[at - 1]));
            conversation::lemma_listed_transitive(sorted[i], sorted[at - 1], x);
        }
    }
    at
}

} // verus!
