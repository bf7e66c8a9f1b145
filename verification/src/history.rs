//! The messages of a conversation: which ones the user sees, the window that
//! is kept in memory, and deleting the last ones.

use vstd::prelude::*;
use crate::json;
use crate::json::{parse_json, JsonValue, JsonView};
use crate::text;
use crate::text::{char_count, concat2, head_text, same_text};

verus! {

broadcast use vstd::string::group_string_axioms;

/// How many messages are kept in memory.
pub const MAX_IN_MEMORY_HISTORY_MESSAGES: usize = 20;

/// A message as it is kept in memory.
#[derive(Debug)]
pub struct Message {
    pub role: String,
    pub content: String,
    pub metadata: Option<JsonValue>,
}

pub ghost struct MessageView {
    pub role: Seq<char>,
    pub content: Seq<char>,
    pub metadata: Option<JsonView>,
}

impl View for Message {
    type V = MessageView;

    open spec fn view(&self) -> MessageView {
        MessageView {
            role: self.role@,
            content: self.content@,
            metadata: json::opt_json(self.metadata),
        }
    }
}

pub open spec fn message_views(messages: Seq<Message>) -> Seq<MessageView> {
    messages.map_values(|m: Message| m@)
}

/// A message as it is stored.
#[derive(Debug)]
pub struct MessageRow {
    pub id: i64,
    pub role: String,
    pub content: String,
    pub metadata: Option<String>,
}

/// The type that the metadata of a message names.
pub open spec fn technical_type(metadata: Option<JsonView>) -> Option<Seq<char>> {
    match metadata {
        Some(value) => json::text_field(value, "type"@),
        None => None,
    }
}

/// The user sees the message: it is not a tool's, and its type is none of those
/// that only the model sees.
pub open spec fn visible(role: Seq<char>, metadata: Option<JsonView>) -> bool {
    let kind = technical_type(metadata);
    &&& role != "tool"@
    &&& kind != Some("assistant_tool_calls"@)
    &&& kind != Some("translation_instruction"@)
    &&& kind != Some("tool_result"@)
}

/// Metadata as it is stored, read. What is not valid JSON says nothing.
pub open spec fn read_metadata(metadata: Option<Seq<char>>) -> Option<JsonView> {
    match metadata {
        Some(raw) => json::parsed_json(raw),
        None => None,
    }
}

/// The user sees the stored message.
pub open spec fn row_visible(row: MessageRow) -> bool {
    visible(row.role@, read_metadata(text::opt_view(row.metadata)))
}

pub fn is_visible_message_meta(role: &str, meta: Option<&JsonValue>) -> (b: bool)
    ensures
        b == visible(
            role@,
            match meta {
                Some(value) => Some(value@),
                None => None,
            },
        ),
{
    if same_text(role, "tool") {
        return false;
    }
    match meta {
        Some(value) => match value.get_str("type") {
            Some(kind) => !(same_text(kind, "assistant_tool_calls") || same_text(
                kind,
                "translation_instruction",
            ) || same_text(kind, "tool_result")),
            None => true,
        },
        None => true,
    }
}

fn parse_metadata(metadata: Option<&str>) -> (value: Option<JsonValue>)
    ensures
        json::opt_json(value) == read_metadata(text::opt_str(metadata)),
{
    match metadata {
        Some(raw) => parse_json(raw),
        None => None,
    }
}

pub fn is_visible_message_raw(role: &str, metadata: Option<&str>) -> (b: bool)
    ensures
        b == visible(role@, read_metadata(text::opt_str(metadata))),
{
    match parse_metadata(metadata) {
        Some(value) => is_visible_message_meta(role, Some(&value)),
        None => is_visible_message_meta(role, None),
    }
}

/// A message that is too long is cut, and says so.
pub open spec fn limited(content: Seq<char>, max_chars: int) -> Seq<char> {
    if content.len() > max_chars {
        content.take(max_chars) + "…[truncated]"@
    } else {
        content
    }
}

pub fn truncate_message_content(content: &str, max_chars: usize) -> (r: String)
    ensures
        r@ == limited(content@, max_chars as int),
{
    if char_count(content) > max_chars {
        concat2(head_text(content, max_chars).as_str(), "…[truncated]")
    } else {
        content.to_owned()
    }
}

/// A stored message as it comes into memory.
pub open spec fn remembered(row: MessageRow, max_chars: int) -> MessageView {
    MessageView {
        role: row.role@,
        content: limited(row.content@, max_chars),
        metadata: read_metadata(text::opt_view(row.metadata)),
    }
}

/// The last messages that fit the window.
pub open spec fn window<T>(rows: Seq<T>) -> Seq<T> {
    if rows.len() > MAX_IN_MEMORY_HISTORY_MESSAGES {
        rows.skip(rows.len() - MAX_IN_MEMORY_HISTORY_MESSAGES)
    } else {
        rows
    }
}

/// The window of the stored messages, each cut to the limit.
pub open spec fn synced(rows: Seq<MessageRow>, max_chars: int) -> Seq<MessageView> {
    window(rows).map_values(|row: MessageRow| remembered(row, max_chars))
}

fn as_deref(v: &Option<String>) -> (r: Option<&str>)
    ensures
        text::opt_str(r) == text::opt_view(*v),
{
    match v {
        Some(s) => Some(s.as_str()),
        None => None,
    }
}

/// The messages to keep in memory, made anew from those that are stored.
pub fn sync_history_window(rows: &Vec<MessageRow>, max_chars: usize) -> (history: Vec<Message>)
    ensures
        message_views(history@) == synced(rows@, max_chars as int),
        history@.len() <= MAX_IN_MEMORY_HISTORY_MESSAGES,
{
    let mut history: Vec<Message> = Vec::new();
    let from: usize = if rows.len() > MAX_IN_MEMORY_HISTORY_MESSAGES {
        rows.len() - MAX_IN_MEMORY_HISTORY_MESSAGES
    } else {
        0
    };
    let mut i: usize = from;
    let ghost target = synced(rows@, max_chars as int);
    assert(window(rows@) =~= rows@.skip(from as int));
    while i < rows.len()
        invariant
            from <= i <= rows.len(),
            target.len() == rows@.len() - from,
            forall|k: int|
                0 <= k < target.len() ==> #[trigger] target[k] == remembered(
                    rows@[from + k],
                    max_chars as int,
                ),
            history@.len() == i - from,
            forall|k: int| 0 <= k < history@.len() ==> (#[trigger] history@[k])@ == target[k],
        decreases rows.len() - i,
    {
        let row = &rows[i];
        let message = Message {
            role: row.role.clone(),
            content: truncate_message_content(row.content.as_str(), max_chars),
            metadata: parse_metadata(as_deref(&row.metadata)),
        };
        assert(message@ == target[i - from]);
        history.push(message);
        i += 1;
    }
    assert(message_views(history@) =~= target);
    history
}

/// The messages to keep in memory after stored ones were deleted, and the boundary
/// up to which they count as mined for memories: all of them do.
pub fn sync_after_delete(remaining: &Vec<MessageRow>, max_chars: usize) -> (r: (
    Vec<Message>,
    usize,
))
    ensures
        message_views(r.0@) == synced(remaining@, max_chars as int),
        r.0@.len() <= MAX_IN_MEMORY_HISTORY_MESSAGES,
        r.1 == r.0@.len(),
{
    let history = sync_history_window(remaining, max_chars);
    let boundary = history.len();
    (history, boundary)
}

/// A stored message as it is kept in memory, in full.
pub fn message_of_row(row: MessageRow) -> (m: Message)
    ensures
        m@ == (MessageView {
            role: row.role@,
            content: row.content@,
            metadata: read_metadata(text::opt_view(row.metadata)),
        }),
{
    let metadata = parse_metadata(as_deref(&row.metadata));
    Message { role: row.role, content: row.content, metadata }
}

/// How many of the messages the user sees.
pub open spec fn visible_count(seen: Seq<bool>) -> nat
    decreases seen.len(),
{
    if seen.len() == 0 {
        0
    } else {
        visible_count(seen.drop_last()) + (if seen.last() {
            1nat
        } else {
            0nat
        })
    }
}

/// The length of the shortest beginning that holds `keep` visible messages.
pub open spec fn shortest_prefix(seen: Seq<bool>, keep: int) -> int
    decreases seen.len(),
{
    if keep <= 0 || seen.len() == 0 {
        0
    } else if visible_count(seen.drop_last()) >= keep {
        shortest_prefix(seen.drop_last(), keep)
    } else {
        seen.len() as int
    }
}

/// How many messages stay when the last `count` visible ones are deleted. What
/// only the model sees behind the last one that stays goes too.
pub open spec fn kept_after_delete(seen: Seq<bool>, count: int) -> int {
    if count <= 0 {
        seen.len() as int
    } else {
        shortest_prefix(seen, visible_count(seen) - count)
    }
}

proof fn lemma_visible_count_bound(seen: Seq<bool>)
    ensures
        visible_count(seen) <= seen.len(),
    decreases seen.len(),
{
    if seen.len() > 0 {
        lemma_visible_count_bound(seen.drop_last());
    }
}

/// Deleting the last `count` visible messages leaves a beginning of the
/// conversation that holds all visible messages but those, and that ends with
/// a visible message unless nothing is left.
pub proof fn lemma_delete_last(seen: Seq<bool>, count: int)
    requires
        count > 0,
    ensures
        0 <= kept_after_delete(seen, count) <= seen.len(),
        visible_count(seen.take(kept_after_delete(seen, count))) == (if visible_count(seen)
            > count {
            (visible_count(seen) - count) as nat
        } else {
            0
        }),
        kept_after_delete(seen, count) > 0 ==> seen[kept_after_delete(seen, count) - 1],
{
    lemma_shortest_prefix(seen, visible_count(seen) - count);
    lemma_visible_count_bound(seen);
}

/// The shortest beginning that holds `keep` visible messages holds no more, and
/// ends with one.
proof fn lemma_shortest_prefix(seen: Seq<bool>, keep: int)
    requires
        keep <= visible_count(seen),
    ensures
        0 <= shortest_prefix(seen, keep) <= seen.len(),
        visible_count(seen.take(shortest_prefix(seen, keep))) == (if keep > 0 {
            keep as nat
        } else {
            0
        }),
        shortest_prefix(seen, keep) > 0 ==> seen[shortest_prefix(seen, keep) - 1],
    decreases seen.len(),
{
    if keep <= 0 || seen.len() == 0 {
        assert(seen.take(0) =~= Seq::empty());
    } else if visible_count(seen.drop_last()) >= keep {
        lemma_shortest_prefix(seen.drop_last(), keep);
        let n = shortest_prefix(seen, keep);
        assert(seen.drop_last().take(n) =~= seen.take(n));
    } else {
        assert(seen.take(seen.len() as int) =~= seen);
    }
}

proof fn lemma_visible_count_prefix(seen: Seq<bool>, n: int)
    requires
        0 <= n <= seen.len(),
    ensures
        visible_count(seen.take(n)) <= visible_count(seen),
    decreases seen.len(),
{
    if n < seen.len() {
        lemma_visible_count_prefix(seen.drop_last(), n);
        assert(seen.drop_last().take(n) =~= seen.take(n));
    } else {
        assert(seen.take(n) =~= seen);
    }
}

/// A beginning that holds enough visible messages has the same shortest
/// beginning that holds `keep` of them.
proof fn lemma_prefix_of_prefix(seen: Seq<bool>, n: int, keep: int)
    requires
        0 <= n <= seen.len(),
        keep <= visible_count(seen.take(n)),
    ensures
        shortest_prefix(seen.take(n), keep) == shortest_prefix(seen, keep),
    decreases seen.len(),
{
    if n < seen.len() {
        let shorter = seen.drop_last();
        assert(shorter.take(n) =~= seen.take(n));
        lemma_visible_count_prefix(shorter, n);
        lemma_prefix_of_prefix(shorter, n, keep);
    } else {
        assert(seen.take(n) =~= seen);
    }
}

/// Deleting some of the last messages and then some more is the same as
/// deleting them all at once.
pub proof fn lemma_delete_twice(seen: Seq<bool>, first: int, second: int)
    requires
        first > 0,
        second > 0,
    ensures
        kept_after_delete(seen.take(kept_after_delete(seen, first)), second) == kept_after_delete(
            seen,
            first + second,
        ),
{
    let kept = kept_after_delete(seen, first);
    lemma_delete_last(seen, first);
    let total = visible_count(seen);
    if total > first {
        let keep = total - first - second;
        lemma_prefix_of_prefix(seen, kept, keep);
    }
}

fn count_visible(seen: &Vec<bool>) -> (n: usize)
    ensures
        n == visible_count(seen@),
{
    let mut n: usize = 0;
    let mut i: usize = 0;
    while i < seen.len()
        invariant
            i <= seen.len(),
            n == visible_count(seen@.take(i as int)),
            n <= i,
        decreases seen.len() - i,
    {
        assert(seen@.take(i + 1).drop_last() =~= seen@.take(i as int));
        if seen[i] {
            n += 1;
        }
        i += 1;
    }
    assert(seen@.take(i as int) =~= seen@);
    n
}

/// How many messages stay when the last `count` visible ones are deleted.
pub fn messages_kept(seen: &Vec<bool>, count: usize) -> (kept: usize)
    ensures
        kept == kept_after_delete(seen@, count as int),
        kept <= seen@.len(),
{
    if count == 0 {
        return seen.len();
    }
    let total = count_visible(seen);
    if count >= total {
        assert(shortest_prefix(seen@, visible_count(seen@) - count) == 0);
        return 0;
    }
    let keep: usize = total - count;
    let mut end: usize = seen.len();
    let mut before: usize = total;
    assert(seen@.take(end as int) =~= seen@);
    proof {
        lemma_shortest_prefix(seen@, keep as int);
    }
    while end > 0
        invariant
            end <= seen.len(),
            keep > 0,
            before >= keep,
            before == visible_count(seen@.take(end as int)),
            shortest_prefix(seen@, keep as int) == shortest_prefix(
                seen@.take(end as int),
                keep as int,
            ),
        ensures
            end <= seen.len(),
            end == shortest_prefix(seen@, keep as int),
        decreases end,
    {
        assert(seen@.take(end as int).drop_last() =~= seen@.take(end - 1));
        if seen[end - 1] {
            if before == keep {
                break ;
            }
            before -= 1;
        }
        end -= 1;
    }
    end
}

/// What the user sees of the stored messages.
pub open spec fn rows_seen(rows: Seq<MessageRow>) -> Seq<bool> {
    rows.map_values(|row: MessageRow| row_visible(row))
}

/// What the user sees of the messages in memory.
pub open spec fn messages_seen(messages: Seq<Message>) -> Seq<bool> {
    messages.map_values(|m: Message| visible(m.role@, json::opt_json(m.metadata)))
}

/// The ids of the stored messages that go when the last `count` visible ones
/// are deleted.
pub fn delete_last_messages(rows: &Vec<MessageRow>, count: usize) -> (ids: Vec<i64>)
    ensures
        ids@ == rows@.skip(kept_after_delete(rows_seen(rows@), count as int)).map_values(
            |row: MessageRow| row.id,
        ),
{
    let mut seen: Vec<bool> = Vec::new();
    let mut i: usize = 0;
    while i < rows.len()
        invariant
            i <= rows.len(),
            seen@.len() == i,
            forall|k: int| 0 <= k < i ==> #[trigger] seen@[k] == row_visible(rows@[k]),
        decreases rows.len() - i,
    {
        let row = &rows[i];
        seen.push(is_visible_message_raw(row.role.as_str(), as_deref(&row.metadata)));
        i += 1;
    }
    assert(seen@ =~= rows_seen(rows@));
    let kept = messages_kept(&seen, count);
    let mut ids: Vec<i64> = Vec::new();
    let mut j: usize = kept;
    while j < rows.len()
        invariant
            kept <= j <= rows.len(),
            ids@.len() == j - kept,
            forall|k: int| 0 <= k < ids@.len() ==> #[trigger] ids@[k] == rows@[kept + k].id,
        decreases rows.len() - j,
    {
        ids.push(rows[j].id);
        j += 1;
    }
    assert(ids@ =~= rows@.skip(kept as int).map_values(|row: MessageRow| row.id));
    ids
}

/// Deletes the last `count` visible messages of a conversation that is only in
/// memory. Returns the boundary up to which messages were mined for memories,
/// which does not reach past the end.
pub fn delete_last_in_memory(history: &mut Vec<Message>, count: usize, boundary: usize) -> (r: usize)
    ensures
        final(history)@ == old(history)@.take(
            kept_after_delete(messages_seen(old(history)@), count as int),
        ),
        r == (if count > 0 && boundary > final(history)@.len() {
            final(history)@.len() as usize
        } else {
            boundary
        }),
{
    let mut seen: Vec<bool> = Vec::new();
    let mut i: usize = 0;
    while i < history.len()
        invariant
            history@ == old(history)@,
            i <= history@.len(),
            seen@.len() == i,
            forall|k: int|
                0 <= k < i ==> #[trigger] seen@[k] == visible(
                    history@[k].role@,
                    json::opt_json(history@[k].metadata),
                ),
        decreases history.len() - i,
    {
        let message = &history[i];
        let is_seen = match &message.metadata {
            Some(value) => is_visible_message_meta(message.role.as_str(), Some(value)),
            None => is_visible_message_meta(message.role.as_str(), None),
        };
        seen.push(is_seen);
        i += 1;
    }
    assert(seen@ =~= messages_seen(old(history)@));
    let kept = messages_kept(&seen, count);
    history.truncate(kept);
    assert(history@ =~= old(history)@.take(kept as int));
    if count > 0 && boundary > history.len() {
        history.len()
    } else {
        boundary
    }
}

/// The last visible message, where it is the user's: its id and its text. The
/// messages come newest first.
pub open spec fn trailing_user(rows: Seq<MessageRow>) -> Option<(i64, Seq<char>)>
    decreases rows.len(),
{
    if rows.len() == 0 {
        None
    } else if !row_visible(rows[0]) {
        trailing_user(rows.drop_first())
    } else if rows[0].role@ == "user"@ {
        Some((rows[0].id, rows[0].content@))
    } else {
        None
    }
}

pub fn resolve_trailing_visible_user_message(rows: &Vec<MessageRow>) -> (r: Option<(i64, String)>)
    ensures
        match r {
            Some((id, content)) => trailing_user(rows@) == Some((id, content@)),
            None => trailing_user(rows@) is None,
        },
{
    let mut i: usize = 0;
    assert(rows@.skip(0) =~= rows@);
    while i < rows.len()
        invariant
            i <= rows.len(),
            trailing_user(rows@) == trailing_user(rows@.skip(i as int)),
        decreases rows.len() - i,
    {
        let row = &rows[i];
        assert(rows@.skip(i as int)[0] == *row);
        if is_visible_message_raw(row.role.as_str(), as_deref(&row.metadata)) {
            if same_text(row.role.as_str(), "user") {
                return Some((row.id, row.content.clone()));
            } else {
                return None;
            }
        }
        assert(rows@.skip(i as int).drop_first() =~= rows@.skip(i + 1));
        i += 1;
    }
    None
}

/// A hidden message is never stored; a message whose reply is made anew is
/// stored only where it is missing; any other message is stored.
pub fn should_insert_user_message_for_request(
    hidden: bool,
    regenerate: bool,
    has_trailing_user_message: bool,
) -> (b: bool)
    ensures
        b == inserts_user_message(hidden, regenerate, has_trailing_user_message),
{
    if hidden {
        return false;
    }
    if regenerate {
        !has_trailing_user_message
    } else {
        true
    }
}

pub open spec fn inserts_user_message(
    hidden: bool,
    regenerate: bool,
    has_trailing_user_message: bool,
) -> bool {
    !hidden && (regenerate ==> !has_trailing_user_message)
}

/// Making a reply anew never stores the user's message twice: where the last
/// messages were deleted down to one of the user's, that message is found again,
/// and nothing is stored.
pub proof fn lemma_regenerate_keeps_user_message(hidden: bool, rows: Seq<MessageRow>, count: int)
    requires
        count > 0,
        kept_after_delete(rows_seen(rows), count) > 0,
        rows[kept_after_delete(rows_seen(rows), count) - 1].role@ == "user"@,
    ensures
        ({
            let kept = kept_after_delete(rows_seen(rows), count);
            trailing_user(rows.take(kept).reverse()) == Some(
                (rows[kept - 1].id, rows[kept - 1].content@),
            )
        }),
        !inserts_user_message(hidden, true, true),
{
    let seen = rows_seen(rows);
    let kept = kept_after_delete(seen, count);
    lemma_delete_last(seen, count);
    assert(row_visible(rows[kept - 1]));
    assert(rows.take(kept).reverse()[0] == rows[kept - 1]);
}

/// The history with the user's message at its end: where it is not there, it
/// is put there, and the window is kept.
pub open spec fn aligned(history: Seq<MessageView>, content: Seq<char>) -> Seq<MessageView> {
    if history.len() > 0 && history.last().role == "user"@ {
        history
    } else {
        window(history.push(MessageView { role: "user"@, content, metadata: None }))
    }
}

pub fn align_history(history: &mut Vec<Message>, content: &str)
    ensures
        message_views(final(history)@) == aligned(message_views(old(history)@), content@),
{
    let n = history.len();
    if n > 0 && same_text(history[n - 1].role.as_str(), "user") {
        assert(message_views(history@).last() == history@[n - 1]@);
        return ;
    }
    proof {
        if n > 0 {
            assert(message_views(history@).last() == history@[n - 1]@);
        }
    }
    let message = Message {
        role: "user".to_owned(),
        content: content.to_owned(),
        metadata: None,
    };
    let ghost added = message@;
    history.push(message);
    let ghost all = history@;
    assert(message_views(all) =~= message_views(old(history)@).push(added));
    let ghost mut dropped: int = 0;
    while history.len() > MAX_IN_MEMORY_HISTORY_MESSAGES
        invariant
            0 <= dropped <= all.len(),
            history@ == all.skip(dropped),
            dropped > 0 ==> history@.len() >= MAX_IN_MEMORY_HISTORY_MESSAGES,
        decreases history.len(),
    {
        let first = history.remove(0);
        proof {
            dropped = dropped + 1;
            assert(history@ =~= all.skip(dropped));
        }
    }
    assert(message_views(history@) =~= window(message_views(all)));
}

/// After alignment the conversation ends with a message of the user's, and the
/// window is kept where it was kept before.
pub proof fn lemma_aligned(history: Seq<MessageView>, content: Seq<char>)
    ensures
        aligned(history, content).len() > 0,
        aligned(history, content).last().role == "user"@,
        history.len() <= MAX_IN_MEMORY_HISTORY_MESSAGES ==> aligned(history, content).len()
            <= MAX_IN_MEMORY_HISTORY_MESSAGES,
{
}

} // verus!
