//! Stored conversations: listing, loading and editing them.

use vstd::prelude::*;
use crate::error;
use crate::error::KokoroError;
use crate::history;
use crate::history::{is_visible_message_raw, truncate_message_content, MessageRow};
use crate::json;
use crate::json::{parse_json, JsonValue, JsonView};
use crate::text;
use crate::text::{
    concat2, concat3, decimal_text, same_text, signed_decimal_text, text_not_after,
    trim_text,
};

verus! {

broadcast use vstd::string::group_string_axioms;

/// A conversation as it is listed.
#[derive(Debug)]
pub struct ConversationInfo {
    pub id: String,
    pub character_id: String,
    pub title: String,
    pub topic: String,
    pub pinned_state: String,
    pub created_at: String,
    pub updated_at: String,
}

/// A message as it is loaded.
#[derive(Debug)]
pub struct ConversationMessage {
    pub id: i64,
    pub role: String,
    pub content: String,
    pub metadata: Option<String>,
    pub created_at: String,
}

/// A conversation as it is loaded.
#[derive(Debug)]
pub struct LoadedConversation {
    pub topic: String,
    pub pinned_state: String,
    pub messages: Vec<ConversationMessage>,
}

#[derive(Debug)]
pub struct ListConversationsRequest {
    pub character_id: String,
}

#[derive(Debug)]
pub struct LoadConversationRequest {
    pub id: String,
}

#[derive(Debug)]
pub struct DeleteConversationRequest {
    pub id: String,
}

#[derive(Debug)]
pub struct RenameConversationRequest {
    pub id: String,
    pub title: String,
}

/// What is not given stays as it is.
#[derive(Debug)]
pub struct UpdateConversationStateRequest {
    pub id: String,
    pub topic: Option<String>,
    pub pinned_state: Option<String>,
}

/// The state says that the conversation is pinned.
pub open spec fn pinned_value(state: Option<JsonView>) -> bool {
    match state {
        Some(value) => json::bool_field(value, "pinned"@) == Some(true),
        None => false,
    }
}

/// A stored state is that of a pinned conversation: an object whose field
/// `pinned` is true.
pub open spec fn pinned(state: Seq<char>) -> bool {
    let s = text::trim(state);
    s.len() > 0 && s != "{}"@ && pinned_value(json::parsed_json(s))
}

pub fn is_pinned_value(state: &Option<JsonValue>) -> (b: bool)
    ensures
        b == pinned_value(json::opt_json(*state)),
{
    match state {
        Some(value) => value.get_bool("pinned") == Some(true),
        None => false,
    }
}

pub fn is_pinned_conversation_state(pinned_state: &str) -> (b: bool)
    ensures
        b == pinned(pinned_state@),
{
    let s = trim_text(pinned_state);
    if s.as_str().is_empty() || same_text(s.as_str(), "{}") {
        return false;
    }
    is_pinned_value(&parse_json(s.as_str()))
}

/// A conversation and whether it is pinned.
#[derive(Debug)]
pub struct ListedConversation {
    pub info: ConversationInfo,
    pub pinned: bool,
}

/// `a` may stand before `b`: pinned conversations come first, and apart from
/// that those that changed last.
pub open spec fn listed_le(a: ListedConversation, b: ListedConversation) -> bool {
    if a.pinned != b.pinned {
        a.pinned
    } else {
        text::text_le(b.info.updated_at@, a.info.updated_at@)
    }
}

/// Where a conversation goes among `sorted`: behind all that may stand before
/// it.
pub open spec fn listed_pos(sorted: Seq<ListedConversation>, x: ListedConversation) -> int
    decreases sorted.len(),
{
    if sorted.len() == 0 || listed_le(sorted.last(), x) {
        sorted.len() as int
    } else {
        listed_pos(sorted.drop_last(), x)
    }
}

/// The conversations in the order in which they are listed; those that may
/// stand in either order keep the one they have.
pub open spec fn in_list_order(list: Seq<ListedConversation>) -> Seq<ListedConversation>
    decreases list.len(),
{
    if list.len() == 0 {
        list
    } else {
        let sorted = in_list_order(list.drop_last());
        sorted.insert(listed_pos(sorted, list.last()), list.last())
    }
}

/// A conversation goes right behind the last one that may stand before it.
pub proof fn lemma_listed_pos(sorted: Seq<ListedConversation>, x: ListedConversation)
    ensures
        0 <= listed_pos(sorted, x) <= sorted.len(),
        forall|i: int|
            listed_pos(sorted, x) <= i < sorted.len() ==> !listed_le(#[trigger] sorted[i], x),
        listed_pos(sorted, x) > 0 ==> listed_le(sorted[listed_pos(sorted, x) - 1], x),
    decreases sorted.len(),
{
    if sorted.len() == 0 || listed_le(sorted.last(), x) {
    } else {
        lemma_listed_pos(sorted.drop_last(), x);
        let p = listed_pos(sorted, x);
        assert forall|i: int| p <= i < sorted.len() implies !listed_le(#[trigger] sorted[i], x) by {
            if i < sorted.len() - 1 {
                assert(sorted.drop_last()[i] == sorted[i]);
            }
        }
    }
}

proof fn lemma_listed_total(a: ListedConversation, b: ListedConversation)
    ensures
        listed_le(a, b) || listed_le(b, a),
{
    text::lemma_text_le_total(a.info.updated_at@, b.info.updated_at@);
}

/// The order of the list is transitive.
pub proof fn lemma_listed_transitive(
    a: ListedConversation,
    b: ListedConversation,
    c: ListedConversation,
)
    requires
        listed_le(a, b),
        listed_le(b, c),
    ensures
        listed_le(a, c),
{
    if a.pinned == b.pinned && b.pinned == c.pinned {
        text::lemma_text_le_transitive(
            c.info.updated_at@,
            b.info.updated_at@,
            a.info.updated_at@,
        );
    }
}

/// The list is ordered: pinned conversations first, then by the last change,
/// latest first.
pub proof fn lemma_list_ordered(list: Seq<ListedConversation>)
    ensures
        forall|i: int, j: int|
            0 <= i < j < in_list_order(list).len() ==> listed_le(
                #[trigger] in_list_order(list)[i],
                #[trigger] in_list_order(list)[j],
            ),
    decreases list.len(),
{
    if list.len() > 0 {
        let sorted = in_list_order(list.drop_last());
        let x = list.last();
        lemma_list_ordered(list.drop_last());
        lemma_listed_pos(sorted, x);
        let p = listed_pos(sorted, x);
        let r = in_list_order(list);
        assert forall|i: int, j: int| 0 <= i < j < r.len() implies listed_le(
            #[trigger] r[i],
            #[trigger] r[j],
        ) by {
            let si = if i < p { i } else { i - 1 };
            let sj = if j < p { j } else { j - 1 };
            if i != p && j != p {
                assert(listed_le(sorted[si], sorted[sj]));
            } else if i == p {
                assert(!listed_le(sorted[sj], x));
                lemma_listed_total(x, sorted[sj]);
            } else {
                if si < p - 1 {
                    assert(listed_le(sorted[si], sorted[p - 1]));
                    lemma_listed_transitive(sorted[si], sorted[p - 1], x);
                }
            }
        }
    }
}

/// Listing loses no conversation and makes none up.
pub proof fn lemma_list_permutes(list: Seq<ListedConversation>)
    ensures
        in_list_order(list).to_multiset() == list.to_multiset(),
        in_list_order(list).len() == list.len(),
    decreases list.len(),
{
    if list.len() > 0 {
        let sorted = in_list_order(list.drop_last());
        let x = list.last();
        lemma_list_permutes(list.drop_last());
        lemma_listed_pos(sorted, x);
        broadcast use vstd::seq_lib::group_to_multiset_ensures;
        vstd::seq_lib::to_multiset_insert(sorted, listed_pos(sorted, x), x);
        assert(list =~= list.drop_last().push(x));
    }
}

fn stands_before(a: &ListedConversation, b: &ListedConversation) -> (r: bool)
    ensures
        r == listed_le(*a, *b),
{
    if a.pinned != b.pinned {
        a.pinned
    } else {
        text_not_after(b.info.updated_at.as_str(), a.info.updated_at.as_str())
    }
}

/// Puts conversations in the order in which they are listed.
pub fn order_conversations(list: Vec<ListedConversation>) -> (r: Vec<ListedConversation>)
    ensures
        r@ == in_list_order(list@),
{
    let ghost all = list@;
    let mut list = list;
    let mut sorted: Vec<ListedConversation> = Vec::new();
    let ghost mut done: int = 0;
    while list.len() > 0
        invariant
            0 <= done <= all.len(),
            list@ == all.skip(done),
            sorted@ == in_list_order(all.take(done)),
        decreases list.len(),
    {
        let ghost before = sorted@;
        let x = list.remove(0);
        let mut at: usize = sorted.len();
        assert(before.take(at as int) =~= before);
        while at > 0 && !stands_before(&sorted[at - 1], &x)
            invariant
                at <= sorted@.len(),
                sorted@ == before,
                listed_pos(before, x) == listed_pos(before.take(at as int), x),
            decreases at,
        {
            assert(before.take(at as int).drop_last() =~= before.take(at - 1));
            at -= 1;
        }
        proof {
            let now = before.take(at as int);
            assert(at > 0 ==> now.last() == before[at - 1]);
            assert(x == all[done]);
            assert(all.take(done + 1).drop_last() =~= all.take(done));
        }
        sorted.insert(at, x);
        proof {
            assert(list@ =~= all.skip(done + 1));
            done = done + 1;
        }
    }
    assert(all.take(done) =~= all);
    sorted
}

/// The conversations with the mark whether they are pinned.
pub open spec fn marked(list: Seq<ConversationInfo>) -> Seq<ListedConversation> {
    list.map_values(
        |info: ConversationInfo| ListedConversation { info, pinned: pinned(info.pinned_state@) },
    )
}

/// The conversations in the order in which they are listed.
pub fn list_conversations(list: Vec<ConversationInfo>) -> (r: Vec<ConversationInfo>)
    ensures
        r@ == in_list_order(marked(list@)).map_values(|c: ListedConversation| c.info),
{
    let ghost all = list@;
    let mut list = list;
    let mut entries: Vec<ListedConversation> = Vec::new();
    while list.len() > 0
        invariant
            entries@.len() + list@.len() == all.len(),
            list@ == all.skip(entries@.len() as int),
            forall|k: int|
                0 <= k < entries@.len() ==> #[trigger] entries@[k] == (ListedConversation {
                    info: all[k],
                    pinned: pinned(all[k].pinned_state@),
                }),
        decreases list.len(),
    {
        let info = list.remove(0);
        let is_pinned = is_pinned_conversation_state(info.pinned_state.as_str());
        entries.push(ListedConversation { info, pinned: is_pinned });
    }
    assert(entries@ =~= marked(all));
    let mut sorted = order_conversations(entries);
    let ghost ordered = sorted@;
    let mut r: Vec<ConversationInfo> = Vec::new();
    while sorted.len() > 0
        invariant
            r@.len() + sorted@.len() == ordered.len(),
            sorted@ == ordered.skip(r@.len() as int),
            forall|k: int| 0 <= k < r@.len() ==> #[trigger] r@[k] == ordered[k].info,
        decreases sorted.len(),
    {
        let entry = sorted.remove(0);
        r.push(entry.info);
    }
    assert(r@ =~= ordered.map_values(|c: ListedConversation| c.info));
    r
}

/// The message is shown when a conversation is loaded. Tool results are: they
/// are folded into the reply that they belong to.
pub open spec fn loaded(metadata: Option<JsonView>) -> bool {
    let kind = history::technical_type(metadata);
    kind != Some("assistant_tool_calls"@) && kind != Some("translation_instruction"@)
}

fn is_loaded(metadata: &Option<String>) -> (b: bool)
    ensures
        b == loaded(history::read_metadata(text::opt_view(*metadata))),
{
    match metadata {
        Some(raw) => match parse_json(raw.as_str()) {
            Some(value) => match value.get_str("type") {
                Some(kind) => !(same_text(kind, "assistant_tool_calls") || same_text(
                    kind,
                    "translation_instruction",
                )),
                None => true,
            },
            None => true,
        },
        None => true,
    }
}

pub open spec fn message_loaded(message: ConversationMessage) -> bool {
    loaded(history::read_metadata(text::opt_view(message.metadata)))
}

/// The messages that are shown, in order.
pub fn load_conversation(messages: Vec<ConversationMessage>) -> (r: Vec<ConversationMessage>)
    ensures
        r@ == messages@.filter(|m: ConversationMessage| message_loaded(m)),
{
    let ghost all = messages@;
    let ghost keep = |m: ConversationMessage| message_loaded(m);
    let mut messages = messages;
    let mut r: Vec<ConversationMessage> = Vec::new();
    let ghost mut done: int = 0;
    assert(all.take(0).filter(keep) =~= Seq::empty()) by {
        reveal(Seq::filter);
    }
    while messages.len() > 0
        invariant
            0 <= done <= all.len(),
            messages@ == all.skip(done),
            keep == (|m: ConversationMessage| message_loaded(m)),
            r@ == all.take(done).filter(keep),
        decreases messages.len(),
    {
        let message = messages.remove(0);
        proof {
            assert(message == all[done]);
            assert(all.take(done + 1) =~= all.take(done).push(message));
            all.take(done).lemma_filter_push(message, keep);
            assert(messages@ =~= all.skip(done + 1));
            done = done + 1;
        }
        if is_loaded(&message.metadata) {
            r.push(message);
        }
    }
    assert(all.take(done) =~= all);
    r
}

/// The conversation that is current after one was deleted.
pub fn current_after_delete(current: Option<String>, deleted: &str) -> (r: Option<String>)
    ensures
        text::opt_view(r) == (if text::opt_view(current) == Some(deleted@) {
            None
        } else {
            text::opt_view(current)
        }),
{
    match current {
        Some(id) => if same_text(id.as_str(), deleted) {
            None
        } else {
            Some(id)
        },
        None => None,
    }
}

/// The topic and the state of a conversation after a request to change them.
pub fn update_conversation_state(
    request: UpdateConversationStateRequest,
    topic: String,
    pinned_state: String,
) -> (r: (String, String))
    ensures
        r.0@ == (match text::opt_view(request.topic) {
            Some(t) => t,
            None => topic@,
        }),
        r.1@ == (match text::opt_view(request.pinned_state) {
            Some(s) => s,
            None => pinned_state@,
        }),
{
    let topic = match request.topic {
        Some(t) => t,
        None => topic,
    };
    let pinned_state = match request.pinned_state {
        Some(s) => s,
        None => pinned_state,
    };
    (topic, pinned_state)
}

/// A request to change the text of a message, which is named by its id, or by
/// its position among the visible messages of a conversation.
#[derive(Debug)]
pub struct EditConversationMessageRequest {
    pub conversation_id: Option<String>,
    pub message_id: Option<i64>,
    pub visible_index: Option<usize>,
    pub new_content: String,
}

/// A message that was changed.
#[derive(Debug)]
pub struct EditConversationMessageResponse {
    pub message_id: i64,
    pub updated_content: String,
}

/// How the message of an edit is found.
#[derive(Debug)]
pub enum EditLocator {
    /// By its id; the conversation that owns it must be the given one, where
    /// one is given.
    ById(i64, Option<String>),
    /// By its position among the visible messages of a conversation.
    ByIndex(String, usize),
}

/// An edit whose message is still to be found.
#[derive(Debug)]
pub struct EditPlan {
    pub locator: EditLocator,
    pub content: String,
}

/// An edit whose message was found, in the conversation that owns it.
#[derive(Debug)]
pub struct EditTarget {
    pub message_id: i64,
    pub conversation_id: String,
    pub content: String,
}

/// What is wrong with a request, if anything.
pub open spec fn edit_fault(request: EditConversationMessageRequest) -> Option<Seq<char>> {
    if text::blank(request.new_content@) {
        Some("Message content cannot be empty"@)
    } else if request.message_id is None && !(request.conversation_id is Some
        && request.visible_index is Some) {
        Some("Either message_id or (conversation_id, visible_index) must be provided"@)
    } else {
        None
    }
}

/// The locator that a request gives: the id counts, where there is one.
pub open spec fn locator_of(request: EditConversationMessageRequest) -> EditLocator {
    match request.message_id {
        Some(id) => EditLocator::ById(id, request.conversation_id),
        None => EditLocator::ByIndex(request.conversation_id->0, request.visible_index->0),
    }
}

/// Checks a request to edit a message. The new text is trimmed and cut to the
/// limit.
pub fn plan_edit(request: EditConversationMessageRequest, max_message_chars: usize) -> (r: Result<
    EditPlan,
    KokoroError,
>)
    ensures
        match r {
            Ok(plan) => {
                &&& edit_fault(request) is None
                &&& plan.locator == locator_of(request)
                &&& plan.content@ == history::limited(
                    text::trim(request.new_content@),
                    max_message_chars as int,
                )
            },
            Err(e) => edit_fault(request) matches Some(words) && error::is_validation(e, words),
        },
{
    let trimmed = trim_text(request.new_content.as_str());
    if trimmed.as_str().is_empty() {
        return Err(KokoroError::Validation("Message content cannot be empty".to_owned()));
    }
    let content = truncate_message_content(trimmed.as_str(), max_message_chars);
    match request.message_id {
        Some(id) => Ok(
            EditPlan { locator: EditLocator::ById(id, request.conversation_id), content },
        ),
        None => match (request.conversation_id, request.visible_index) {
            (Some(conversation_id), Some(index)) => Ok(
                EditPlan { locator: EditLocator::ByIndex(conversation_id, index), content },
            ),
            _ => Err(
                KokoroError::Validation(
                    "Either message_id or (conversation_id, visible_index) must be provided".to_owned(),
                ),
            ),
        },
    }
}

/// The visible messages, by their ids.
pub open spec fn visible_ids(rows: Seq<MessageRow>) -> Seq<i64>
    decreases rows.len(),
{
    if rows.len() == 0 {
        Seq::empty()
    } else if history::row_visible(rows.last()) {
        visible_ids(rows.drop_last()).push(rows.last().id)
    } else {
        visible_ids(rows.drop_last())
    }
}

/// Only a message that the user sees is found by its position: every id in the
/// list is that of a visible message.
pub proof fn lemma_visible_ids(rows: Seq<MessageRow>, i: int)
    requires
        0 <= i < visible_ids(rows).len(),
    ensures
        exists|k: int|
            0 <= k < rows.len() && history::row_visible(#[trigger] rows[k]) && rows[k].id
                == visible_ids(rows)[i],
    decreases rows.len(),
{
    let earlier = visible_ids(rows.drop_last());
    if i < earlier.len() {
        lemma_visible_ids(rows.drop_last(), i);
        let k = choose|k: int|
            0 <= k < rows.drop_last().len() && history::row_visible(
                #[trigger] rows.drop_last()[k],
            ) && rows.drop_last()[k].id == earlier[i];
        assert(rows[k] == rows.drop_last()[k]);
    } else {
        assert(history::row_visible(rows[rows.len() - 1]));
    }
}

fn collect_visible_ids(rows: &Vec<MessageRow>) -> (ids: Vec<i64>)
    ensures
        ids@ == visible_ids(rows@),
{
    let mut ids: Vec<i64> = Vec::new();
    let mut i: usize = 0;
    while i < rows.len()
        invariant
            i <= rows.len(),
            ids@ == visible_ids(rows@.take(i as int)),
        decreases rows.len() - i,
    {
        let row = &rows[i];
        proof {
            assert(rows@.take(i + 1).drop_last() =~= rows@.take(i as int));
            assert(rows@.take(i + 1).last() == *row);
        }
        let metadata = match &row.metadata {
            Some(raw) => Some(raw.as_str()),
            None => None,
        };
        if is_visible_message_raw(row.role.as_str(), metadata) {
            ids.push(row.id);
        }
        i += 1;
    }
    assert(rows@.take(i as int) =~= rows@);
    ids
}

/// The message with the id `id` is in `owner`, if it is stored at all; that is
/// what decides which conversation an edit concerns, and a conversation that
/// the request names must be that one.
pub fn locate_by_id(
    id: i64,
    requested_conversation_id: Option<&str>,
    owner: Option<String>,
    content: String,
) -> (r: Result<EditTarget, KokoroError>)
    ensures
        match owner {
            None => r matches Err(e) && error::is_not_found(
                e,
                "Message with id "@ + text::signed_decimal(id as int) + " not found"@,
            ),
            Some(conversation_id) => if text::opt_str(requested_conversation_id) matches Some(wanted)
                && wanted != conversation_id@ {
                r matches Err(e) && error::is_validation(
                    e,
                    "Message with id "@ + text::signed_decimal(id as int)
                        + " does not belong to conversation "@ + text::opt_str(
                        requested_conversation_id,
                    )->0,
                )
            } else {
                r matches Ok(target) && target.message_id == id && target.conversation_id
                    == conversation_id && target.content == content
            },
        },
{
    match owner {
        None => {
            let id_words = signed_decimal_text(id);
            Err(
                KokoroError::NotFound(
                    concat3("Message with id ", id_words.as_str(), " not found"),
                ),
            )
        },
        Some(conversation_id) => {
            if let Some(wanted) = requested_conversation_id {
                if !same_text(wanted, conversation_id.as_str()) {
                    let id_words = signed_decimal_text(id);
                    let head = concat3(
                        "Message with id ",
                        id_words.as_str(),
                        " does not belong to conversation ",
                    );
                    return Err(KokoroError::Validation(concat2(head.as_str(), wanted)));
                }
            }
            Ok(EditTarget { message_id: id, conversation_id, content })
        },
    }
}

/// The visible message at position `index` of a conversation, whose messages
/// are `rows`.
pub fn locate_by_index(
    conversation_id: String,
    index: usize,
    rows: &Vec<MessageRow>,
    content: String,
) -> (r: Result<EditTarget, KokoroError>)
    ensures
        if index < visible_ids(rows@).len() {
            r matches Ok(target) && target.message_id == visible_ids(rows@)[index as int]
                && target.conversation_id == conversation_id && target.content == content
        } else {
            r matches Err(e) && error::is_not_found(
                e,
                "Message at index "@ + text::decimal(index as nat) + " not found in conversation "@
                    + conversation_id@,
            )
        },
{
    let ids = collect_visible_ids(rows);
    if index < ids.len() {
        Ok(EditTarget { message_id: ids[index], conversation_id, content })
    } else {
        let index_words = decimal_text(index as u64);
        let head = concat3(
            "Message at index ",
            index_words.as_str(),
            " not found in conversation ",
        );
        Err(KokoroError::NotFound(concat2(head.as_str(), conversation_id.as_str())))
    }
}

impl EditTarget {
    /// The message was written, where exactly one row was.
    pub fn message_written(&self, rows_affected: u64) -> (r: Result<(), KokoroError>)
        ensures
            if rows_affected == 1 {
                r is Ok
            } else {
                r matches Err(e) && error::is_not_found(
                    e,
                    "Message with id "@ + text::signed_decimal(self.message_id as int)
                        + " not found in conversation "@ + self.conversation_id@,
                )
            },
    {
        if rows_affected == 1 {
            return Ok(());
        }
        let id_words = signed_decimal_text(self.message_id);
        let head = concat3("Message with id ", id_words.as_str(), " not found in conversation ");
        Err(KokoroError::NotFound(concat2(head.as_str(), self.conversation_id.as_str())))
    }

    /// The conversation was marked as changed, where exactly one row was.
    pub fn conversation_marked(&self, rows_affected: u64) -> (r: Result<(), KokoroError>)
        ensures
            if rows_affected == 1 {
                r is Ok
            } else {
                r matches Err(e) && error::is_not_found(
                    e,
                    "Conversation "@ + self.conversation_id@ + " not found"@,
                )
            },
    {
        if rows_affected == 1 {
            return Ok(());
        }
        Err(
            KokoroError::NotFound(
                concat3("Conversation ", self.conversation_id.as_str(), " not found"),
            ),
        )
    }

    /// The messages in memory are those of the edited conversation, and are
    /// made anew.
    pub fn concerns(&self, current_conversation_id: Option<&str>) -> (b: bool)
        ensures
            b == (text::opt_str(current_conversation_id) == Some(self.conversation_id@)),
    {
        match current_conversation_id {
            Some(id) => same_text(id, self.conversation_id.as_str()),
            None => false,
        }
    }

    pub fn response(self) -> (r: EditConversationMessageResponse)
        ensures
            r.message_id == self.message_id,
            r.updated_content == self.content,
    {
        EditConversationMessageResponse {
            message_id: self.message_id,
            updated_content: self.content,
        }
    }
}

} // verus!
