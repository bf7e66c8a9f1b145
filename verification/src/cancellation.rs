//! Cancelling a chat turn while it runs.

use vstd::prelude::*;
use crate::json::{json_text, JsonObject, JsonValue, JsonView};
use crate::text;
use crate::text::{concat2, same_text};
use crate::text_table::TextTable;

verus! {

broadcast use vstd::string::group_string_axioms;

/// The turns that run, each with the reason for which it was cancelled, if it
/// was.
pub struct TurnCancellationState {
    turns: TextTable<Option<String>>,
}

impl View for TurnCancellationState {
    type V = Map<Seq<char>, Option<Seq<char>>>;

    closed spec fn view(&self) -> Map<Seq<char>, Option<Seq<char>>> {
        self.turns@.map_values(|reason: Option<String>| text::opt_view(reason))
    }
}

/// The turn was cancelled.
pub open spec fn cancelled(turns: Map<Seq<char>, Option<Seq<char>>>, turn_id: Seq<char>) -> bool {
    turns.contains_key(turn_id) && turns[turn_id] is Some
}

/// The turns after one was registered. One that is there stays as it is.
pub open spec fn registered(
    turns: Map<Seq<char>, Option<Seq<char>>>,
    turn_id: Seq<char>,
) -> Map<Seq<char>, Option<Seq<char>>> {
    if turns.contains_key(turn_id) {
        turns
    } else {
        turns.insert(turn_id, None)
    }
}

/// The turns after one was cancelled. The first reason counts.
pub open spec fn with_cancelled(
    turns: Map<Seq<char>, Option<Seq<char>>>,
    turn_id: Seq<char>,
    reason: Option<Seq<char>>,
) -> Map<Seq<char>, Option<Seq<char>>> {
    if turns.contains_key(turn_id) && turns[turn_id] is None {
        turns.insert(turn_id, reason)
    } else {
        turns
    }
}

/// What a turn that waits for another one to end is told.
#[derive(Debug)]
pub enum WaitEvent {
    /// The turn with this id has ended.
    Finished(String),
    /// Some notices were missed.
    Lagged,
    /// The time is over, or there will be no more notices.
    Over,
}

/// The words of the error that a cancelled turn ends with.
pub open spec fn cancelled_words() -> Seq<char> {
    "turn cancelled by user"@
}

/// The payload of one piece of text of a turn.
pub open spec fn delta_payload(
    turn_id: Seq<char>,
    delta: Seq<char>,
    client_request_id: Option<Seq<char>>,
) -> JsonView {
    let fields = seq![("turn_id"@, JsonView::Text(turn_id)), ("delta"@, JsonView::Text(delta))];
    JsonView::Object(
        match client_request_id {
            Some(id) => fields.push(("client_request_id"@, JsonView::Text(id))),
            None => fields,
        },
    )
}

impl TurnCancellationState {
    /// No turn runs.
    pub fn new() -> (r: Self)
        ensures
            r@ == Map::<Seq<char>, Option<Seq<char>>>::empty(),
    {
        let r = TurnCancellationState { turns: TextTable::new() };
        assert(r@ =~= Map::<Seq<char>, Option<Seq<char>>>::empty());
        r
    }

    pub fn register_turn(&mut self, turn_id: &str)
        ensures
            final(self)@ == registered(old(self)@, turn_id@),
    {
        if !self.turns.has(turn_id) {
            self.turns.insert(turn_id.to_owned(), None);
        }
        assert(self@ =~= registered(old(self)@, turn_id@));
    }

    pub fn is_cancelled(&self, turn_id: &str) -> (b: bool)
        ensures
            b == cancelled(self@, turn_id@),
    {
        match self.turns.get(turn_id) {
            Some(reason) => reason.is_some(),
            None => false,
        }
    }

    pub fn has_turn(&self, turn_id: &str) -> (b: bool)
        ensures
            b == self@.contains_key(turn_id@),
    {
        self.turns.has(turn_id)
    }

    pub fn ensure_turn_not_cancelled(&self, turn_id: &str) -> (r: Result<(), String>)
        ensures
            match r {
                Ok(_) => !cancelled(self@, turn_id@),
                Err(error) => cancelled(self@, turn_id@) && error@ == cancelled_words(),
            },
    {
        if self.is_cancelled(turn_id) {
            return Err("turn cancelled by user".to_owned());
        }
        Ok(())
    }

    /// The payload of one piece of text, unless the turn was cancelled.
    pub fn build_turn_delta_payload_if_not_cancelled(
        &self,
        turn_id: &str,
        delta: &str,
        client_request_id: Option<&str>,
    ) -> (r: Result<JsonValue, String>)
        ensures
            match r {
                Ok(payload) => {
                    &&& !cancelled(self@, turn_id@)
                    &&& payload@ == delta_payload(turn_id@, delta@, text::opt_str(client_request_id))
                },
                Err(error) => cancelled(self@, turn_id@) && error@ == cancelled_words(),
            },
    {
        if let Err(error) = self.ensure_turn_not_cancelled(turn_id) {
            return Err(error);
        }
        let fields = JsonObject::new().with("turn_id", json_text(turn_id)).with(
            "delta",
            json_text(delta),
        );
        let fields = match client_request_id {
            Some(id) => fields.with("client_request_id", json_text(id)),
            None => fields,
        };
        assert(fields@ =~= delta_payload(turn_id@, delta@, text::opt_str(client_request_id))->Object_0);
        Ok(fields.done())
    }

    /// Cancels a turn. Cancelling it again changes nothing.
    pub fn cancel_turn(&mut self, turn_id: &str, reason: Option<String>) -> (r: Result<(), String>)
        ensures
            final(self)@ == with_cancelled(old(self)@, turn_id@, text::opt_view(reason)),
            match r {
                Ok(_) => old(self)@.contains_key(turn_id@),
                Err(error) => !old(self)@.contains_key(turn_id@) && error@ == "unknown turn_id: "@
                    + turn_id@,
            },
    {
        let ghost before = self@;
        let unset = match self.turns.get(turn_id) {
            Some(reason) => reason.is_none(),
            None => {
                return Err(concat2("unknown turn_id: ", turn_id));
            },
        };
        if unset {
            self.turns.insert(turn_id.to_owned(), reason);
            assert(self@ =~= with_cancelled(before, turn_id@, text::opt_view(reason)));
        }
        Ok(())
    }

    /// A turn has ended.
    pub fn clear_turn(&mut self, turn_id: &str)
        ensures
            final(self)@ == old(self)@.remove(turn_id@),
    {
        let removed = self.turns.remove(turn_id);
        assert(self@ =~= old(self)@.remove(turn_id@));
    }

    /// Whether waiting for a cancelled turn to end is over.
    pub fn wait_over(&self, turn_id: &str, event: &WaitEvent) -> (b: bool)
        ensures
            b == (match *event {
                WaitEvent::Finished(id) => id@ == turn_id@,
                WaitEvent::Lagged => !self@.contains_key(turn_id@),
                WaitEvent::Over => true,
            }),
    {
        match event {
            WaitEvent::Finished(id) => same_text(id.as_str(), turn_id),
            WaitEvent::Lagged => !self.has_turn(turn_id),
            WaitEvent::Over => true,
        }
    }
}

pub fn is_turn_cancelled_error_message(message: &str) -> (b: bool)
    ensures
        b == (message@ == cancelled_words()),
{
    same_text(message, "turn cancelled by user")
}

/// A cancelled turn stays cancelled, for the reason that was given first, until
/// it ends; and cancelling one turn does not touch another.
pub proof fn lemma_cancellation(
    turns: Map<Seq<char>, Option<Seq<char>>>,
    turn_id: Seq<char>,
    other: Seq<char>,
    first: Seq<char>,
    second: Option<Seq<char>>,
)
    requires
        turns.contains_key(turn_id),
        turns[turn_id] is None,
    ensures
        cancelled(with_cancelled(turns, turn_id, Some(first)), turn_id),
        with_cancelled(with_cancelled(turns, turn_id, Some(first)), turn_id, second)
            == with_cancelled(turns, turn_id, Some(first)),
        registered(with_cancelled(turns, turn_id, Some(first)), turn_id) == with_cancelled(
            turns,
            turn_id,
            Some(first),
        ),
        other != turn_id ==> cancelled(with_cancelled(turns, turn_id, Some(first)), other)
            == cancelled(turns, other),
        !cancelled(with_cancelled(turns, turn_id, Some(first)).remove(turn_id), turn_id),
{
}

} // verus!
