//! Tool calls that wait for the user's approval.

use vstd::prelude::*;
use crate::error;
use crate::error::KokoroError;
use crate::json::JsonValue;
use crate::text;
use crate::text::concat3;
use crate::text_map::TextMap;
use crate::text_table::TextTable;
use crate::tool_trace;
use crate::tool_trace::{
    approved_tool_error_payload, approved_tool_trace_payload, rejected_pending_approval_message,
    rejected_tool_trace_payload, ActionResult, ToolExecutionOutcome,
};

verus! {

broadcast use vstd::string::group_string_axioms;

/// The user's decision.
#[derive(Debug)]
pub enum ToolApprovalDecision {
    Approved,
    Rejected { reason: Option<String> },
}

/// A tool call that waits for a decision. `receiver_taken` says whether someone
/// has come to wait for it.
#[derive(Debug)]
pub struct PendingToolApproval {
    pub turn_id: String,
    pub tool_id: String,
    pub tool_name: String,
    pub args: TextMap,
    pub receiver_taken: bool,
}

/// The calls that wait, and the requests that were decided, with their decisions.
pub struct PendingToolApprovalState {
    pending: TextTable<PendingToolApproval>,
    resolved: TextTable<ToolApprovalDecision>,
}

pub ghost struct ApprovalsView {
    pub pending: Map<Seq<char>, PendingToolApproval>,
    pub resolved: Map<Seq<char>, ToolApprovalDecision>,
}

impl View for PendingToolApprovalState {
    type V = ApprovalsView;

    closed spec fn view(&self) -> ApprovalsView {
        ApprovalsView { pending: self.pending@, resolved: self.resolved@ }
    }
}

/// `uuid::Uuid::new_v4` in its hyphenated form: 36 characters, made at random.
#[verifier::external_body]
pub(crate) fn new_request_id() -> (id: String)
    ensures
        id@.len() == 36,
{
    uuid::Uuid::new_v4().to_string()
}

/// Why a decision is refused, if it is: the request was decided before, it is
/// not known, or nobody waits for it any more.
pub open spec fn resolve_fault(
    approvals: ApprovalsView,
    id: Seq<char>,
    delivered: bool,
) -> Option<Seq<char>> {
    if approvals.resolved.contains_key(id) {
        Some("Approval request '"@ + id + "' already resolved"@)
    } else if !approvals.pending.contains_key(id) {
        Some("Unknown approval request '"@ + id + "'"@)
    } else if approvals.pending[id].receiver_taken && !delivered {
        Some(
            "Approval request '"@ + id + "' for tool '"@ + approvals.pending[id].tool_name@
                + "' is no longer pending"@,
        )
    } else {
        None
    }
}

/// The approvals after a decision. The call no longer waits, whether or not the
/// decision reached it; one that was taken is kept under the request's id.
pub open spec fn after_resolve(
    approvals: ApprovalsView,
    id: Seq<char>,
    decision: ToolApprovalDecision,
    delivered: bool,
) -> ApprovalsView {
    if approvals.resolved.contains_key(id) || !approvals.pending.contains_key(id) {
        approvals
    } else {
        ApprovalsView {
            pending: approvals.pending.remove(id),
            resolved: if resolve_fault(approvals, id, delivered) is None {
                approvals.resolved.insert(id, decision)
            } else {
                approvals.resolved
            },
        }
    }
}

impl PendingToolApprovalState {
    /// Nothing waits, nothing was decided.
    pub fn new() -> (r: Self)
        ensures
            r@.pending == Map::<Seq<char>, PendingToolApproval>::empty(),
            r@.resolved == Map::<Seq<char>, ToolApprovalDecision>::empty(),
    {
        PendingToolApprovalState { pending: TextTable::new(), resolved: TextTable::new() }
    }

    /// Lets a call wait under the given id.
    pub fn register_as(
        &mut self,
        id: &str,
        turn_id: String,
        tool_id: String,
        tool_name: String,
        args: TextMap,
    )
        ensures
            final(self)@.resolved == old(self)@.resolved,
            final(self)@.pending == old(self)@.pending.insert(
                id@,
                PendingToolApproval { turn_id, tool_id, tool_name, args, receiver_taken: false },
            ),
    {
        self.pending.insert(
            id.to_owned(),
            PendingToolApproval { turn_id, tool_id, tool_name, args, receiver_taken: false },
        );
    }

    /// Lets a call wait; returns the id of the request, which is made at random.
    pub fn register(
        &mut self,
        turn_id: String,
        tool_id: String,
        tool_name: String,
        args: TextMap,
    ) -> (id: String)
        ensures
            id@.len() == 36,
            final(self)@.resolved == old(self)@.resolved,
            final(self)@.pending == old(self)@.pending.insert(
                id@,
                PendingToolApproval { turn_id, tool_id, tool_name, args, receiver_taken: false },
            ),
    {
        let id = new_request_id();
        self.register_as(id.as_str(), turn_id, tool_id, tool_name, args);
        id
    }

    /// Comes to wait for the decision on a request; false where it is not known
    /// or someone waits for it already.
    pub fn take_receiver(&mut self, id: &str) -> (taken: bool)
        ensures
            taken == (old(self)@.pending.contains_key(id@)
                && !old(self)@.pending[id@].receiver_taken),
            final(self)@.resolved == old(self)@.resolved,
            final(self)@.pending == (if taken {
                old(self)@.pending.insert(
                    id@,
                    PendingToolApproval { receiver_taken: true, ..old(self)@.pending[id@] },
                )
            } else {
                old(self)@.pending
            }),
    {
        let free = match self.pending.get(id) {
            Some(entry) => !entry.receiver_taken,
            None => false,
        };
        if !free {
            return false;
        }
        match self.pending.remove(id) {
            Some(entry) => {
                let taken = PendingToolApproval {
                    turn_id: entry.turn_id,
                    tool_id: entry.tool_id,
                    tool_name: entry.tool_name,
                    args: entry.args,
                    receiver_taken: true,
                };
                self.pending.insert(id.to_owned(), taken);
            },
            None => {},
        }
        assert(self@.pending =~= old(self)@.pending.insert(
            id@,
            PendingToolApproval { receiver_taken: true, ..old(self)@.pending[id@] },
        ));
        true
    }

    /// Decides a request. `delivered` says whether the decision reached the one
    /// who waits for it, where someone has come to wait.
    pub fn resolve(
        &mut self,
        id: &str,
        decision: ToolApprovalDecision,
        delivered: bool,
    ) -> (r: Result<(), KokoroError>)
        ensures
            final(self)@ == after_resolve(old(self)@, id@, decision, delivered),
            match r {
                Ok(_) => resolve_fault(old(self)@, id@, delivered) is None,
                Err(e) => resolve_fault(old(self)@, id@, delivered) matches Some(words)
                    && error::is_validation(e, words),
            },
    {
        if self.resolved.has(id) {
            return Err(
                KokoroError::Validation(concat3("Approval request '", id, "' already resolved")),
            );
        }
        let entry = match self.pending.remove(id) {
            Some(entry) => entry,
            None => {
                assert(self@.pending =~= old(self)@.pending);
                return Err(
                    KokoroError::Validation(concat3("Unknown approval request '", id, "'")),
                );
            },
        };
        if entry.receiver_taken && !delivered {
            let head = concat3("Approval request '", id, "' for tool '");
            return Err(
                KokoroError::Validation(
                    concat3(head.as_str(), entry.tool_name.as_str(), "' is no longer pending"),
                ),
            );
        }
        self.resolved.insert(id.to_owned(), decision);
        Ok(())
    }

    /// The decision on a request, for the one who waited for it; an error where
    /// the request went without one.
    pub fn decision(&self, id: &str) -> (r: Result<&ToolApprovalDecision, KokoroError>)
        ensures
            match r {
                Ok(decision) => self@.resolved.contains_key(id@) && self@.resolved[id@]
                    == *decision,
                Err(e) => !self@.resolved.contains_key(id@) && error::is_validation(
                    e,
                    "Approval request '"@ + id@ + "' was dropped"@,
                ),
            },
    {
        match self.resolved.get(id) {
            Some(decision) => Ok(decision),
            None => Err(
                KokoroError::Validation(concat3("Approval request '", id, "' was dropped")),
            ),
        }
    }
}

/// A request is decided at most once: the decision that was taken is the one that
/// is read back, and whatever is said of the request later is refused and changes
/// nothing.
pub proof fn lemma_resolved_once(
    approvals: ApprovalsView,
    id: Seq<char>,
    decision: ToolApprovalDecision,
    delivered: bool,
    second: ToolApprovalDecision,
    again: bool,
)
    requires
        resolve_fault(approvals, id, delivered) is None,
    ensures
        ({
            let after = after_resolve(approvals, id, decision, delivered);
            &&& after.resolved.contains_key(id)
            &&& after.resolved[id] == decision
            &&& resolve_fault(after, id, again) == Some(
                "Approval request '"@ + id + "' already resolved"@,
            )
            &&& after_resolve(after, id, second, again) == after
        }),
{
}

/// A decision that reached nobody is lost: it is not read back, and the request is
/// not known any more.
pub proof fn lemma_undelivered_is_gone(
    approvals: ApprovalsView,
    id: Seq<char>,
    decision: ToolApprovalDecision,
    again: bool,
)
    requires
        !approvals.resolved.contains_key(id),
        approvals.pending.contains_key(id),
        approvals.pending[id].receiver_taken,
    ensures
        resolve_fault(approvals, id, false) is Some,
        !after_resolve(approvals, id, decision, false).resolved.contains_key(id),
        resolve_fault(after_resolve(approvals, id, decision, false), id, again) == Some(
            "Unknown approval request '"@ + id + "'"@,
        ),
{
}

/// What a rejected call comes to: its error, and the report of it.
pub fn rejected_outcome(
    outcome: &ToolExecutionOutcome,
    turn_id: &str,
    reason: Option<String>,
    approval_request_id: &str,
) -> (r: (String, JsonValue))
    ensures
        r.0@ == tool_trace::rejection(text::opt_view(reason)),
        r.1@ == tool_trace::with_approval(
            tool_trace::error_fields(*outcome, turn_id@, r.0@),
            approval_request_id@,
            "rejected"@,
        ),
{
    let message = rejected_pending_approval_message(reason);
    let payload = rejected_tool_trace_payload(
        outcome,
        turn_id,
        message.as_str(),
        approval_request_id,
    );
    (message, payload)
}

/// The report of an approved call, given what the tool then gave.
pub fn approved_outcome(
    outcome: &ToolExecutionOutcome,
    turn_id: &str,
    result: &Result<ActionResult, String>,
    approval_request_id: &str,
) -> (payload: JsonValue)
    ensures
        payload@ == tool_trace::with_approval(
            match *result {
                Ok(value) => tool_trace::success_fields(*outcome, turn_id@, value),
                Err(error) => tool_trace::error_fields(*outcome, turn_id@, error@),
            },
            approval_request_id@,
            "approved"@,
        ),
{
    match result {
        Ok(value) => approved_tool_trace_payload(outcome, turn_id, value, approval_request_id),
        Err(error) => approved_tool_error_payload(
            outcome,
            turn_id,
            error.as_str(),
            approval_request_id,
        ),
    }
}

} // verus!
