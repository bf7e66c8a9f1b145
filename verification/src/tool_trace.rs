//! What is reported of tool calls during a chat turn.

use vstd::prelude::*;
use crate::json;
use crate::json::{json_opt_text, json_text, JsonObject, JsonValue, JsonView};
use crate::text;
use crate::text::{concat2, concat3, is_blank, same_text, starts_with_text};
use crate::text_map::TextMap;

verus! {

broadcast use vstd::string::group_string_axioms;

/// What the permission check decided about a tool call.
#[derive(Debug)]
pub enum PermissionDecision {
    Allow,
    DenyPolicy { reason: String },
    DenyFailClosed { reason: String },
    DenyPendingApproval { reason: String },
}

/// What a tool gave.
#[derive(Debug)]
pub struct ActionResult {
    pub success: bool,
    pub message: String,
    pub data: Option<JsonValue>,
}

/// A tool call as it came out. What is known of the tool itself is missing
/// where the tool is unknown.
#[derive(Debug)]
pub struct ToolExecutionOutcome {
    pub tool_call_id: Option<String>,
    pub args: TextMap,
    pub tool_name: String,
    pub tool_id: String,
    pub source: Option<String>,
    pub server_name: Option<String>,
    pub tool_needs_feedback: Option<bool>,
    pub permission_level: Option<String>,
    pub risk_tags: Vec<String>,
    pub result: Result<ActionResult, String>,
    pub needs_feedback: bool,
    pub permission_decision: Option<PermissionDecision>,
}

/// A tool call that is to be made. One that the model made in its own form has an
/// id.
#[derive(Debug)]
pub struct ToolInvocation {
    pub tool_call_id: Option<String>,
    pub name: String,
    pub args: TextMap,
}

/// Whether the model made one of the calls in its own form.
pub fn any_native(calls: &Vec<ToolInvocation>) -> (b: bool)
    ensures
        b == exists|i: int| 0 <= i < calls@.len() && (#[trigger] calls@[i]).tool_call_id is Some,
{
    let mut i: usize = 0;
    while i < calls.len()
        invariant
            i <= calls.len(),
            forall|k: int| 0 <= k < i ==> (#[trigger] calls@[k]).tool_call_id is None,
        decreases calls.len() - i,
    {
        if calls[i].tool_call_id.is_some() {
            assert(calls@[i as int].tool_call_id is Some);
            return true;
        }
        i += 1;
    }
    false
}

/// Whether one of the calls asks for the model to be told of the results.
pub fn any_needs_feedback(outcomes: &Vec<ToolExecutionOutcome>) -> (b: bool)
    ensures
        b == exists|i: int| 0 <= i < outcomes@.len() && (#[trigger] outcomes@[i]).needs_feedback,
{
    let mut i: usize = 0;
    while i < outcomes.len()
        invariant
            i <= outcomes.len(),
            forall|k: int| 0 <= k < i ==> !(#[trigger] outcomes@[k]).needs_feedback,
        decreases outcomes.len() - i,
    {
        if outcomes[i].needs_feedback {
            assert(outcomes@[i as int].needs_feedback);
            return true;
        }
        i += 1;
    }
    false
}

/// `fields` lists the arguments of a call, each once.
pub open spec fn lists_args(
    fields: Seq<(Seq<char>, JsonView)>,
    args: Map<Seq<char>, Seq<char>>,
) -> bool {
    &&& forall|i: int|
        0 <= i < fields.len() ==> args.contains_key(#[trigger] fields[i].0) && fields[i].1
            == JsonView::Text(args[fields[i].0])
    &&& forall|k: Seq<char>| #[trigger]
        args.contains_key(k) ==> exists|i: int| 0 <= i < fields.len() && #[trigger] fields[i].0 == k
    &&& forall|i: int, j: int|
        0 <= i < j < fields.len() ==> #[trigger] fields[i].0 != #[trigger] fields[j].0
}

/// `words` is an object with the arguments of a call, in some order.
pub open spec fn is_args_text(words: Seq<char>, args: Map<Seq<char>, Seq<char>>) -> bool {
    exists|fields: Seq<(Seq<char>, JsonView)>| #[trigger]
        lists_args(fields, args) && words == json::printed_json(JsonView::Object(fields))
}

/// The arguments of a call as the model wrote them: an object with a text under
/// each name.
pub fn args_text(args: &TextMap) -> (r: String)
    ensures
        is_args_text(r@, args@),
{
    let pairs = args.pairs();
    let mut fields: Vec<(String, JsonValue)> = Vec::new();
    let mut i: usize = 0;
    while i < pairs.len()
        invariant
            i <= pairs.len(),
            fields@.len() == i,
            forall|k: int|
                0 <= k < i ==> (#[trigger] fields@[k]).0@ == pairs@[k].0@ && fields@[k].1@
                    == JsonView::Text(pairs@[k].1@),
        decreases pairs.len() - i,
    {
        fields.push((pairs[i].0.clone(), json_text(pairs[i].1.as_str())));
        i += 1;
    }
    let value = JsonValue::Object(fields);
    proof {
        let listed = value@->Object_0;
        assert forall|k: int| 0 <= k < listed.len() implies args@.contains_key(
            #[trigger] listed[k].0,
        ) && listed[k].1 == JsonView::Text(args@[listed[k].0]) by {
            assert(fields@[k].0@ == pairs@[k].0@);
        }
        assert forall|k: Seq<char>| #[trigger] args@.contains_key(k) implies exists|j: int|
            0 <= j < listed.len() && #[trigger] listed[j].0 == k by {
            let j = choose|j: int| 0 <= j < pairs@.len() && #[trigger] pairs@[j].0@ == k;
            assert(fields@[j].0@ == k);
            assert(listed[j].0 == k);
        }
        assert forall|a: int, b: int| 0 <= a < b < listed.len() implies #[trigger] listed[a].0
            != #[trigger] listed[b].0 by {
            assert(fields@[a].0@ == pairs@[a].0@);
            assert(fields@[b].0@ == pairs@[b].0@);
        }
        assert(lists_args(listed, args@));
    }
    value.to_text()
}

/// Why a tool call was denied, by the words of its error.
pub open spec fn deny_kind_of_error(error: Seq<char>) -> Seq<char> {
    if text::starts_with(error, "Denied pending approval:"@) {
        "pending_approval"@
    } else if text::starts_with(error, "Denied by fail-closed policy:"@) {
        "fail_closed"@
    } else if text::starts_with(error, "Denied by policy:"@) {
        "policy_denied"@
    } else if text::starts_with(error, "Denied by hook:"@) {
        "hook_denied"@
    } else {
        "execution_error"@
    }
}

pub fn deny_kind_for_tool_error(error: &str) -> (kind: &'static str)
    ensures
        kind@ == deny_kind_of_error(error@),
{
    if starts_with_text(error, "Denied pending approval:") {
        "pending_approval"
    } else if starts_with_text(error, "Denied by fail-closed policy:") {
        "fail_closed"
    } else if starts_with_text(error, "Denied by policy:") {
        "policy_denied"
    } else if starts_with_text(error, "Denied by hook:") {
        "hook_denied"
    } else {
        "execution_error"
    }
}

/// Why a tool call was denied: by the decision where it was one to deny, else
/// by the words of the error.
pub open spec fn deny_kind(decision: Option<PermissionDecision>, error: Seq<char>) -> Seq<char> {
    match decision {
        Some(PermissionDecision::DenyPolicy { .. }) => "policy_denied"@,
        Some(PermissionDecision::DenyFailClosed { .. }) => "fail_closed"@,
        Some(PermissionDecision::DenyPendingApproval { .. }) => "pending_approval"@,
        _ => deny_kind_of_error(error),
    }
}

pub fn deny_kind_for_outcome(outcome: &ToolExecutionOutcome, error: &str) -> (kind: &'static str)
    ensures
        kind@ == deny_kind(outcome.permission_decision, error@),
{
    match &outcome.permission_decision {
        Some(PermissionDecision::DenyPolicy { .. }) => "policy_denied",
        Some(PermissionDecision::DenyFailClosed { .. }) => "fail_closed",
        Some(PermissionDecision::DenyPendingApproval { .. }) => "pending_approval",
        _ => deny_kind_for_tool_error(error),
    }
}

pub open spec fn bool_or_null(b: Option<bool>) -> JsonView {
    match b {
        Some(b) => JsonView::Bool(b),
        None => JsonView::Null,
    }
}

pub open spec fn text_array(texts: Seq<Seq<char>>) -> JsonView {
    JsonView::Array(texts.map_values(|t: Seq<char>| JsonView::Text(t)))
}

fn json_texts(texts: &Vec<String>) -> (value: JsonValue)
    ensures
        value@ == text_array(text::views(texts@)),
{
    let mut items: Vec<JsonValue> = Vec::new();
    let mut i: usize = 0;
    while i < texts.len()
        invariant
            i <= texts.len(),
            items@.len() == i,
            forall|k: int| 0 <= k < i ==> (#[trigger] items@[k])@ == JsonView::Text(texts@[k]@),
        decreases texts.len() - i,
    {
        items.push(json_text(texts[i].as_str()));
        i += 1;
    }
    let value = JsonValue::Array(items);
    assert(value@->Array_0 =~= text_array(text::views(texts@))->Array_0);
    value
}

/// What every report of a tool call says of the tool.
pub open spec fn trace_fields(
    outcome: ToolExecutionOutcome,
    turn_id: Seq<char>,
) -> Seq<(Seq<char>, JsonView)> {
    seq![
        ("turn_id"@, JsonView::Text(turn_id)),
        ("tool"@, JsonView::Text(outcome.tool_name@)),
        ("tool_id"@, JsonView::Text(outcome.tool_id@)),
        ("source"@, json::text_or_null(text::opt_view(outcome.source))),
        ("server_name"@, json::text_or_null(text::opt_view(outcome.server_name))),
        ("needs_feedback"@, bool_or_null(outcome.tool_needs_feedback)),
        ("permission_level"@, json::text_or_null(text::opt_view(outcome.permission_level))),
        ("risk_tags"@, text_array(text::views(outcome.risk_tags@))),
    ]
}

fn base_fields(outcome: &ToolExecutionOutcome, turn_id: &str) -> (fields: JsonObject)
    ensures
        fields@ == trace_fields(*outcome, turn_id@),
{
    let needs_feedback = match outcome.tool_needs_feedback {
        Some(b) => JsonValue::Bool(b),
        None => JsonValue::Null,
    };
    let fields = JsonObject::new().with("turn_id", json_text(turn_id)).with(
        "tool",
        json_text(outcome.tool_name.as_str()),
    ).with("tool_id", json_text(outcome.tool_id.as_str())).with(
        "source",
        json_opt_text(&outcome.source),
    ).with("server_name", json_opt_text(&outcome.server_name)).with(
        "needs_feedback",
        needs_feedback,
    ).with("permission_level", json_opt_text(&outcome.permission_level)).with(
        "risk_tags",
        json_texts(&outcome.risk_tags),
    );
    assert(fields@ =~= trace_fields(*outcome, turn_id@));
    fields
}

pub fn base_tool_trace_payload(outcome: &ToolExecutionOutcome, turn_id: &str) -> (payload: JsonValue)
    ensures
        payload@ == JsonView::Object(trace_fields(*outcome, turn_id@)),
{
    base_fields(outcome, turn_id).done()
}

/// The report of a tool call that failed.
pub open spec fn error_fields(
    outcome: ToolExecutionOutcome,
    turn_id: Seq<char>,
    error: Seq<char>,
) -> Seq<(Seq<char>, JsonView)> {
    trace_fields(outcome, turn_id).push(("error"@, JsonView::Text(error))).push(
        ("deny_kind"@, JsonView::Text(deny_kind(outcome.permission_decision, error))),
    )
}

fn failed_fields(outcome: &ToolExecutionOutcome, turn_id: &str, error: &str) -> (fields: JsonObject)
    ensures
        fields@ == error_fields(*outcome, turn_id@, error@),
{
    base_fields(outcome, turn_id).with("error", json_text(error)).with(
        "deny_kind",
        json_text(deny_kind_for_outcome(outcome, error)),
    )
}

pub fn tool_error_payload(outcome: &ToolExecutionOutcome, turn_id: &str, error: &str) -> (payload:
    JsonValue)
    ensures
        payload@ == JsonView::Object(error_fields(*outcome, turn_id@, error@)),
{
    failed_fields(outcome, turn_id, error).done()
}

/// A tool's result as it is reported.
pub open spec fn result_value(result: ActionResult) -> JsonView {
    JsonView::Object(
        seq![
            ("success"@, JsonView::Bool(result.success)),
            ("message"@, JsonView::Text(result.message@)),
            (
                "data"@,
                match result.data {
                    Some(data) => data@,
                    None => JsonView::Null,
                },
            ),
        ],
    )
}

/// The report of a tool call that went through.
pub open spec fn success_fields(
    outcome: ToolExecutionOutcome,
    turn_id: Seq<char>,
    result: ActionResult,
) -> Seq<(Seq<char>, JsonView)> {
    trace_fields(outcome, turn_id).push(("result"@, result_value(result)))
}

fn done_fields(outcome: &ToolExecutionOutcome, turn_id: &str, result: &ActionResult) -> (fields:
    JsonObject)
    ensures
        fields@ == success_fields(*outcome, turn_id@, *result),
{
    let data = match &result.data {
        Some(data) => data.copy(),
        None => JsonValue::Null,
    };
    let value = JsonObject::new().with("success", JsonValue::Bool(result.success)).with(
        "message",
        json_text(result.message.as_str()),
    ).with("data", data).done();
    assert(value@->Object_0 =~= result_value(*result)->Object_0);
    base_fields(outcome, turn_id).with("result", value)
}

pub fn tool_success_payload(
    outcome: &ToolExecutionOutcome,
    turn_id: &str,
    result: &ActionResult,
) -> (payload: JsonValue)
    ensures
        payload@ == JsonView::Object(success_fields(*outcome, turn_id@, *result)),
{
    done_fields(outcome, turn_id, result).done()
}

/// What a report says of the approval that the call waited for.
pub open spec fn with_approval(
    fields: Seq<(Seq<char>, JsonView)>,
    approval_request_id: Seq<char>,
    status: Seq<char>,
) -> JsonView {
    JsonView::Object(
        fields.push(("approval_request_id"@, JsonView::Text(approval_request_id))).push(
            ("approval_status"@, JsonView::Text(status)),
        ),
    )
}

fn add_approval(fields: JsonObject, approval_request_id: &str, status: &str) -> (payload: JsonValue)
    ensures
        payload@ == with_approval(fields@, approval_request_id@, status@),
{
    fields.with("approval_request_id", json_text(approval_request_id)).with(
        "approval_status",
        json_text(status),
    ).done()
}

pub fn pending_tool_trace_payload(
    outcome: &ToolExecutionOutcome,
    turn_id: &str,
    error: &str,
    approval_request_id: &str,
) -> (payload: JsonValue)
    ensures
        payload@ == with_approval(
            error_fields(*outcome, turn_id@, error@),
            approval_request_id@,
            "requested"@,
        ),
{
    add_approval(failed_fields(outcome, turn_id, error), approval_request_id, "requested")
}

pub fn approved_tool_trace_payload(
    outcome: &ToolExecutionOutcome,
    turn_id: &str,
    result: &ActionResult,
    approval_request_id: &str,
) -> (payload: JsonValue)
    ensures
        payload@ == with_approval(
            success_fields(*outcome, turn_id@, *result),
            approval_request_id@,
            "approved"@,
        ),
{
    add_approval(done_fields(outcome, turn_id, result), approval_request_id, "approved")
}

pub fn rejected_tool_trace_payload(
    outcome: &ToolExecutionOutcome,
    turn_id: &str,
    error: &str,
    approval_request_id: &str,
) -> (payload: JsonValue)
    ensures
        payload@ == with_approval(
            error_fields(*outcome, turn_id@, error@),
            approval_request_id@,
            "rejected"@,
        ),
{
    add_approval(failed_fields(outcome, turn_id, error), approval_request_id, "rejected")
}

pub fn approved_tool_error_payload(
    outcome: &ToolExecutionOutcome,
    turn_id: &str,
    error: &str,
    approval_request_id: &str,
) -> (payload: JsonValue)
    ensures
        payload@ == with_approval(
            error_fields(*outcome, turn_id@, error@),
            approval_request_id@,
            "approved"@,
        ),
{
    add_approval(failed_fields(outcome, turn_id, error), approval_request_id, "approved")
}

/// The report of a tool call that needed no approval.
pub fn tool_trace_payload(outcome: &ToolExecutionOutcome, turn_id: &str) -> (payload: JsonValue)
    ensures
        payload@ == JsonView::Object(
            match outcome.result {
                Ok(result) => success_fields(*outcome, turn_id@, result),
                Err(error) => error_fields(*outcome, turn_id@, error@),
            },
        ),
{
    match &outcome.result {
        Ok(result) => tool_success_payload(outcome, turn_id, result),
        Err(error) => tool_error_payload(outcome, turn_id, error.as_str()),
    }
}

/// The error of a call that the user rejected.
pub open spec fn rejection(reason: Option<Seq<char>>) -> Seq<char> {
    if reason matches Some(r) && !text::blank(r) {
        "Denied pending approval: "@ + reason->0
    } else {
        "Denied pending approval: rejected by user"@
    }
}

pub fn rejected_pending_approval_message(reason: Option<String>) -> (message: String)
    ensures
        message@ == rejection(text::opt_view(reason)),
{
    if let Some(reason) = reason {
        if !is_blank(reason.as_str()) {
            return concat2("Denied pending approval: ", reason.as_str());
        }
    }
    "Denied pending approval: rejected by user".to_owned()
}

/// A rejected call is always reported as one that was denied pending approval.
pub proof fn lemma_rejection_kind(reason: Option<Seq<char>>)
    ensures
        deny_kind_of_error(rejection(reason)) == "pending_approval"@,
{
    reveal_strlit("Denied pending approval:");
    reveal_strlit("Denied pending approval: ");
    reveal_strlit("Denied pending approval: rejected by user");
    let prefix = "Denied pending approval:"@;
    let message = rejection(reason);
    assert(message.subrange(0, prefix.len() as int) =~= prefix);
}

/// The call is reported and then waits for the user.
pub open spec fn awaits_approval(outcome: ToolExecutionOutcome) -> bool {
    outcome.result is Err && outcome.permission_decision matches Some(
        PermissionDecision::DenyPendingApproval { .. },
    )
}

pub fn needs_approval(outcome: &ToolExecutionOutcome) -> (b: bool)
    ensures
        b == awaits_approval(*outcome),
{
    match &outcome.result {
        Ok(_) => false,
        Err(_) => match &outcome.permission_decision {
            Some(PermissionDecision::DenyPendingApproval { .. }) => true,
            _ => false,
        },
    }
}

pub open spec fn result_text(result: Result<ActionResult, String>) -> Seq<char> {
    match result {
        Ok(value) => value.message@,
        Err(error) => "Error: "@ + error@,
    }
}

/// What the model is told of a tool call.
pub fn tool_result_text(result: &Result<ActionResult, String>) -> (r: String)
    ensures
        r@ == result_text(*result),
{
    match result {
        Ok(value) => value.message.clone(),
        Err(error) => concat2("Error: ", error.as_str()),
    }
}

/// The line for a tool call in the list of results.
pub fn tool_result_line(tool_id: &str, result: &Result<ActionResult, String>) -> (r: String)
    ensures
        r@ == "- "@ + tool_id@ + ": "@ + result_text(*result),
{
    concat2(concat3("- ", tool_id, ": ").as_str(), tool_result_text(result).as_str())
}

/// The id of a tool that comes with the application.
pub open spec fn builtin_id(name: Seq<char>) -> Seq<char> {
    "builtin__"@ + name
}

pub fn is_builtin_tool(outcome: &ToolExecutionOutcome, name: &str) -> (b: bool)
    ensures
        b == (outcome.tool_id@ == builtin_id(name@)),
{
    same_text(outcome.tool_id.as_str(), concat2("builtin__", name).as_str())
}

/// An image that a tool made: where it is, and the prompt for it.
#[derive(Debug)]
pub struct ToolImage {
    pub image_url: String,
    pub prompt: String,
}

pub open spec fn tool_image_of(outcome: ToolExecutionOutcome) -> Option<(Seq<char>, Seq<char>)> {
    if outcome.tool_id@ == builtin_id("generate_image"@) {
        match outcome.result {
            Ok(result) => match result.data {
                Some(data) => match json::text_field(data@, "image_url"@) {
                    Some(url) => Some(
                        (
                            url,
                            match json::text_field(data@, "prompt"@) {
                                Some(prompt) => prompt,
                                None => ""@,
                            },
                        ),
                    ),
                    None => None,
                },
                None => None,
            },
            Err(_) => None,
        }
    } else {
        None
    }
}

/// The image that a tool call made, if it made one.
pub fn generated_tool_image(outcome: &ToolExecutionOutcome) -> (image: Option<ToolImage>)
    ensures
        match image {
            Some(image) => tool_image_of(*outcome) == Some((image.image_url@, image.prompt@)),
            None => tool_image_of(*outcome) is None,
        },
{
    if !is_builtin_tool(outcome, "generate_image") {
        return None;
    }
    match &outcome.result {
        Ok(result) => match &result.data {
            Some(data) => match data.get_str("image_url") {
                Some(url) => {
                    let prompt = match data.get_str("prompt") {
                        Some(prompt) => prompt.to_owned(),
                        None => "".to_owned(),
                    };
                    Some(ToolImage { image_url: url.to_owned(), prompt })
                },
                None => None,
            },
            None => None,
        },
        Err(_) => None,
    }
}

} // verus!
