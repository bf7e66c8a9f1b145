//! What holds of the reports on tool calls, whatever the calls come to.

use vstd::prelude::*;
use crate::cancellation;
use crate::error;
use crate::error::KokoroError;
use crate::json;
use crate::json::JsonView;
use crate::text;
use crate::text_laws;
use crate::tool_trace;
use crate::tool_trace::{ActionResult, PermissionDecision, ToolExecutionOutcome};

verus! {

broadcast use vstd::string::group_string_axioms;

proof fn lemma_other_words(words: Seq<char>, rest: Seq<char>, other: Seq<char>, k: int)
    requires
        0 <= k < words.len(),
        k < other.len(),
        words[k] != other[k],
    ensures
        !text::starts_with(words + rest, other),
        text::starts_with(words + rest, words),
{
    let s = words + rest;
    assert(s.subrange(0, words.len() as int) =~= words);
    if text::starts_with(s, other) {
        assert(s.subrange(0, other.len() as int)[k] == s[k]);
    }
}

/// What an error says at its beginning tells who denied the call; any other error is
/// one of the call itself.
pub proof fn lemma_kind_of_error(rest: Seq<char>, error: Seq<char>)
    ensures
        tool_trace::deny_kind_of_error("Denied pending approval:"@ + rest) == "pending_approval"@,
        tool_trace::deny_kind_of_error("Denied by fail-closed policy:"@ + rest) == "fail_closed"@,
        tool_trace::deny_kind_of_error("Denied by policy:"@ + rest) == "policy_denied"@,
        tool_trace::deny_kind_of_error("Denied by hook:"@ + rest) == "hook_denied"@,
        error.len() == 0 || error[0] != 'D' ==> tool_trace::deny_kind_of_error(error)
            == "execution_error"@,
{
    reveal_strlit("Denied pending approval:");
    reveal_strlit("Denied by fail-closed policy:");
    reveal_strlit("Denied by policy:");
    reveal_strlit("Denied by hook:");
    let a = "Denied pending approval:"@;
    let f = "Denied by fail-closed policy:"@;
    let p = "Denied by policy:"@;
    let h = "Denied by hook:"@;
    lemma_other_words(a, rest, f, 7);
    lemma_other_words(f, rest, a, 7);
    lemma_other_words(p, rest, a, 7);
    lemma_other_words(p, rest, f, 10);
    lemma_other_words(h, rest, a, 7);
    lemma_other_words(h, rest, f, 10);
    lemma_other_words(h, rest, p, 10);
    if error.len() > 0 {
        if text::starts_with(error, a) {
            assert(error.subrange(0, a.len() as int)[0] == error[0]);
        }
        if text::starts_with(error, f) {
            assert(error.subrange(0, f.len() as int)[0] == error[0]);
        }
        if text::starts_with(error, p) {
            assert(error.subrange(0, p.len() as int)[0] == error[0]);
        }
        if text::starts_with(error, h) {
            assert(error.subrange(0, h.len() as int)[0] == error[0]);
        }
    }
}

/// A decision to deny comes before the words of the error; where the call was allowed,
/// or nothing was decided, the words tell.
pub proof fn lemma_kind_by_decision(decision: PermissionDecision, error: Seq<char>)
    ensures
        decision is DenyPolicy ==> tool_trace::deny_kind(Some(decision), error) == "policy_denied"@,
        decision is DenyFailClosed ==> tool_trace::deny_kind(Some(decision), error)
            == "fail_closed"@,
        decision is DenyPendingApproval ==> tool_trace::deny_kind(Some(decision), error)
            == "pending_approval"@,
        decision is Allow ==> tool_trace::deny_kind(Some(decision), error)
            == tool_trace::deny_kind_of_error(error),
        tool_trace::deny_kind(None, error) == tool_trace::deny_kind_of_error(error),
{
}

proof fn lemma_trace_keys()
    ensures
        ({
            let keys = trace_keys();
            forall|i: int, j: int| 0 <= i < j < keys.len() ==> #[trigger] keys[i] != #[trigger] keys[j]
        }),
{
    reveal_strlit("turn_id");
    reveal_strlit("tool");
    reveal_strlit("tool_id");
    reveal_strlit("source");
    reveal_strlit("server_name");
    reveal_strlit("needs_feedback");
    reveal_strlit("permission_level");
    reveal_strlit("risk_tags");
    reveal_strlit("error");
    reveal_strlit("deny_kind");
    reveal_strlit("result");
    reveal_strlit("approval_request_id");
    reveal_strlit("approval_status");
    let keys = trace_keys();
    assert(keys[0].len() == 7 && keys[1].len() == 4 && keys[2].len() == 7 && keys[3].len() == 6);
    assert(keys[4].len() == 11 && keys[5].len() == 14 && keys[6].len() == 16 && keys[7].len() == 9);
    assert(keys[8].len() == 5 && keys[9].len() == 9 && keys[10].len() == 6 && keys[11].len() == 19
        && keys[12].len() == 15);
    assert(keys[0][1] == 'u' && keys[2][1] == 'o');
    assert(keys[3][0] == 's' && keys[10][0] == 'r');
    assert(keys[7][0] == 'r' && keys[9][0] == 'd');
}

/// The names of all that a report can hold.
pub open spec fn trace_keys() -> Seq<Seq<char>> {
    seq![
        "turn_id"@,
        "tool"@,
        "tool_id"@,
        "source"@,
        "server_name"@,
        "needs_feedback"@,
        "permission_level"@,
        "risk_tags"@,
        "error"@,
        "deny_kind"@,
        "result"@,
        "approval_request_id"@,
        "approval_status"@,
    ]
}

/// A field that is added behind others is found under its name, and those before it
/// stay as they are.
pub proof fn lemma_field_added(
    fields: Seq<(Seq<char>, JsonView)>,
    name: Seq<char>,
    value: JsonView,
    key: Seq<char>,
)
    ensures
        key != name ==> json::field_in(fields.push((name, value)), key) == json::field_in(
            fields,
            key,
        ),
        json::field_in(fields, name) is None ==> json::field_in(fields.push((name, value)), name)
            == Some(value),
        json::field_in(fields, key) is Some ==> json::field_in(fields.push((name, value)), key)
            == json::field_in(fields, key),
    decreases fields.len(),
{
    let more = fields.push((name, value));
    if fields.len() > 0 {
        assert(more.drop_first() =~= fields.drop_first().push((name, value)));
        assert(more[0] == fields[0]);
        lemma_field_added(fields.drop_first(), name, value, key);
    } else {
        assert(more.drop_first() =~= fields);
        reveal_with_fuel(json::field_in, 2);
    }
}

/// What every report says of a call: the turn, the tool, where it comes from, and
/// what it may do.
pub proof fn lemma_report(outcome: ToolExecutionOutcome, turn_id: Seq<char>)
    ensures
        ({
            let report = JsonView::Object(tool_trace::trace_fields(outcome, turn_id));
            &&& json::text_field(report, "turn_id"@) == Some(turn_id)
            &&& json::text_field(report, "tool"@) == Some(outcome.tool_name@)
            &&& json::text_field(report, "tool_id"@) == Some(outcome.tool_id@)
            &&& json::text_field(report, "source"@) == text::opt_view(outcome.source)
            &&& json::text_field(report, "server_name"@) == text::opt_view(outcome.server_name)
            &&& json::bool_field(report, "needs_feedback"@) == outcome.tool_needs_feedback
            &&& json::text_field(report, "permission_level"@) == text::opt_view(
                outcome.permission_level,
            )
            &&& json::field(report, "risk_tags"@) == Some(
                JsonView::Array(
                    Seq::new(
                        outcome.risk_tags@.len(),
                        |i: int| JsonView::Text(outcome.risk_tags@[i]@),
                    ),
                ),
            )
            &&& json::field(report, "error"@) is None
            &&& json::field(report, "deny_kind"@) is None
            &&& json::field(report, "result"@) is None
            &&& json::field(report, "approval_request_id"@) is None
            &&& json::field(report, "approval_status"@) is None
        }),
{
    lemma_trace_keys();
    let keys = trace_keys();
    let fields = tool_trace::trace_fields(outcome, turn_id);
    assert forall|i: int| 0 <= i < 8 implies #[trigger] fields[i].0 == keys[i] by {}
    lemma_field_at(fields, 0);
    lemma_field_at(fields, 1);
    lemma_field_at(fields, 2);
    lemma_field_at(fields, 3);
    lemma_field_at(fields, 4);
    lemma_field_at(fields, 5);
    lemma_field_at(fields, 6);
    lemma_field_at(fields, 7);
    lemma_no_field(fields, keys[8]);
    lemma_no_field(fields, keys[9]);
    lemma_no_field(fields, keys[10]);
    lemma_no_field(fields, keys[11]);
    lemma_no_field(fields, keys[12]);
    assert(tool_trace::text_array(text::views(outcome.risk_tags@))->Array_0 =~= Seq::new(
        outcome.risk_tags@.len(),
        |i: int| JsonView::Text(outcome.risk_tags@[i]@),
    ));
}

proof fn lemma_field_at(fields: Seq<(Seq<char>, JsonView)>, at: int)
    requires
        0 <= at < fields.len(),
        forall|k: int| 0 <= k < at ==> (#[trigger] fields[k]).0 != fields[at].0,
    ensures
        json::field_in(fields, fields[at].0) == Some(fields[at].1),
    decreases at,
{
    if at > 0 {
        let rest = fields.drop_first();
        assert(fields[0].0 != fields[at].0);
        assert forall|k: int| 0 <= k < at - 1 implies (#[trigger] rest[k]).0 != rest[at - 1].0 by {
            assert(rest[k] == fields[k + 1]);
        }
        lemma_field_at(rest, at - 1);
    }
}

proof fn lemma_no_field(fields: Seq<(Seq<char>, JsonView)>, key: Seq<char>)
    requires
        forall|k: int| 0 <= k < fields.len() ==> (#[trigger] fields[k]).0 != key,
    ensures
        json::field_in(fields, key) is None,
    decreases fields.len(),
{
    if fields.len() > 0 {
        let rest = fields.drop_first();
        assert(fields[0].0 != key);
        assert forall|k: int| 0 <= k < rest.len() implies (#[trigger] rest[k]).0 != key by {
            assert(rest[k] == fields[k + 1]);
        }
        lemma_no_field(rest, key);
    }
}

/// A report on a call that failed also says the error and who denied the call; one
/// on a call that went through, what the tool gave.
pub proof fn lemma_outcome_report(
    outcome: ToolExecutionOutcome,
    turn_id: Seq<char>,
    error: Seq<char>,
    result: ActionResult,
    key: Seq<char>,
)
    ensures
        ({
            let report = tool_trace::trace_fields(outcome, turn_id);
            let failed = JsonView::Object(tool_trace::error_fields(outcome, turn_id, error));
            let done = JsonView::Object(tool_trace::success_fields(outcome, turn_id, result));
            &&& json::text_field(failed, "error"@) == Some(error)
            &&& json::text_field(failed, "deny_kind"@) == Some(
                tool_trace::deny_kind(outcome.permission_decision, error),
            )
            &&& json::field(failed, "result"@) is None
            &&& json::field(done, "error"@) is None
            &&& json::field(done, "result"@) matches Some(given) && {
                &&& json::bool_field(given, "success"@) == Some(result.success)
                &&& json::text_field(given, "message"@) == Some(result.message@)
                &&& json::field(given, "data"@) == Some(
                    match result.data {
                        Some(data) => data@,
                        None => JsonView::Null,
                    },
                )
            }
            &&& json::field_in(report, key) is Some ==> json::field(failed, key) == json::field_in(
                report,
                key,
            ) && json::field(done, key) == json::field_in(report, key)
        }),
{
    lemma_report(outcome, turn_id);
    lemma_trace_keys();
    let keys = trace_keys();
    assert(keys[8] != keys[9] && keys[8] != keys[10] && keys[9] != keys[10]);
    let report = tool_trace::trace_fields(outcome, turn_id);
    let kind = JsonView::Text(tool_trace::deny_kind(outcome.permission_decision, error));
    let with_error = report.push(("error"@, JsonView::Text(error)));
    let given = tool_trace::result_value(result);
    lemma_field_added(report, "error"@, JsonView::Text(error), "deny_kind"@);
    lemma_field_added(report, "error"@, JsonView::Text(error), "result"@);
    lemma_field_added(report, "error"@, JsonView::Text(error), key);
    lemma_field_added(with_error, "deny_kind"@, kind, "error"@);
    lemma_field_added(with_error, "deny_kind"@, kind, "result"@);
    lemma_field_added(with_error, "deny_kind"@, kind, key);
    lemma_field_added(report, "result"@, given, "error"@);
    lemma_field_added(report, "result"@, given, key);
    reveal_strlit("success");
    reveal_strlit("message");
    reveal_strlit("data");
    assert("success"@.len() == 7 && "message"@.len() == 7 && "data"@.len() == 4);
    assert("success"@[0] == 's' && "message"@[0] == 'm');
    reveal_with_fuel(json::field_in, 4);
}

/// A report on a call that waited also says under which request, and what became of
/// it, and keeps all else.
pub proof fn lemma_approval_report(
    outcome: ToolExecutionOutcome,
    turn_id: Seq<char>,
    error: Seq<char>,
    result: ActionResult,
    id: Seq<char>,
    status: Seq<char>,
    key: Seq<char>,
)
    ensures
        ({
            let failed = tool_trace::error_fields(outcome, turn_id, error);
            let done = tool_trace::success_fields(outcome, turn_id, result);
            let denied = tool_trace::with_approval(failed, id, status);
            let allowed = tool_trace::with_approval(done, id, status);
            &&& json::text_field(denied, "approval_request_id"@) == Some(id)
            &&& json::text_field(denied, "approval_status"@) == Some(status)
            &&& json::text_field(allowed, "approval_request_id"@) == Some(id)
            &&& json::text_field(allowed, "approval_status"@) == Some(status)
            &&& json::field_in(failed, key) is Some ==> json::field(denied, key) == json::field_in(
                failed,
                key,
            )
            &&& json::field_in(done, key) is Some ==> json::field(allowed, key) == json::field_in(
                done,
                key,
            )
        }),
{
    lemma_report(outcome, turn_id);
    lemma_trace_keys();
    let keys = trace_keys();
    assert(keys[8] != keys[11] && keys[8] != keys[12] && keys[9] != keys[11] && keys[9] != keys[12]
        && keys[10] != keys[11] && keys[10] != keys[12] && keys[11] != keys[12]);
    let report = tool_trace::trace_fields(outcome, turn_id);
    let failed = tool_trace::error_fields(outcome, turn_id, error);
    let done = tool_trace::success_fields(outcome, turn_id, result);
    let kind = JsonView::Text(tool_trace::deny_kind(outcome.permission_decision, error));
    let with_error = report.push(("error"@, JsonView::Text(error)));
    let given = tool_trace::result_value(result);
    let asked = "approval_request_id"@;
    let became = "approval_status"@;
    lemma_field_added(report, "error"@, JsonView::Text(error), asked);
    lemma_field_added(report, "error"@, JsonView::Text(error), became);
    lemma_field_added(with_error, "deny_kind"@, kind, asked);
    lemma_field_added(with_error, "deny_kind"@, kind, became);
    lemma_field_added(report, "result"@, given, asked);
    lemma_field_added(report, "result"@, given, became);
    lemma_field_added(failed, asked, JsonView::Text(id), became);
    lemma_field_added(failed, asked, JsonView::Text(id), key);
    lemma_field_added(done, asked, JsonView::Text(id), became);
    lemma_field_added(done, asked, JsonView::Text(id), key);
    let failed_asked = failed.push((asked, JsonView::Text(id)));
    let done_asked = done.push((asked, JsonView::Text(id)));
    lemma_field_added(failed_asked, became, JsonView::Text(status), asked);
    lemma_field_added(failed_asked, became, JsonView::Text(status), key);
    lemma_field_added(done_asked, became, JsonView::Text(status), asked);
    lemma_field_added(done_asked, became, JsonView::Text(status), key);
}

/// What the model is told of a call: the tool's words, or the error as one.
pub proof fn lemma_result_text(result: Result<ActionResult, String>)
    ensures
        result matches Ok(value) ==> tool_trace::result_text(result) == value.message@,
        result matches Err(error) ==> tool_trace::result_text(result) == "Error: "@ + error@,
{
}

/// A call that the user rejected gives the user's reason, where there is one.
pub proof fn lemma_rejection(reason: Seq<char>)
    ensures
        !text_laws::all_white(reason) ==> tool_trace::rejection(Some(reason))
            == "Denied pending approval: "@ + reason,
        text_laws::all_white(reason) ==> tool_trace::rejection(Some(reason))
            == "Denied pending approval: rejected by user"@,
        tool_trace::rejection(None) == "Denied pending approval: rejected by user"@,
{
    text_laws::lemma_blank_is_white(reason);
}

/// A call waits for the user just where it failed since it needs their approval.
pub proof fn lemma_awaits_approval(outcome: ToolExecutionOutcome)
    ensures
        outcome.result is Ok ==> !tool_trace::awaits_approval(outcome),
        outcome.permission_decision is None ==> !tool_trace::awaits_approval(outcome),
        outcome.permission_decision matches Some(decision) ==> (tool_trace::awaits_approval(outcome)
            <==> outcome.result is Err && decision is DenyPendingApproval),
{
}

/// An image is taken from what the tool for images gave, with the prompt that it was
/// made for; no other tool gives one.
pub proof fn lemma_tool_image(outcome: ToolExecutionOutcome)
    ensures
        outcome.tool_id@ != "builtin__"@ + "generate_image"@ ==> tool_trace::tool_image_of(outcome) is None,
        outcome.result is Err ==> tool_trace::tool_image_of(outcome) is None,
        outcome.tool_id@ == "builtin__"@ + "generate_image"@ ==> (outcome.result matches Ok(result)
            ==> (result.data matches Some(data) ==> (json::text_field(data@, "image_url"@) matches Some(
            url,
        ) ==> tool_trace::tool_image_of(outcome) == Some(
            (
                url,
                match json::text_field(data@, "prompt"@) {
                    Some(prompt) => prompt,
                    None => Seq::empty(),
                },
            ),
        )))),
{
    reveal_strlit("");
    assert(""@ =~= Seq::<char>::empty());
}

/// A turn that was registered runs and is not cancelled; one that is not known cannot
/// be cancelled; and a turn that was cancelled and is registered again stays so.
pub proof fn lemma_registered(
    turns: Map<Seq<char>, Option<Seq<char>>>,
    turn_id: Seq<char>,
    other: Seq<char>,
    reason: Option<Seq<char>>,
)
    requires
        turn_id != other,
    ensures
        cancellation::registered(turns, turn_id).contains_key(turn_id),
        !turns.contains_key(turn_id) ==> !cancellation::cancelled(
            cancellation::registered(turns, turn_id),
            turn_id,
        ),
        !turns.contains_key(turn_id) ==> cancellation::with_cancelled(turns, turn_id, reason)
            == turns,
        cancellation::cancelled(cancellation::registered(turns, turn_id), other)
            == cancellation::cancelled(turns, other),
        cancellation::cancelled(turns, turn_id) ==> cancellation::cancelled(
            cancellation::registered(turns, turn_id),
            turn_id,
        ),
        !cancellation::cancelled(Map::empty(), turn_id),
{
}

/// A piece of text that is sent says its turn, its words, and the request where there
/// is one.
pub proof fn lemma_delta(turn_id: Seq<char>, delta: Seq<char>, request: Option<Seq<char>>)
    ensures
        ({
            let payload = cancellation::delta_payload(turn_id, delta, request);
            &&& json::text_field(payload, "turn_id"@) == Some(turn_id)
            &&& json::text_field(payload, "delta"@) == Some(delta)
            &&& json::text_field(payload, "client_request_id"@) == request
        }),
{
    reveal_strlit("turn_id");
    reveal_strlit("delta");
    reveal_strlit("client_request_id");
    assert("turn_id"@.len() == 7 && "delta"@.len() == 5 && "client_request_id"@.len() == 17);
    reveal_with_fuel(json::field_in, 4);
}

/// The arguments of a call as they are written: a text for each, under its name, and
/// nothing else.
pub proof fn lemma_args(
    fields: Seq<(Seq<char>, JsonView)>,
    args: Map<Seq<char>, Seq<char>>,
    name: Seq<char>,
)
    requires
        tool_trace::lists_args(fields, args),
    ensures
        args.contains_key(name) ==> json::text_field(JsonView::Object(fields), name) == Some(
            args[name],
        ),
        !args.contains_key(name) ==> json::field(JsonView::Object(fields), name) is None,
{
    if args.contains_key(name) {
        let i = choose|i: int| 0 <= i < fields.len() && #[trigger] fields[i].0 == name;
        assert forall|k: int| 0 <= k < i implies (#[trigger] fields[k]).0 != fields[i].0 by {}
        lemma_field_at(fields, i);
        assert(fields[i].1 == JsonView::Text(args[fields[i].0]));
    } else {
        assert forall|k: int| 0 <= k < fields.len() implies (#[trigger] fields[k]).0 != name by {
            assert(args.contains_key(fields[k].0));
        }
        lemma_no_field(fields, name);
    }
}

/// What was written of the arguments holds each of them.
pub proof fn lemma_args_text(words: Seq<char>, args: Map<Seq<char>, Seq<char>>) -> (written:
    JsonView)
    requires
        tool_trace::is_args_text(words, args),
    ensures
        words == json::printed_json(written),
        forall|name: Seq<char>| #[trigger]
            args.contains_key(name) ==> json::text_field(written, name) == Some(args[name]),
        forall|name: Seq<char>|
            !args.contains_key(name) ==> #[trigger] json::field(written, name) is None,
{
    let fields = choose|fields: Seq<(Seq<char>, JsonView)>| #[trigger]
        tool_trace::lists_args(fields, args) && words == json::printed_json(
            JsonView::Object(fields),
        );
    assert forall|name: Seq<char>| #[trigger] args.contains_key(name) implies json::text_field(
        JsonView::Object(fields),
        name,
    ) == Some(args[name]) by {
        lemma_args(fields, args, name);
    }
    assert forall|name: Seq<char>| !args.contains_key(name) implies #[trigger] json::field(
        JsonView::Object(fields),
        name,
    ) is None by {
        lemma_args(fields, args, name);
    }
    JsonView::Object(fields)
}

/// The words of an error are those that it was made with, and its kind tells it from
/// the others.
pub proof fn lemma_error_words(e: KokoroError, words: Seq<char>)
    ensures
        error::is_validation(e, words) <==> e is Validation && e->Validation_0@ == words,
        error::is_not_found(e, words) <==> e is NotFound && e->NotFound_0@ == words,
        error::is_internal(e, words) <==> e is Internal && e->Internal_0@ == words,
        error::is_io(e, words) <==> e is Io && e->Io_0@ == words,
        cancellation::cancelled_words() == "turn cancelled by user"@,
        tool_trace::builtin_id(words) == "builtin__"@ + words,
{
}

/// A number stands for itself, whatever its sign, and is written in decimal digits.
pub proof fn lemma_numbers(n: u64, m: i64)
    ensures
        json::uint_value(n) matches JsonView::Number(signed, unsigned, digits) && {
            &&& unsigned == Some(n)
            &&& digits == text::decimal(n as nat)
            &&& n <= i64::MAX ==> signed == Some(n as i64)
            &&& n > i64::MAX ==> signed is None
        },
        json::int_value(m) matches JsonView::Number(signed, unsigned, digits) && {
            &&& signed == Some(m)
            &&& digits == text::signed_decimal(m as int)
            &&& m >= 0 ==> unsigned == Some(m as u64)
            &&& m < 0 ==> unsigned is None
        },
{
}

} // verus!
