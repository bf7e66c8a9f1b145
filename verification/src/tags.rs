//! The inline tags of model replies on bot platforms: tool calls,
//! translations, image prompts and control tags.

use vstd::prelude::*;
use vstd::utf8::*;
use crate::text;
use crate::text::{
    concat2, find_char_text, head_text, rfind_text, slice_text, split_text, tail_text, to_chars,
    trim_end_text, trim_text,
};
use crate::text_map::TextMap;

verus! {

broadcast use vstd::string::group_string_axioms;

/// A name for the result of `char::is_alphanumeric`.
pub uninterp spec fn alphanumeric(c: char) -> bool;

/// `char::is_alphanumeric` tests for the Unicode properties Alphabetic and
/// Numeric. Its result is named `alphanumeric`; among the ASCII characters
/// exactly the letters and the digits have it.
pub assume_specification[ char::is_alphanumeric ](ch: char) -> (b: bool)
    ensures
        b == alphanumeric(ch),
        (ch as u32) < 0x80 ==> (b <==> ('0' <= ch <= '9' || 'a' <= ch <= 'z' || 'A' <= ch <= 'Z')),
;

/// A tool call found in a reply.
#[derive(Debug)]
pub struct ToolCall {
    pub name: String,
    pub args: TextMap,
}

/// The view of a tool call.
pub ghost struct CallView {
    pub name: Seq<char>,
    pub args: Map<Seq<char>, Seq<char>>,
}

impl View for ToolCall {
    type V = CallView;

    open spec fn view(&self) -> CallView {
        CallView { name: self.name@, args: self.args@ }
    }
}

/// The arguments that `parts[1..]` assign, a later assignment replacing an
/// earlier one to the same key. A part without `=` assigns nothing.
pub open spec fn args_of(parts: Seq<Seq<char>>) -> Map<Seq<char>, Seq<char>>
    decreases parts.len(),
{
    if parts.len() <= 1 {
        Map::empty()
    } else {
        let part = parts.last();
        match text::find_char(part, '=', 0) {
            Some(eq) => args_of(parts.drop_last()).insert(
                text::trim(part.take(eq)),
                text::trim(part.skip(eq + 1)),
            ),
            None => args_of(parts.drop_last()),
        }
    }
}

/// The tool call written as `name|key=value|key=value`.
pub open spec fn call_of(inner: Seq<char>) -> CallView {
    let parts = text::split(inner, '|');
    CallView { name: text::trim(parts[0]), args: args_of(parts) }
}

/// The offset in bytes of position `at`.
pub open spec fn byte_pos(s: Seq<char>, at: int) -> int {
    encode_utf8(s.take(at)).len() as int
}

/// `s` without the characters from `from` up to `to` and, where `tight`,
/// without the white space before them.
pub open spec fn cut(s: Seq<char>, from: int, to: int, tight: bool) -> Seq<char> {
    if tight {
        text::trim_end(s.take(from)) + s.skip(to)
    } else {
        s.take(from) + s.skip(to)
    }
}

/// What is left of `s` once every `[TOOL_CALL:..]` is taken out, the last one
/// first, and the calls in that order, each with the byte offset of its tag.
pub open spec fn explicit_calls(s: Seq<char>, tight: bool) -> (Seq<char>, Seq<(int, CallView)>)
    decreases s.len(),
{
    match text::rfind(s, "[TOOL_CALL:"@, s.len() as int) {
        Some(start) => match text::find_char(s, ']', start) {
            Some(end) if 0 <= start <= end < s.len() => {
                proof {
                    text::lemma_trim_end_len(s.take(start));
                }
                let (rest, calls) = explicit_calls(cut(s, start, end + 1, tight), tight);
                let call = call_of(s.subrange(start + "[TOOL_CALL:"@.len(), end));
                (rest, seq![(byte_pos(s, start), call)] + calls)
            },
            _ => (s, Seq::empty()),
        },
        None => (s, Seq::empty()),
    }
}

pub open spec fn identifier(s: Seq<char>) -> bool {
    s.len() > 0 && forall|i: int| 0 <= i < s.len() ==> #[trigger] alphanumeric(s[i]) || s[i] == '_'
}

/// The inside of a short tool call tag: an identifier, `|`, and an `=`
/// somewhere behind it.
pub open spec fn is_short_call(inner: Seq<char>) -> bool {
    match text::find_char(inner, '|', 0) {
        Some(pipe) => identifier(inner.take(pipe)) && text::find_char(inner, '=', pipe + 1) is Some,
        None => false,
    }
}

/// What is left of `s` once every `[name|key=value]` from `offset` on is taken
/// out, and the calls from left to right, each with the byte offset of its tag.
pub open spec fn short_calls(s: Seq<char>, offset: int, tight: bool) -> (
    Seq<char>,
    Seq<(int, CallView)>,
)
    decreases s.len(), s.len() - offset,
{
    match text::find_char(s, '[', offset) {
        Some(start) => match text::find_char(s, ']', start) {
            Some(end) if 0 <= offset <= start < end < s.len() => {
                let inner = s.subrange(start + 1, end);
                if is_short_call(inner) {
                    proof {
                        text::lemma_trim_end_len(s.take(start));
                    }
                    let (rest, calls) = short_calls(cut(s, start, end + 1, tight), offset, tight);
                    (rest, seq![(byte_pos(s, start), call_of(inner))] + calls)
                } else {
                    short_calls(s, start + 1, tight)
                }
            },
            _ => (s, Seq::empty()),
        },
        None => (s, Seq::empty()),
    }
}

/// Where a call with offset `key` goes among `sorted`: behind every call with
/// the same or a smaller offset.
pub open spec fn insert_pos(sorted: Seq<(int, CallView)>, key: int) -> int
    decreases sorted.len(),
{
    if sorted.len() == 0 || sorted.last().0 <= key {
        sorted.len() as int
    } else {
        insert_pos(sorted.drop_last(), key)
    }
}

/// `calls` ordered by offset; calls with the same offset keep their order.
pub open spec fn by_offset(calls: Seq<(int, CallView)>) -> Seq<(int, CallView)>
    decreases calls.len(),
{
    if calls.len() == 0 {
        calls
    } else {
        let sorted = by_offset(calls.drop_last());
        sorted.insert(insert_pos(sorted, calls.last().0), calls.last())
    }
}

/// What is left of `s` once all tool call tags are taken out, and the calls in
/// the order in which they are found: the explicit ones from the last to the
/// first, then the short ones from left to right.
pub open spec fn found_calls(s: Seq<char>, tight: bool) -> (Seq<char>, Seq<(int, CallView)>) {
    let (without_explicit, explicit) = explicit_calls(s, tight);
    let (rest, short) = short_calls(without_explicit, 0, tight);
    (rest, explicit + short)
}

/// The text and the tool calls of a reply.
pub open spec fn tool_calls_of(s: Seq<char>) -> (Seq<char>, Seq<CallView>) {
    let (rest, found) = found_calls(s, false);
    (text::trim(rest), unplaced(by_offset(found)))
}

/// The calls without their offsets.
pub open spec fn unplaced(calls: Seq<(int, CallView)>) -> Seq<CallView> {
    calls.map_values(|c: (int, CallView)| c.1)
}

pub open spec fn placed_view(v: Seq<(usize, ToolCall)>) -> Seq<(int, CallView)> {
    v.map_values(|c: (usize, ToolCall)| (c.0 as int, c.1@))
}

pub open spec fn call_views(v: Seq<ToolCall>) -> Seq<CallView> {
    v.map_values(|c: ToolCall| c@)
}

/// A call goes behind the last one that may stand before it.
pub proof fn lemma_insert_pos(sorted: Seq<(int, CallView)>, key: int)
    ensures
        0 <= insert_pos(sorted, key) <= sorted.len(),
        forall|i: int| insert_pos(sorted, key) <= i < sorted.len() ==> #[trigger] sorted[i].0 > key,
        insert_pos(sorted, key) > 0 ==> sorted[insert_pos(sorted, key) - 1].0 <= key,
    decreases sorted.len(),
{
    if sorted.len() == 0 || sorted.last().0 <= key {
    } else {
        lemma_insert_pos(sorted.drop_last(), key);
        let p = insert_pos(sorted, key);
        assert forall|i: int| p <= i < sorted.len() implies #[trigger] sorted[i].0 > key by {
            if i < sorted.len() - 1 {
                assert(sorted.drop_last()[i] == sorted[i]);
            }
        }
    }
}

/// No closed tag is left over: what remains of a reply once its tool calls are
/// taken out holds no tag, or its last tag is not closed.
pub proof fn lemma_closed_calls_taken(s: Seq<char>, tight: bool)
    ensures
        match text::rfind(
            explicit_calls(s, tight).0,
            "[TOOL_CALL:"@,
            explicit_calls(s, tight).0.len() as int,
        ) {
            Some(start) => text::find_char(explicit_calls(s, tight).0, ']', start) is None,
            None => true,
        },
    decreases s.len(),
{
    text::lemma_rfind_bounds(s, "[TOOL_CALL:"@, s.len() as int);
    if let Some(start) = text::rfind(s, "[TOOL_CALL:"@, s.len() as int) {
        text::lemma_find_char_bounds(s, ']', start);
        if let Some(end) = text::find_char(s, ']', start) {
            text::lemma_trim_end_len(s.take(start));
            lemma_closed_calls_taken(cut(s, start, end + 1, tight), tight);
        }
    }
}

/// A reply without an opening bracket makes no tool calls, and all of its text is
/// left.
pub proof fn lemma_plain_text_calls_nothing(s: Seq<char>, tight: bool)
    requires
        !s.contains('['),
    ensures
        found_calls(s, tight) == (s, Seq::<(int, CallView)>::empty()),
{
    reveal_strlit("[TOOL_CALL:");
    text::lemma_absent(s, "[TOOL_CALL:"@, s.len() as int);
    text::lemma_find_char_bounds(s, '[', 0);
    assert(found_calls(s, tight).1 =~= Seq::<(int, CallView)>::empty());
}

/// The tool calls of a reply come out ordered by the offsets of their tags.
pub proof fn lemma_by_offset_ordered(calls: Seq<(int, CallView)>)
    ensures
        forall|i: int, j: int|
            0 <= i <= j < by_offset(calls).len() ==> (#[trigger] by_offset(calls)[i]).0 <= (
            #[trigger] by_offset(calls)[j]).0,
    decreases calls.len(),
{
    if calls.len() > 0 {
        let sorted = by_offset(calls.drop_last());
        let x = calls.last();
        lemma_by_offset_ordered(calls.drop_last());
        lemma_insert_pos(sorted, x.0);
        let p = insert_pos(sorted, x.0);
        let r = by_offset(calls);
        assert forall|i: int, j: int| 0 <= i <= j < r.len() implies (#[trigger] r[i]).0 <= (
        #[trigger] r[j]).0 by {
            let si = if i < p { i } else { i - 1 };
            let sj = if j < p { j } else { j - 1 };
            if i != p && j != p {
                assert(sorted[si].0 <= sorted[sj].0);
            } else if i == p && j != p {
                assert(sorted[sj].0 > x.0);
            } else if i != p && j == p {
                assert(sorted[si].0 <= sorted[p - 1].0);
            }
        }
    }
}

/// No tool call is lost or made up by the ordering.
pub proof fn lemma_by_offset_permutes(calls: Seq<(int, CallView)>)
    ensures
        by_offset(calls).to_multiset() == calls.to_multiset(),
        by_offset(calls).len() == calls.len(),
    decreases calls.len(),
{
    if calls.len() > 0 {
        let sorted = by_offset(calls.drop_last());
        let x = calls.last();
        lemma_by_offset_permutes(calls.drop_last());
        lemma_insert_pos(sorted, x.0);
        broadcast use vstd::seq_lib::group_to_multiset_ensures;
        vstd::seq_lib::to_multiset_insert(sorted, insert_pos(sorted, x.0), x);
        assert(calls =~= calls.drop_last().push(x));
    }
}

fn parse_call(inner: &str) -> (call: ToolCall)
    ensures
        call@ == call_of(inner@),
{
    let parts = split_text(inner, '|');
    proof {
        lemma_split_nonempty(inner@, '|');
        assert(text::views(parts@)[0] == parts@[0]@);
    }
    let name = trim_text(parts[0].as_str());
    let mut args = TextMap::new();
    let mut i: usize = 1;
    while i < parts.len()
        invariant
            1 <= i <= parts.len(),
            args@ == args_of(text::views(parts@).take(i as int)),
        decreases parts.len() - i,
    {
        proof {
            let all = text::views(parts@);
            assert(all.take(i + 1).drop_last() =~= all.take(i as int));
            assert(all.take(i + 1).last() == parts@[i as int]@);
        }
        let part = parts[i].as_str();
        match find_char_text(part, '=', 0) {
            Some(eq) => {
                let key = trim_text(head_text(part, eq).as_str());
                let value = trim_text(tail_text(part, eq + 1).as_str());
                args = args.with(key, value);
            },
            None => {},
        }
        i += 1;
    }
    assert(text::views(parts@).take(i as int) =~= text::views(parts@));
    ToolCall { name, args }
}

/// Splitting gives at least one part.
proof fn lemma_split_nonempty(s: Seq<char>, sep: char)
    ensures
        text::split(s, sep).len() >= 1,
{
}

fn cut_text(text: &str, from: usize, to: usize, tight: bool) -> (r: String)
    requires
        from <= to <= text@.len(),
    ensures
        r@ == cut(text@, from as int, to as int, tight),
{
    let head = head_text(text, from);
    let tail = tail_text(text, to);
    if tight {
        concat2(trim_end_text(head.as_str()).as_str(), tail.as_str())
    } else {
        concat2(head.as_str(), tail.as_str())
    }
}

/// A closing character behind the place where a pattern without it stands comes
/// behind the whole pattern.
pub proof fn lemma_close_after(s: Seq<char>, pat: Seq<char>, c: char, start: int, end: int)
    requires
        text::matches_at(s, pat, start),
        text::find_char(s, c, start) == Some(end),
        forall|k: int| 0 <= k < pat.len() ==> pat[k] != c,
    ensures
        start + pat.len() <= end < s.len(),
{
    text::lemma_find_char_bounds(s, c, start);
    if end < start + pat.len() {
        assert(s.subrange(start, start + pat.len())[end - start] == s[end]);
    }
}

fn offset_of(text: &str, at: usize) -> (offset: usize)
    requires
        at <= text@.len(),
    ensures
        offset == byte_pos(text@, at as int),
{
    head_text(text, at).as_str().as_bytes().len()
}

fn is_identifier(text: &str) -> (b: bool)
    ensures
        b == identifier(text@),
{
    let chars = to_chars(text);
    let mut i: usize = 0;
    while i < chars.len()
        invariant
            i <= chars.len(),
            chars@ == text@,
            forall|k: int| 0 <= k < i ==> #[trigger] alphanumeric(text@[k]) || text@[k] == '_',
        decreases chars.len() - i,
    {
        if !(chars[i].is_alphanumeric() || chars[i] == '_') {
            return false;
        }
        i += 1;
    }
    chars.len() > 0
}

fn short_call(inner: &str) -> (b: bool)
    ensures
        b == is_short_call(inner@),
{
    match find_char_text(inner, '|', 0) {
        Some(pipe) => is_identifier(head_text(inner, pipe).as_str()) && find_char_text(
            inner,
            '=',
            pipe + 1,
        ).is_some(),
        None => false,
    }
}

/// `calls` ordered by offset, without the offsets.
fn sort_calls(calls: Vec<(usize, ToolCall)>) -> (sorted: Vec<ToolCall>)
    ensures
        call_views(sorted@) == unplaced(by_offset(placed_view(calls@))),
{
    let ghost all = placed_view(calls@);
    let mut calls = calls;
    let mut taken: Vec<(usize, ToolCall)> = Vec::new();
    let ghost mut done: int = 0;
    while calls.len() > 0
        invariant
            0 <= done <= all.len(),
            placed_view(calls@) == all.skip(done),
            placed_view(taken@) == by_offset(all.take(done)),
        decreases calls.len(),
    {
        let ghost rest = calls@;
        let ghost before = taken@;
        let call = calls.remove(0);
        let mut at: usize = taken.len();
        assert(before.take(at as int) =~= before);
        while at > 0 && taken[at - 1].0 > call.0
            invariant
                at <= taken@.len(),
                taken@ == before,
                insert_pos(placed_view(before), call.0 as int) == insert_pos(
                    placed_view(before.take(at as int)),
                    call.0 as int,
                ),
            decreases at,
        {
            proof {
                let now = placed_view(before.take(at as int));
                assert(now.last().0 == before[at - 1].0);
                assert(now.drop_last() =~= placed_view(before.take(at - 1)));
            }
            at -= 1;
        }
        proof {
            let now = placed_view(before.take(at as int));
            if at > 0 {
                assert(now.last().0 == before[at - 1].0);
            }
            assert(at == insert_pos(placed_view(before), call.0 as int));
        }
        let ghost placed = (call.0 as int, call.1@);
        taken.insert(at, call);
        proof {
            assert(placed_view(rest).len() > 0);
            assert(all.skip(done).len() == all.len() - done);
            assert(placed == all[done]) by {
                assert(placed_view(rest)[0] == all.skip(done)[0]);
            }
            assert(placed_view(taken@) =~= placed_view(before).insert(at as int, placed));
            assert(all.take(done + 1).drop_last() =~= all.take(done));
            assert(placed_view(calls@) =~= all.skip(done + 1)) by {
                assert(placed_view(calls@) =~= placed_view(rest).skip(1));
                assert(all.skip(done).skip(1) =~= all.skip(done + 1));
            }
            done = done + 1;
        }
    }
    proof {
        assert(placed_view(calls@).len() == 0);
        assert(all.take(done) =~= all);
    }
    drop_offsets(taken)
}

pub(crate) fn drop_offsets(placed: Vec<(usize, ToolCall)>) -> (calls: Vec<ToolCall>)
    ensures
        call_views(calls@) == unplaced(placed_view(placed@)),
{
    let ghost all = placed@;
    let mut placed = placed;
    let mut calls: Vec<ToolCall> = Vec::new();
    while placed.len() > 0
        invariant
            calls@.len() + placed@.len() == all.len(),
            placed@ == all.skip(calls@.len() as int),
            forall|i: int| 0 <= i < calls@.len() ==> calls@[i] == (#[trigger] all[i]).1,
        decreases placed.len(),
    {
        let (offset, call) = placed.remove(0);
        calls.push(call);
    }
    assert(call_views(calls@) =~= unplaced(placed_view(all)));
    calls
}

pub(crate) fn find_calls(text: &str, tight: bool) -> (r: (String, Vec<(usize, ToolCall)>))
    ensures
        r.0@ == found_calls(text@, tight).0,
        placed_view(r.1@) == found_calls(text@, tight).1,
{
    let mut rest = text.to_owned();
    let mut calls: Vec<(usize, ToolCall)> = Vec::new();
    loop
        invariant
            explicit_calls(text@, tight).0 == explicit_calls(rest@, tight).0,
            explicit_calls(text@, tight).1 == placed_view(calls@) + explicit_calls(rest@, tight).1,
        ensures
            explicit_calls(text@, tight).0 == rest@,
            explicit_calls(text@, tight).1 == placed_view(calls@),
        decreases rest@.len(),
    {
        let Some(start) = rfind_text(rest.as_str(), "[TOOL_CALL:") else {
            assert(placed_view(calls@) + Seq::<(int, CallView)>::empty() =~= placed_view(calls@));
            break ;
        };
        let Some(end) = find_char_text(rest.as_str(), ']', start) else {
            assert(placed_view(calls@) + Seq::<(int, CallView)>::empty() =~= placed_view(calls@));
            break ;
        };
        proof {
            reveal_strlit("[TOOL_CALL:");
            text::lemma_rfind_bounds(rest@, "[TOOL_CALL:"@, rest@.len() as int);
            lemma_close_after(rest@, "[TOOL_CALL:"@, ']', start as int, end as int);
            text::lemma_trim_end_len(rest@.take(start as int));
        }
        let call = parse_call(slice_text(rest.as_str(), start + 11, end).as_str());
        let offset = offset_of(rest.as_str(), start);
        let ghost before = placed_view(calls@);
        let ghost placed = (offset as int, call@);
        calls.push((offset, call));
        let next = cut_text(rest.as_str(), start, end + 1, tight);
        proof {
            assert(placed_view(calls@) =~= before.push(placed));
            assert(before + (seq![placed] + explicit_calls(next@, tight).1) =~= before.push(placed)
                + explicit_calls(next@, tight).1);
        }
        rest = next;
    }
    let ghost explicit = placed_view(calls@);
    let ghost middle = rest@;
    let mut offset: usize = 0;
    loop
        invariant
            short_calls(middle, 0, tight).0 == short_calls(rest@, offset as int, tight).0,
            explicit + short_calls(middle, 0, tight).1 == placed_view(calls@) + short_calls(
                rest@,
                offset as int,
                tight,
            ).1,
        ensures
            short_calls(middle, 0, tight).0 == rest@,
            explicit + short_calls(middle, 0, tight).1 == placed_view(calls@),
        decreases rest@.len(), rest@.len() - offset,
    {
        let Some(start) = find_char_text(rest.as_str(), '[', offset) else {
            assert(placed_view(calls@) + Seq::<(int, CallView)>::empty() =~= placed_view(calls@));
            break ;
        };
        let Some(end) = find_char_text(rest.as_str(), ']', start) else {
            assert(placed_view(calls@) + Seq::<(int, CallView)>::empty() =~= placed_view(calls@));
            break ;
        };
        proof {
            text::lemma_find_char_bounds(rest@, '[', offset as int);
            text::lemma_find_char_bounds(rest@, ']', start as int);
            text::lemma_trim_end_len(rest@.take(start as int));
        }
        let inner = slice_text(rest.as_str(), start + 1, end);
        if short_call(inner.as_str()) {
            let call = parse_call(inner.as_str());
            let at = offset_of(rest.as_str(), start);
            let ghost before = placed_view(calls@);
            let ghost placed = (at as int, call@);
            calls.push((at, call));
            let next = cut_text(rest.as_str(), start, end + 1, tight);
            proof {
                assert(placed_view(calls@) =~= before.push(placed));
                assert(before + (seq![placed] + short_calls(next@, offset as int, tight).1)
                    =~= before.push(placed) + short_calls(next@, offset as int, tight).1);
            }
            rest = next;
        } else {
            offset = start + 1;
        }
    }
    (rest, calls)
}

/// Takes the tool call tags out of a reply: every `[TOOL_CALL:name|key=value]`
/// and every short `[name|key=value]`. Returns the text that is left and the
/// calls in the order of their tags.
pub fn parse_tool_call_tags(text: &str) -> (r: (String, Vec<ToolCall>))
    ensures
        r.0@ == tool_calls_of(text@).0,
        call_views(r.1@) == tool_calls_of(text@).1,
{
    let (rest, calls) = find_calls(text, false);
    (trim_text(rest.as_str()), sort_calls(calls))
}

} // verus!
