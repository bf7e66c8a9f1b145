//! Cleaning of model replies before they leave for Telegram.

use vstd::prelude::*;
use crate::reply_text;
use crate::tags;
use crate::tags::{drop_offsets, find_calls, CallView, ToolCall};
use crate::text;
use crate::text::{
    concat2, find_char_text, find_text, head_text, join_text, lines_text, tail_text, to_chars,
    trim_end_text, trim_start_text, trim_text,
};

verus! {

broadcast use vstd::string::group_string_axioms;

/// The text and the tool calls of a Telegram reply: the white space before a
/// tag goes with it, and the calls come out in the reverse of the order in
/// which they are found.
pub open spec fn tool_calls_of(s: Seq<char>) -> (Seq<char>, Seq<CallView>) {
    let (rest, found) = tags::found_calls(s, true);
    (text::trim(rest), tags::unplaced(found).reverse())
}

/// Takes the tool call tags out of a Telegram reply.
pub fn parse_tool_call_tags(text: &str) -> (r: (String, Vec<ToolCall>))
    ensures
        r.0@ == tool_calls_of(text@).0,
        tags::call_views(r.1@) == tool_calls_of(text@).1,
{
    let (rest, found) = find_calls(text, true);
    let mut calls = drop_offsets(found);
    let ghost all = calls@;
    let mut reversed: Vec<ToolCall> = Vec::new();
    while calls.len() > 0
        invariant
            calls@.len() + reversed@.len() == all.len(),
            calls@ == all.take(calls@.len() as int),
            forall|i: int|
                0 <= i < reversed@.len() ==> #[trigger] reversed@[i] == all[all.len() - 1 - i],
        decreases calls.len(),
    {
        let ghost before = calls@;
        match calls.pop() {
            Some(call) => {
                reversed.push(call);
            },
            None => {},
        }
        assert(calls@ =~= all.take(calls@.len() as int));
    }
    assert(tags::call_views(reversed@) =~= tags::call_views(all).reverse());
    (trim_text(rest.as_str()), reversed)
}

/// Takes the closed tags that start with `prefix` out of `s`, and the white
/// space around each.
pub open spec fn bracket_scan(s: Seq<char>, prefix: Seq<char>) -> Seq<char>
    decreases s.len(),
{
    match text::find(s, prefix, 0) {
        Some(start) if 0 <= start < s.len() => match text::find_char(s, ']', start) {
            Some(end) if start <= end < s.len() => {
                proof {
                    reply_text::lemma_close_up_len(s, start, end + 1);
                }
                bracket_scan(reply_text::close_up(s.take(start), s.skip(end + 1)), prefix)
            },
            _ => s,
        },
        _ => s,
    }
}

/// A reply whose tags for images are the only control tags left.
pub open spec fn with_image_tags(s: Seq<char>) -> Seq<char> {
    text::trim(bracket_scan(bracket_scan(s, "[ACTION:"@), "[EMOTION:"@))
}

/// A reply without its control tags.
pub open spec fn without_control_tags(s: Seq<char>) -> Seq<char> {
    text::trim(
        bracket_scan(
            bracket_scan(bracket_scan(s, "[ACTION:"@), "[EMOTION:"@),
            "[IMAGE_PROMPT:"@,
        ),
    )
}

/// No tag that starts with `prefix` is closed in `s`.
pub open spec fn no_closed_tag(s: Seq<char>, prefix: Seq<char>) -> bool {
    forall|start: int, end: int|
        #![trigger text::matches_at(s, prefix, start), s[end]]
        text::matches_at(s, prefix, start) && start <= end < s.len() ==> s[end] != ']'
}

proof fn lemma_scan_leaves_no_tag(s: Seq<char>, prefix: Seq<char>)
    requires
        prefix.len() > 0,
    ensures
        no_closed_tag(bracket_scan(s, prefix), prefix),
    decreases s.len(),
{
    text::lemma_find_bounds(s, prefix, 0);
    match text::find(s, prefix, 0) {
        Some(start) => {
            text::lemma_find_char_bounds(s, ']', start);
            match text::find_char(s, ']', start) {
                Some(end) => {
                    reply_text::lemma_close_up_len(s, start, end + 1);
                    lemma_scan_leaves_no_tag(
                        reply_text::close_up(s.take(start), s.skip(end + 1)),
                        prefix,
                    );
                },
                None => {},
            }
        },
        None => {},
    }
}

/// A reply whose control tags were taken out asks for no image any more: no tag
/// for one stands in it.
pub proof fn lemma_no_image_tag_left(s: Seq<char>)
    ensures
        no_closed_tag(without_control_tags(s), "[IMAGE_PROMPT:"@),
{
    reveal_strlit("[IMAGE_PROMPT:");
    let prefix = "[IMAGE_PROMPT:"@;
    let before = bracket_scan(bracket_scan(s, "[ACTION:"@), "[EMOTION:"@);
    let full = bracket_scan(before, prefix);
    lemma_scan_leaves_no_tag(before, prefix);
    let r = text::trim(full);
    text::lemma_trim_start_len(full);
    text::lemma_trim_end_len(text::trim_start(full));
    let shift = full.len() - text::trim_start(full).len();
    assert forall|start: int, end: int|
        #![trigger text::matches_at(r, prefix, start), r[end]]
        text::matches_at(r, prefix, start) && start <= end < r.len() implies r[end] != ']' by {
        assert(full.subrange(start + shift, start + shift + prefix.len()) =~= r.subrange(
            start,
            start + prefix.len(),
        ));
        assert(text::matches_at(full, prefix, start + shift));
        assert(r[end] == full[end + shift]);
    }
}

/// `s` without the characters `c` at either end.
pub open spec fn strip_char(s: Seq<char>, c: char) -> Seq<char>
    decreases s.len(),
{
    if s.len() > 0 && s[0] == c {
        strip_char(s.drop_first(), c)
    } else if s.len() > 0 && s.last() == c {
        strip_char(s.drop_last(), c)
    } else {
        s
    }
}

/// A line of nothing but white space, or of an ellipsis or full stops.
pub open spec fn empty_line(line: Seq<char>) -> bool {
    text::trim(strip_char(strip_char(text::trim(line), '…'), '.')).len() == 0
}

/// The lines that say something.
pub open spec fn full_lines(lines: Seq<Seq<char>>) -> Seq<Seq<char>>
    decreases lines.len(),
{
    if lines.len() == 0 {
        Seq::empty()
    } else if empty_line(lines.last()) {
        full_lines(lines.drop_last())
    } else {
        full_lines(lines.drop_last()).push(lines.last())
    }
}

/// A text without its empty lines.
pub open spec fn compacted(s: Seq<char>) -> Seq<char> {
    text::trim(text::join(full_lines(text::lines(s)), "\n"@))
}

fn strip_tags(text: &str, prefix: &str) -> (r: String)
    requires
        prefix@.len() > 0,
        forall|k: int| 0 <= k < prefix@.len() ==> prefix@[k] != ']',
    ensures
        r@ == bracket_scan(text@, prefix@),
{
    let mut rest = text.to_owned();
    loop
        invariant
            bracket_scan(text@, prefix@) == bracket_scan(rest@, prefix@),
            prefix@.len() > 0,
            forall|k: int| 0 <= k < prefix@.len() ==> prefix@[k] != ']',
        ensures
            bracket_scan(text@, prefix@) == rest@,
        decreases rest@.len(),
    {
        let Some(start) = find_text(rest.as_str(), prefix, 0) else {
            break ;
        };
        let Some(end) = find_char_text(rest.as_str(), ']', start) else {
            break ;
        };
        proof {
            text::lemma_find_bounds(rest@, prefix@, 0);
            tags::lemma_close_after(rest@, prefix@, ']', start as int, end as int);
            reply_text::lemma_close_up_len(rest@, start as int, end + 1);
        }
        rest = concat2(
            trim_end_text(head_text(rest.as_str(), start).as_str()).as_str(),
            trim_start_text(tail_text(rest.as_str(), end + 1).as_str()).as_str(),
        );
    }
    rest
}

/// Takes out of a reply all control tags but those for images.
pub fn keep_image_tags(text: &str) -> (r: String)
    ensures
        r@ == with_image_tags(text@),
{
    proof {
        reveal_strlit("[ACTION:");
        reveal_strlit("[EMOTION:");
    }
    let s1 = strip_tags(text, "[ACTION:");
    let s2 = strip_tags(s1.as_str(), "[EMOTION:");
    trim_text(s2.as_str())
}

/// Takes out of a reply the tags that must not appear in Telegram.
pub fn strip_control_tags(text: &str) -> (r: String)
    ensures
        r@ == without_control_tags(text@),
{
    proof {
        reveal_strlit("[ACTION:");
        reveal_strlit("[EMOTION:");
        reveal_strlit("[IMAGE_PROMPT:");
    }
    let s1 = strip_tags(text, "[ACTION:");
    let s2 = strip_tags(s1.as_str(), "[EMOTION:");
    let s3 = strip_tags(s2.as_str(), "[IMAGE_PROMPT:");
    trim_text(s3.as_str())
}

fn strip_char_text(text: &str, c: char) -> (r: String)
    ensures
        r@ == strip_char(text@, c),
{
    let chars = to_chars(text);
    let mut from: usize = 0;
    let mut to: usize = chars.len();
    assert(chars@.subrange(0, to as int) =~= chars@);
    while from < to && (chars[from] == c || chars[to - 1] == c)
        invariant
            from <= to <= chars.len(),
            strip_char(chars@, c) == strip_char(chars@.subrange(from as int, to as int), c),
        decreases to - from,
    {
        let ghost now = chars@.subrange(from as int, to as int);
        if chars[from] == c {
            assert(now[0] == c);
            assert(now.drop_first() =~= chars@.subrange(from + 1, to as int));
            from += 1;
        } else {
            assert(now.last() == c && now[0] != c);
            assert(now.drop_last() =~= chars@.subrange(from as int, to - 1));
            to -= 1;
        }
    }
    proof {
        let now = chars@.subrange(from as int, to as int);
        assert(now.len() > 0 ==> now[0] == chars@[from as int] && now.last() == chars@[to - 1]);
    }
    text::from_chars(&chars, from, to)
}

fn is_empty_line(line: &str) -> (b: bool)
    ensures
        b == empty_line(line@),
{
    let t = trim_text(line);
    let t = strip_char_text(t.as_str(), '…');
    let t = strip_char_text(t.as_str(), '.');
    trim_text(t.as_str()).as_str().is_empty()
}

/// Takes out of a reply the lines that say nothing.
pub fn compact_newlines(text: &str) -> (r: String)
    ensures
        r@ == compacted(text@),
{
    let all = lines_text(text);
    let mut kept: Vec<String> = Vec::new();
    let mut i: usize = 0;
    assert(text::views(kept@) =~= full_lines(text::views(all@).take(0)));
    while i < all.len()
        invariant
            i <= all.len(),
            text::views(kept@) == full_lines(text::views(all@).take(i as int)),
        decreases all.len() - i,
    {
        proof {
            let done = text::views(all@).take(i + 1);
            assert(done.drop_last() =~= text::views(all@).take(i as int));
            assert(done.last() == all@[i as int]@);
        }
        if !is_empty_line(all[i].as_str()) {
            let ghost before = kept@;
            kept.push(all[i].clone());
            assert(text::views(kept@) =~= text::views(before).push(all@[i as int]@));
        }
        i += 1;
    }
    assert(text::views(all@).take(i as int) =~= text::views(all@));
    trim_text(join_text(&kept, "\n").as_str())
}

} // verus!
