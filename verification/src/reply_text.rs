//! Cleaning of model replies before they leave for a bot platform.

use vstd::prelude::*;
use vstd::utf8::*;
use crate::tags;
use crate::text;
use crate::text::{
    char_count, concat2, concat3, find_char_text, find_text, head_text,
    is_blank, is_white, join_text, lines_text, lower_text, slice_text, starts_with_text, tail_text,
    to_chars, trim_end_text, trim_start_text, trim_text,
};

verus! {

broadcast use vstd::string::group_string_axioms;

/// `found` with `piece` trimmed, unless nothing is left of it.
pub open spec fn push_trimmed(found: Seq<Seq<char>>, piece: Seq<char>) -> Seq<Seq<char>> {
    if text::blank(piece) {
        found
    } else {
        found.push(text::trim(piece))
    }
}

/// `left` and `right` without the white space where they meet.
pub open spec fn close_up(left: Seq<char>, right: Seq<char>) -> Seq<char> {
    text::trim_end(left) + text::trim_start(right)
}

/// Takes the `[TRANSLATE:..]` tags out of `s`, the first one first, and adds
/// their contents to `found`. A tag that is not closed reaches to the end.
pub open spec fn translate_scan(s: Seq<char>, found: Seq<Seq<char>>) -> (Seq<char>, Seq<Seq<char>>)
    decreases s.len(),
{
    match text::find(s, "[TRANSLATE:"@, 0) {
        Some(start) if 0 <= start < s.len() => {
            let inside = start + "[TRANSLATE:"@.len();
            match text::find_char(s, ']', start) {
                Some(end) if start <= end < s.len() => {
                    proof {
                        lemma_close_up_len(s, start, end + 1);
                    }
                    translate_scan(
                        close_up(s.take(start), s.skip(end + 1)),
                        push_trimmed(found, s.subrange(inside, end)),
                    )
                },
                _ => {
                    proof {
                        text::lemma_trim_end_len(s.take(start));
                    }
                    translate_scan(text::trim_end(s.take(start)), push_trimmed(found, s.skip(inside)))
                },
            }
        },
        _ => (s, found),
    }
}

/// The text and the translation of a reply.
pub open spec fn translated(s: Seq<char>) -> (Seq<char>, Option<Seq<char>>) {
    let (rest, found) = translate_scan(s, Seq::empty());
    (text::trim(rest), if found.len() == 0 {
        None
    } else {
        Some(text::join(found, " "@))
    })
}

/// `left` and `right` without the white space where they meet, with one space
/// in its place where both have something left.
pub open spec fn close_up_spaced(left: Seq<char>, right: Seq<char>) -> Seq<char> {
    let l = text::trim_end(left);
    let r = text::trim_start(right);
    if l.len() == 0 || r.len() == 0 {
        l + r
    } else {
        l + " "@ + r
    }
}

/// Takes the closed `[IMAGE_PROMPT:..]` tags out of `s`, the first one first,
/// and adds their contents to `found`.
pub open spec fn image_prompt_scan(s: Seq<char>, found: Seq<Seq<char>>) -> (
    Seq<char>,
    Seq<Seq<char>>,
)
    decreases s.len(),
{
    match text::find(s, "[IMAGE_PROMPT:"@, 0) {
        Some(start) if 0 <= start < s.len() => match text::find_char(s, ']', start) {
            Some(end) if start + "[IMAGE_PROMPT:"@.len() <= end < s.len() => {
                proof {
                    reveal_strlit("[IMAGE_PROMPT:");
                    reveal_strlit(" ");
                    lemma_close_up_len(s, start, end + 1);
                }
                image_prompt_scan(
                    close_up_spaced(s.take(start), s.skip(end + 1)),
                    push_trimmed(found, s.subrange(start + "[IMAGE_PROMPT:"@.len(), end)),
                )
            },
            _ => (s, found),
        },
        _ => (s, found),
    }
}

/// Takes the `<tool_result>` blocks out of `s`. A block that is not closed
/// reaches to the end of its line.
pub open spec fn leaked_scan(s: Seq<char>) -> Seq<char>
    decreases s.len(),
{
    match text::find(s, "<tool_result>"@, 0) {
        Some(start) if 0 <= start < s.len() => match text::find(s, "</tool_result>"@, start) {
            Some(end) if start <= end && end + "</tool_result>"@.len() <= s.len() => {
                proof {
                    reveal_strlit("</tool_result>");
                    lemma_close_up_len(s, start, end + "</tool_result>"@.len() as int);
                }
                leaked_scan(close_up(s.take(start), s.skip(end + "</tool_result>"@.len())))
            },
            _ => {
                let line_end = match text::find_char(s, '\n', start) {
                    Some(at) => at,
                    None => s.len() as int,
                };
                if start < line_end <= s.len() {
                    proof {
                        text::lemma_trim_end_len(s.take(start));
                    }
                    leaked_scan(text::trim_end(s.take(start)) + s.skip(line_end))
                } else {
                    s
                }
            },
        },
        _ => s,
    }
}

/// `next`, trimmed, behind `accumulated`, with a space between them unless
/// white space is there already.
pub open spec fn merged(accumulated: Seq<char>, next: Seq<char>) -> Seq<char> {
    let n = text::trim(next);
    if n.len() == 0 {
        accumulated
    } else if accumulated.len() == 0 {
        n
    } else if !text::white(accumulated.last()) {
        accumulated + " "@ + n
    } else {
        accumulated + n
    }
}

/// Takes the closed tags that start with `prefix` out of `s`, and nothing else.
pub open spec fn bracket_scan(s: Seq<char>, prefix: Seq<char>) -> Seq<char>
    decreases s.len(),
{
    match text::find(s, prefix, 0) {
        Some(start) if 0 <= start < s.len() => match text::find_char(s, ']', start) {
            Some(end) if start <= end < s.len() => bracket_scan(
                s.take(start) + s.skip(end + 1),
                prefix,
            ),
            _ => s,
        },
        _ => s,
    }
}

/// How many characters of `s` belong to a tag whose first `n` are taken: up to
/// and with the first `>`, and no further than the character that makes it
/// longer than 64 bytes.
pub open spec fn tag_end(s: Seq<char>, n: int) -> int
    decreases s.len() - n,
{
    if n < 0 || n >= s.len() {
        n
    } else if s[n] == '>' || encode_utf8(s.take(n + 1)).len() > 64 {
        n + 1
    } else {
        tag_end(s, n + 1)
    }
}

/// The tags, without `<` and in lower case, that are not shown.
pub open spec fn hidden_tag(tag: Seq<char>) -> bool {
    ||| text::starts_with(tag, "translate>"@)
    ||| text::starts_with(tag, "/translate>"@)
    ||| text::starts_with(tag, "emotion"@)
    ||| text::starts_with(tag, "/emotion>"@)
    ||| text::starts_with(tag, "cue"@)
    ||| text::starts_with(tag, "/cue>"@)
}

/// `s` without its hidden tags.
pub open spec fn without_hidden(s: Seq<char>) -> Seq<char>
    decreases s.len(),
{
    if s.len() == 0 {
        s
    } else if s[0] != '<' {
        seq![s[0]] + without_hidden(s.skip(1))
    } else {
        let rest = s.skip(1);
        let n = tag_end(rest, 0);
        let tag = rest.take(n);
        let shown = if hidden_tag(text::lower(tag)) {
            Seq::empty()
        } else {
            seq!['<'] + tag
        };
        if 0 <= n <= rest.len() {
            shown + without_hidden(rest.skip(n))
        } else {
            shown
        }
    }
}

/// A reply without its control tags.
pub open spec fn without_control_tags(s: Seq<char>) -> Seq<char> {
    let s1 = bracket_scan(s, "[ACTION:"@);
    let s2 = bracket_scan(s1, "[EMOTION:"@);
    let s3 = bracket_scan(s2, "[IMAGE_PROMPT:"@);
    text::trim(without_hidden(s3))
}

/// The lines that are not blank, without the white space at their ends.
pub open spec fn kept_lines(lines: Seq<Seq<char>>) -> Seq<Seq<char>>
    decreases lines.len(),
{
    if lines.len() == 0 {
        Seq::empty()
    } else {
        let before = kept_lines(lines.drop_last());
        if text::blank(lines.last()) {
            before
        } else {
            before.push(text::trim_end(lines.last()))
        }
    }
}

/// A text without blank lines, and without white space at its line ends.
pub open spec fn compacted(s: Seq<char>) -> Seq<char> {
    text::trim(text::join(kept_lines(text::lines(s)), "\n"@))
}

/// Closing up over a gap makes the text shorter.
pub proof fn lemma_close_up_len(s: Seq<char>, from: int, to: int)
    requires
        0 <= from <= to <= s.len(),
    ensures
        close_up(s.take(from), s.skip(to)).len() <= s.len() - (to - from),
        text::trim_end(s.take(from)).len() <= from,
        text::trim_start(s.skip(to)).len() <= s.len() - to,
{
    text::lemma_trim_end_len(s.take(from));
    text::lemma_trim_start_len(s.skip(to));
}

/// What trimming leaves holds nothing that was not there before.
pub proof fn lemma_trim_contains(s: Seq<char>, pat: Seq<char>)
    requires
        text::contains(text::trim(s), pat),
    ensures
        text::contains(s, pat),
{
    let inner = text::trim_start(s);
    let at = choose|at: int| text::matches_at(text::trim(s), pat, at);
    text::lemma_trim_start_len(s);
    text::lemma_trim_end_len(inner);
    let shift = s.len() - inner.len();
    assert(text::trim(s).subrange(at, at + pat.len()) =~= s.subrange(
        at + shift,
        at + shift + pat.len(),
    ));
    assert(text::matches_at(s, pat, at + shift));
}

/// No translation tag is left in the text of a reply.
pub proof fn lemma_translate_scan_clean(s: Seq<char>, found: Seq<Seq<char>>)
    ensures
        !text::contains(translate_scan(s, found).0, "[TRANSLATE:"@),
    decreases s.len(),
{
    reveal_strlit("[TRANSLATE:");
    text::lemma_find_bounds(s, "[TRANSLATE:"@, 0);
    match text::find(s, "[TRANSLATE:"@, 0) {
        Some(start) => {
            let inside = start + "[TRANSLATE:"@.len();
            match text::find_char(s, ']', start) {
                Some(end) => {
                    text::lemma_find_char_bounds(s, ']', start);
                    lemma_close_up_len(s, start, end + 1);
                    lemma_translate_scan_clean(
                        close_up(s.take(start), s.skip(end + 1)),
                        push_trimmed(found, s.subrange(inside, end)),
                    );
                },
                None => {
                    text::lemma_trim_end_len(s.take(start));
                    lemma_translate_scan_clean(
                        text::trim_end(s.take(start)),
                        push_trimmed(found, s.skip(inside)),
                    );
                },
            }
        },
        None => {},
    }
}

/// No tool result block is left in a reply.
pub proof fn lemma_leaked_scan_clean(s: Seq<char>)
    ensures
        !text::contains(leaked_scan(s), "<tool_result>"@),
    decreases s.len(),
{
    reveal_strlit("<tool_result>");
    reveal_strlit("</tool_result>");
    text::lemma_find_bounds(s, "<tool_result>"@, 0);
    match text::find(s, "<tool_result>"@, 0) {
        Some(start) => {
            text::lemma_find_bounds(s, "</tool_result>"@, start);
            match text::find(s, "</tool_result>"@, start) {
                Some(end) => {
                    lemma_close_up_len(s, start, end + "</tool_result>"@.len() as int);
                    lemma_leaked_scan_clean(
                        close_up(s.take(start), s.skip(end + "</tool_result>"@.len())),
                    );
                },
                None => {
                    let line_end = match text::find_char(s, '\n', start) {
                        Some(at) => at,
                        None => s.len() as int,
                    };
                    text::lemma_find_char_bounds(s, '\n', start);
                    if text::find_char(s, '\n', start) is Some {
                        tags::lemma_close_after(s, "<tool_result>"@, '\n', start, line_end);
                    }
                    text::lemma_trim_end_len(s.take(start));
                    lemma_leaked_scan_clean(text::trim_end(s.take(start)) + s.skip(line_end));
                },
            }
        },
        None => {},
    }
}

/// Two line feeds in a row.
pub open spec fn has_gap(s: Seq<char>) -> bool {
    exists|i: int| 0 <= i < s.len() - 1 && #[trigger] s[i] == '\n' && s[i + 1] == '\n'
}

proof fn lemma_lines_hold_no_feed(s: Seq<char>)
    ensures
        forall|i: int, j: int|
            0 <= i < text::lines(s).len() && 0 <= j < text::lines(s)[i].len() ==> #[trigger] text::lines(s)[i][j]
                != '\n',
    decreases s.len(),
{
    if s.len() > 0 {
        text::lemma_find_char_bounds(s, '\n', 0);
        match text::find_char(s, '\n', 0) {
            Some(at) => {
                lemma_lines_hold_no_feed(s.skip(at + 1));
                let rest = text::lines(s.skip(at + 1));
                assert forall|i: int, j: int|
                    0 <= i < text::lines(s).len() && 0 <= j < text::lines(s)[i].len() implies #[trigger] text::lines(
                    s,
                )[i][j] != '\n' by {
                    if i > 0 {
                        assert(text::lines(s)[i] == rest[i - 1]);
                        assert(rest[i - 1][j] != '\n');
                    } else {
                        assert(text::lines(s)[0][j] == s[j]);
                    }
                }
            },
            None => {},
        }
    }
}

/// Not empty, one line, and no white space at the end.
spec fn settled_line(line: Seq<char>) -> bool {
    line.len() > 0 && !text::white(line.last()) && !line.contains('\n')
}

spec fn settled(lines: Seq<Seq<char>>) -> bool {
    forall|i: int| 0 <= i < lines.len() ==> settled_line(#[trigger] lines[i])
}

proof fn lemma_kept_lines_settled(ls: Seq<Seq<char>>)
    requires
        forall|i: int, j: int|
            0 <= i < ls.len() && 0 <= j < ls[i].len() ==> #[trigger] ls[i][j] != '\n',
    ensures
        settled(kept_lines(ls)),
    decreases ls.len(),
{
    if ls.len() > 0 {
        let before = ls.drop_last();
        let line = ls.last();
        assert forall|i: int, j: int|
            0 <= i < before.len() && 0 <= j < before[i].len() implies #[trigger] before[i][j]
            != '\n' by {
            assert(ls[i][j] != '\n');
        }
        lemma_kept_lines_settled(before);
        text::lemma_trim_end_len(line);
        lemma_blank_iff(line);
        let kept = text::trim_end(line);
        assert forall|j: int| 0 <= j < kept.len() implies kept[j] != '\n' by {
            assert(kept[j] == ls[ls.len() - 1][j]);
        }
        assert(!kept.contains('\n'));
        if !text::blank(line) {
            assert(settled_line(kept));
            assert forall|i: int| 0 <= i < kept_lines(ls).len() implies settled_line(
                #[trigger] kept_lines(ls)[i],
            ) by {
                if i < kept_lines(before).len() {
                    assert(kept_lines(ls)[i] == kept_lines(before)[i]);
                }
            }
        }
    }
}

proof fn lemma_settled_lines_kept(ls: Seq<Seq<char>>)
    requires
        settled(ls),
    ensures
        kept_lines(ls) == ls,
    decreases ls.len(),
{
    if ls.len() > 0 {
        let before = ls.drop_last();
        let line = ls.last();
        assert(settled_line(ls[ls.len() - 1]));
        assert forall|i: int| 0 <= i < before.len() implies settled_line(#[trigger] before[i]) by {
            assert(before[i] == ls[i]);
        }
        lemma_settled_lines_kept(before);
        lemma_blank_iff(line);
        assert(kept_lines(ls) =~= ls);
    } else {
        assert(kept_lines(ls) =~= ls);
    }
}

proof fn lemma_join_front(parts: Seq<Seq<char>>, sep: Seq<char>)
    requires
        parts.len() >= 2,
    ensures
        text::join(parts, sep) == parts[0] + sep + text::join(parts.drop_first(), sep),
    decreases parts.len(),
{
    let front = parts.drop_last();
    let back = parts.drop_first();
    if parts.len() == 2 {
        assert(text::join(front, sep) == parts[0]);
        assert(text::join(back, sep) == parts[1]);
    } else {
        lemma_join_front(front, sep);
        assert(front.drop_first() =~= back.drop_last());
        let middle = text::join(back.drop_last(), sep);
        assert(text::join(parts, sep) == (parts[0] + sep + middle) + sep + parts.last());
        assert(text::join(back, sep) == middle + sep + parts.last());
        assert(text::join(parts, sep) =~= parts[0] + sep + text::join(back, sep));
    }
}

/// The lines of joined lines are those lines.
proof fn lemma_lines_of_join(ls: Seq<Seq<char>>)
    requires
        settled(ls),
    ensures
        text::lines(text::join(ls, "\n"@)) == ls,
    decreases ls.len(),
{
    reveal_strlit("\n");
    let s = text::join(ls, "\n"@);
    text::lemma_find_char_bounds(s, '\n', 0);
    if ls.len() == 0 {
        assert(text::lines(s) =~= ls);
    } else if ls.len() == 1 {
        assert(settled_line(ls[0]));
        text::lemma_find_char_contains(s, '\n');
        assert(text::lines(s) =~= ls);
    } else {
        let first = ls[0];
        let rest = ls.drop_first();
        assert(settled_line(ls[0]));
        lemma_join_front(ls, "\n"@);
        assert forall|i: int| 0 <= i < rest.len() implies settled_line(#[trigger] rest[i]) by {
            assert(rest[i] == ls[i + 1]);
        }
        lemma_lines_of_join(rest);
        assert(s[first.len() as int] == '\n');
        assert forall|k: int| 0 <= k < first.len() implies s[k] != '\n' by {
            assert(s[k] == first[k]);
            assert(first.contains(first[k]));
        }
        let at = first.len() as int;
        assert(text::find_char(s, '\n', 0) == Some(at));
        assert(s.take(at) =~= first);
        assert(text::strip_cr(first) == first);
        assert(s.skip(at + 1) =~= text::join(rest, "\n"@));
        assert(text::lines(s) =~= seq![first] + rest);
        assert(text::lines(s) =~= ls);
    }
}

proof fn lemma_join_no_gap(ls: Seq<Seq<char>>)
    requires
        settled(ls),
    ensures
        !has_gap(text::join(ls, "\n"@)),
        ls.len() > 0 ==> text::join(ls, "\n"@).len() > 0 && !text::white(
            text::join(ls, "\n"@).last(),
        ),
    decreases ls.len(),
{
    reveal_strlit("\n");
    let s = text::join(ls, "\n"@);
    if ls.len() > 0 {
        let before = ls.drop_last();
        let line = ls.last();
        assert(settled_line(ls[ls.len() - 1]));
        assert forall|i: int| 0 <= i < before.len() implies settled_line(#[trigger] before[i]) by {
            assert(before[i] == ls[i]);
        }
        assert forall|j: int| 0 <= j < line.len() implies line[j] != '\n' by {
            assert(line.contains(line[j]));
        }
        if ls.len() > 1 {
            lemma_join_no_gap(before);
            let out = text::join(before, "\n"@);
            assert(s == out + "\n"@ + line);
            assert forall|i: int| 0 <= i < s.len() - 1 && #[trigger] s[i] == '\n' implies s[i + 1]
                != '\n' by {
                if i + 1 < out.len() {
                    assert(out[i] == '\n');
                    assert(out[i + 1] == s[i + 1]);
                } else if i >= out.len() {
                    assert(s[i + 1] == line[i - out.len()]);
                } else {
                    assert(s[i] == out.last());
                }
            }
            assert(s.last() == line.last());
        }
    }
}

/// Trimming the beginning of a text that begins with a line which is not blank
/// trims that line alone.
proof fn lemma_trim_start_of_sum(line: Seq<char>, rest: Seq<char>)
    requires
        line.len() > 0,
        !text::white(line.last()),
    ensures
        text::trim_start(line + rest) == text::trim_start(line) + rest,
        text::trim_start(line).len() > 0,
        text::trim_start(line).last() == line.last(),
    decreases line.len(),
{
    let s = line + rest;
    assert(s[0] == line[0]);
    if text::white(line[0]) {
        assert(line.len() > 1);
        lemma_trim_start_of_sum(line.drop_first(), rest);
        assert(s.drop_first() =~= line.drop_first() + rest);
    }
}

/// Trimming joined lines trims the beginning of the first one, and leaves lines.
proof fn lemma_trim_of_join(ls: Seq<Seq<char>>) -> (trimmed: Seq<Seq<char>>)
    requires
        settled(ls),
    ensures
        settled(trimmed),
        text::trim(text::join(ls, "\n"@)) == text::join(trimmed, "\n"@),
{
    let s = text::join(ls, "\n"@);
    if ls.len() == 0 {
        ls
    } else {
        lemma_join_no_gap(ls);
        assert(settled_line(ls[0]));
        let first = text::trim_start(ls[0]);
        let trimmed = ls.update(0, first);
        text::lemma_trim_start_len(ls[0]);
        lemma_trim_start_of_sum(ls[0], Seq::empty());
        assert forall|j: int| 0 <= j < first.len() implies first[j] != '\n' by {
            let k = j + ls[0].len() - first.len();
            assert(first[j] == ls[0][k]);
            assert(ls[0].contains(ls[0][k]));
        }
        assert(!first.contains('\n'));
        assert(settled_line(first));
        if ls.len() == 1 {
            assert(trimmed =~= seq![first]);
        } else {
            let rest = "\n"@ + text::join(ls.drop_first(), "\n"@);
            lemma_join_front(ls, "\n"@);
            lemma_join_front(trimmed, "\n"@);
            assert(trimmed.drop_first() =~= ls.drop_first());
            lemma_trim_start_of_sum(ls[0], rest);
            assert(s =~= ls[0] + rest);
            assert(text::join(trimmed, "\n"@) =~= first + rest);
        }
        assert(text::trim_start(s) == text::join(trimmed, "\n"@));
        lemma_join_no_gap(trimmed);
        trimmed
    }
}

/// A text is blank just when trimming its end leaves nothing.
pub proof fn lemma_blank_iff(s: Seq<char>)
    ensures
        text::blank(s) <==> text::trim_end(s).len() == 0,
{
    text::lemma_trim_end_len(s);
    text::lemma_trim_start_len(s);
    text::lemma_trim_end_len(text::trim_start(s));
    if text::blank(s) {
        lemma_blank_all_white(text::trim_start(s));
        assert(text::trim_start(s).len() == 0);
        lemma_start_empty(s);
        lemma_all_white_trim_end(s);
    } else {
        if text::trim_end(s).len() == 0 {
            lemma_blank_all_white(s);
            lemma_all_white_trim_start(s);
        }
    }
}

proof fn lemma_blank_all_white(s: Seq<char>)
    requires
        text::trim_end(s).len() == 0,
    ensures
        forall|i: int| 0 <= i < s.len() ==> text::white(#[trigger] s[i]),
    decreases s.len(),
{
    if s.len() > 0 && text::white(s.last()) {
        lemma_blank_all_white(s.drop_last());
        assert forall|i: int| 0 <= i < s.len() implies text::white(#[trigger] s[i]) by {
            if i < s.len() - 1 {
                assert(s.drop_last()[i] == s[i]);
            }
        }
    }
}

proof fn lemma_start_empty(s: Seq<char>)
    requires
        text::trim_start(s).len() == 0,
    ensures
        forall|i: int| 0 <= i < s.len() ==> text::white(#[trigger] s[i]),
    decreases s.len(),
{
    if s.len() > 0 && text::white(s[0]) {
        lemma_start_empty(s.drop_first());
        assert forall|i: int| 0 <= i < s.len() implies text::white(#[trigger] s[i]) by {
            if i > 0 {
                assert(s.drop_first()[i - 1] == s[i]);
            }
        }
    }
}

proof fn lemma_all_white_trim_end(s: Seq<char>)
    requires
        forall|i: int| 0 <= i < s.len() ==> text::white(#[trigger] s[i]),
    ensures
        text::trim_end(s).len() == 0,
    decreases s.len(),
{
    if s.len() > 0 {
        assert(text::white(s[s.len() - 1]));
        lemma_all_white_trim_end(s.drop_last());
    }
}

proof fn lemma_all_white_trim_start(s: Seq<char>)
    requires
        forall|i: int| 0 <= i < s.len() ==> text::white(#[trigger] s[i]),
    ensures
        text::trim_start(s).len() == 0,
    decreases s.len(),
{
    if s.len() > 0 {
        assert(text::white(s[0]));
        lemma_all_white_trim_start(s.drop_first());
    }
}

/// Compacted text holds no empty line.
pub proof fn lemma_compacted_no_gap(s: Seq<char>)
    ensures
        !has_gap(compacted(s)),
{
    lemma_lines_hold_no_feed(s);
    lemma_kept_lines_settled(text::lines(s));
    let trimmed = lemma_trim_of_join(kept_lines(text::lines(s)));
    lemma_join_no_gap(trimmed);
}

/// Compacting twice is compacting once.
pub proof fn lemma_compacted_idempotent(s: Seq<char>)
    ensures
        compacted(compacted(s)) == compacted(s),
{
    lemma_lines_hold_no_feed(s);
    lemma_kept_lines_settled(text::lines(s));
    let kept = kept_lines(text::lines(s));
    let trimmed = lemma_trim_of_join(kept);
    lemma_lines_of_join(trimmed);
    lemma_settled_lines_kept(trimmed);
    text::lemma_trim_idempotent(text::join(kept, "\n"@));
}

/// Takes the `[TRANSLATE:..]` tags out of a reply. Returns the text that is
/// left and the translations joined by spaces, if there are any.
pub fn extract_translate_tags(text: &str) -> (r: (String, Option<String>))
    ensures
        r.0@ == translated(text@).0,
        text::opt_view(r.1) == translated(text@).1,
        !text::contains(r.0@, "[TRANSLATE:"@),
{
    let mut translations: Vec<String> = Vec::new();
    let mut rest = text.to_owned();
    assert(text::views(translations@) =~= Seq::empty());
    loop
        invariant
            translate_scan(text@, Seq::empty()) == translate_scan(rest@, text::views(translations@)),
        ensures
            translate_scan(text@, Seq::empty()) == (rest@, text::views(translations@)),
        decreases rest@.len(),
    {
        let Some(start) = find_text(rest.as_str(), "[TRANSLATE:", 0) else {
            break ;
        };
        proof {
            reveal_strlit("[TRANSLATE:");
            text::lemma_find_bounds(rest@, "[TRANSLATE:"@, 0);
        }
        let ghost before = translations@;
        let head = head_text(rest.as_str(), start);
        match find_char_text(rest.as_str(), ']', start) {
            Some(end) => {
                proof {
                    tags::lemma_close_after(rest@, "[TRANSLATE:"@, ']', start as int, end as int);
                    lemma_close_up_len(rest@, start as int, end + 1);
                }
                let inner = slice_text(rest.as_str(), start + 11, end);
                push_piece(&mut translations, inner.as_str());
                let tail = tail_text(rest.as_str(), end + 1);
                rest = close_up_text(head.as_str(), tail.as_str());
            },
            None => {
                proof {
                    text::lemma_trim_end_len(rest@.take(start as int));
                }
                let inner = tail_text(rest.as_str(), start + 11);
                push_piece(&mut translations, inner.as_str());
                rest = trim_end_text(head.as_str());
            },
        }
    }
    proof {
        lemma_translate_scan_clean(text@, Seq::empty());
        if text::contains(text::trim(rest@), "[TRANSLATE:"@) {
            lemma_trim_contains(rest@, "[TRANSLATE:"@);
        }
    }
    let translation = if translations.len() == 0 {
        None
    } else {
        Some(join_text(&translations, " "))
    };
    (trim_text(rest.as_str()), translation)
}

fn push_piece(found: &mut Vec<String>, piece: &str)
    ensures
        text::views(final(found)@) == push_trimmed(text::views(old(found)@), piece@),
{
    let trimmed = trim_text(piece);
    if !trimmed.as_str().is_empty() {
        found.push(trimmed);
    }
    assert(text::views(found@) =~= push_trimmed(text::views(old(found)@), piece@));
}

fn close_up_text(left: &str, right: &str) -> (r: String)
    ensures
        r@ == close_up(left@, right@),
{
    concat2(trim_end_text(left).as_str(), trim_start_text(right).as_str())
}

/// Takes the closed `[IMAGE_PROMPT:..]` tags out of a reply. Returns the text
/// that is left and the prompts.
pub fn extract_image_prompt_tags(text: &str) -> (r: (String, Vec<String>))
    ensures
        r.0@ == text::trim(image_prompt_scan(text@, Seq::empty()).0),
        text::views(r.1@) == image_prompt_scan(text@, Seq::empty()).1,
{
    let mut prompts: Vec<String> = Vec::new();
    let mut rest = text.to_owned();
    assert(text::views(prompts@) =~= Seq::empty());
    loop
        invariant
            image_prompt_scan(text@, Seq::empty()) == image_prompt_scan(rest@, text::views(prompts@)),
        ensures
            image_prompt_scan(text@, Seq::empty()) == (rest@, text::views(prompts@)),
        decreases rest@.len(),
    {
        let Some(start) = find_text(rest.as_str(), "[IMAGE_PROMPT:", 0) else {
            break ;
        };
        proof {
            reveal_strlit("[IMAGE_PROMPT:");
            reveal_strlit(" ");
            text::lemma_find_bounds(rest@, "[IMAGE_PROMPT:"@, 0);
        }
        let Some(end) = find_char_text(rest.as_str(), ']', start) else {
            break ;
        };
        proof {
            tags::lemma_close_after(rest@, "[IMAGE_PROMPT:"@, ']', start as int, end as int);
            lemma_close_up_len(rest@, start as int, end + 1);
        }
        let inner = slice_text(rest.as_str(), start + 14, end);
        push_piece(&mut prompts, inner.as_str());
        let left = trim_end_text(head_text(rest.as_str(), start).as_str());
        let right = trim_start_text(tail_text(rest.as_str(), end + 1).as_str());
        if left.as_str().is_empty() || right.as_str().is_empty() {
            rest = concat2(left.as_str(), right.as_str());
        } else {
            rest = concat3(left.as_str(), " ", right.as_str());
        }
    }
    (trim_text(rest.as_str()), prompts)
}

/// Takes leaked `<tool_result>` blocks out of a reply.
pub fn strip_leaked_tags(text: &str) -> (r: String)
    ensures
        r@ == text::trim(leaked_scan(text@)),
        !text::contains(r@, "<tool_result>"@),
{
    let mut rest = text.to_owned();
    loop
        invariant
            leaked_scan(text@) == leaked_scan(rest@),
        ensures
            leaked_scan(text@) == rest@,
        decreases rest@.len(),
    {
        let Some(start) = find_text(rest.as_str(), "<tool_result>", 0) else {
            break ;
        };
        proof {
            reveal_strlit("<tool_result>");
            reveal_strlit("</tool_result>");
            text::lemma_find_bounds(rest@, "<tool_result>"@, 0);
            text::lemma_find_bounds(rest@, "</tool_result>"@, start as int);
        }
        let head = head_text(rest.as_str(), start);
        match find_text(rest.as_str(), "</tool_result>", start) {
            Some(end) => {
                proof {
                    lemma_close_up_len(rest@, start as int, end + 14);
                }
                let tail = tail_text(rest.as_str(), end + 14);
                rest = close_up_text(head.as_str(), tail.as_str());
            },
            None => {
                proof {
                    text::lemma_trim_end_len(rest@.take(start as int));
                }
                let line_end = match find_char_text(rest.as_str(), '\n', start) {
                    Some(at) => {
                        proof {
                            tags::lemma_close_after(
                                rest@,
                                "<tool_result>"@,
                                '\n',
                                start as int,
                                at as int,
                            );
                        }
                        at
                    },
                    None => char_count(rest.as_str()),
                };
                let tail = tail_text(rest.as_str(), line_end);
                rest = concat2(trim_end_text(head.as_str()).as_str(), tail.as_str());
            },
        }
    }
    proof {
        lemma_leaked_scan_clean(text@);
        if text::contains(text::trim(rest@), "<tool_result>"@) {
            lemma_trim_contains(rest@, "<tool_result>"@);
        }
    }
    trim_text(rest.as_str())
}

/// Adds the text of a further round to what earlier rounds gave.
pub fn merge_continuation_text(accumulated: &mut String, next: &str)
    ensures
        final(accumulated)@ == merged(old(accumulated)@, next@),
{
    let next = trim_text(next);
    if next.as_str().is_empty() {
        return ;
    }
    let n = char_count(accumulated.as_str());
    if n > 0 && !is_white(accumulated.as_str().get_char(n - 1)) {
        accumulated.append(" ");
    }
    let ghost before = accumulated@;
    accumulated.append(next.as_str());
    assert(n == 0 ==> before + next@ =~= next@);
}

fn strip_bracket_tags(text: &str, prefix: &str) -> (r: String)
    requires
        prefix@.len() > 0,
        forall|k: int| 0 <= k < prefix@.len() ==> prefix@[k] != ']',
    ensures
        r@ == bracket_scan(text@, prefix@),
{
    let mut rest = text.to_owned();
    loop
        invariant
            bracket_scan(text@, prefix@) == bracket_scan(rest@, prefix@),
            prefix@.len() > 0,
            forall|k: int| 0 <= k < prefix@.len() ==> prefix@[k] != ']',
        ensures
            bracket_scan(text@, prefix@) == rest@,
        decreases rest@.len(),
    {
        let Some(start) = find_text(rest.as_str(), prefix, 0) else {
            break ;
        };
        let Some(end) = find_char_text(rest.as_str(), ']', start) else {
            break ;
        };
        proof {
            text::lemma_find_bounds(rest@, prefix@, 0);
            tags::lemma_close_after(rest@, prefix@, ']', start as int, end as int);
        }
        rest = concat2(
            head_text(rest.as_str(), start).as_str(),
            tail_text(rest.as_str(), end + 1).as_str(),
        );
    }
    rest
}

fn is_hidden_tag(tag: &str) -> (b: bool)
    ensures
        b == hidden_tag(text::lower(tag@)),
{
    let name = lower_text(tag);
    let name = name.as_str();
    starts_with_text(name, "translate>") || starts_with_text(name, "/translate>")
        || starts_with_text(name, "emotion") || starts_with_text(name, "/emotion>")
        || starts_with_text(name, "cue") || starts_with_text(name, "/cue>")
}

fn strip_hidden_tags(text: &str) -> (r: String)
    ensures
        r@ == without_hidden(text@),
{
    let chars = to_chars(text);
    let mut r = String::new();
    let mut i: usize = 0;
    assert(chars@.skip(0) =~= chars@);
    while i < chars.len()
        invariant
            i <= chars.len(),
            chars@ == text@,
            without_hidden(text@) == r@ + without_hidden(chars@.skip(i as int)),
        decreases chars.len() - i,
    {
        let ghost here = chars@.skip(i as int);
        let ghost before = r@;
        if chars[i] != '<' {
            r.push(chars[i]);
            assert(here.skip(1) =~= chars@.skip(i + 1));
            assert(before + (seq![here[0]] + without_hidden(here.skip(1))) =~= r@ + without_hidden(
                here.skip(1),
            ));
            i += 1;
        } else {
            let ghost rest = here.skip(1);
            let mut tag = String::new();
            let mut next: usize = i + 1;
            assert(rest =~= chars@.skip(i + 1));
            assert(tag@ =~= rest.take(0));
            while next < chars.len()
                invariant_except_break
                    tag_end(rest, 0) == tag_end(rest, next - (i + 1)),
                invariant
                    i < next <= chars.len(),
                    rest == chars@.skip(i + 1),
                    tag@ == rest.take(next - (i + 1)),
                ensures
                    i < next <= chars.len(),
                    tag@ == rest.take(next - (i + 1)),
                    tag_end(rest, 0) == next - (i + 1),
                decreases chars.len() - next,
            {
                let c = chars[next];
                tag.push(c);
                assert(rest.take(next - (i + 1)).push(rest[next - (i + 1)]) =~= rest.take(
                    next - i,
                ));
                next += 1;
                if c == '>' || tag.as_str().as_bytes().len() > 64 {
                    break ;
                }
            }
            let ghost n = next - (i + 1);
            assert(rest.skip(n) =~= chars@.skip(next as int));
            if is_hidden_tag(tag.as_str()) {
                assert(before + (Seq::<char>::empty() + without_hidden(rest.skip(n))) =~= r@
                    + without_hidden(rest.skip(n)));
            } else {
                r.push('<');
                r.append(tag.as_str());
                assert(before + ((seq!['<'] + tag@) + without_hidden(rest.skip(n))) =~= r@
                    + without_hidden(rest.skip(n)));
            }
            i = next;
        }
    }
    assert(chars@.skip(i as int).len() == 0);
    assert(r@ + without_hidden(chars@.skip(i as int)) =~= r@);
    r
}

/// Takes out of a reply the tags that a platform must not show.
pub fn strip_control_tags(text: &str) -> (r: String)
    ensures
        r@ == without_control_tags(text@),
{
    proof {
        reveal_strlit("[ACTION:");
        reveal_strlit("[EMOTION:");
        reveal_strlit("[IMAGE_PROMPT:");
    }
    let s1 = strip_bracket_tags(text, "[ACTION:");
    let s2 = strip_bracket_tags(s1.as_str(), "[EMOTION:");
    let s3 = strip_bracket_tags(s2.as_str(), "[IMAGE_PROMPT:");
    trim_text(strip_hidden_tags(s3.as_str()).as_str())
}

/// Takes the blank lines out of a text, and the white space at the line ends.
pub fn compact_newlines(text: &str) -> (r: String)
    ensures
        r@ == compacted(text@),
        !has_gap(r@),
{
    let all = lines_text(text);
    let mut kept: Vec<String> = Vec::new();
    let mut i: usize = 0;
    assert(text::views(kept@) =~= Seq::empty());
    while i < all.len()
        invariant
            i <= all.len(),
            text::views(kept@) == kept_lines(text::views(all@).take(i as int)),
        decreases all.len() - i,
    {
        let ghost before = kept@;
        proof {
            let done = text::views(all@).take(i + 1);
            assert(done.drop_last() =~= text::views(all@).take(i as int));
            assert(done.last() == all@[i as int]@);
        }
        let line = all[i].as_str();
        if !is_blank(line) {
            kept.push(trim_end_text(line));
            assert(text::views(kept@) =~= text::views(before).push(text::trim_end(line@)));
        }
        i += 1;
    }
    assert(text::views(all@).take(i as int) =~= text::views(all@));
    proof {
        lemma_compacted_no_gap(text@);
    }
    trim_text(join_text(&kept, "\n").as_str())
}

} // verus!
