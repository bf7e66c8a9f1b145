//! What cleaning a reply leaves of it and takes out of it, however the reply is put
//! together.

use vstd::prelude::*;
use crate::reply_text;
use crate::telegram;
use crate::telegram_text;
use crate::text;
use crate::text_laws;

verus! {

broadcast use vstd::string::group_string_axioms;

/// Closing up over a gap takes out the gap and white space around it.
proof fn lemma_close_up_subsequence(s: Seq<char>, from: int, to: int)
    requires
        0 <= from <= to <= s.len(),
    ensures
        text_laws::subsequence(reply_text::close_up(s.take(from), s.skip(to)), s),
        text_laws::subsequence(text::trim_end(s.take(from)), s),
        text_laws::subsequence(s.take(from) + s.skip(to), s),
        text_laws::subsequence(text::trim_end(s.take(from)) + s.skip(to), s),
{
    let head = s.take(from);
    let tail = s.skip(to);
    let behind = s.skip(from);
    text_laws::lemma_trim_subsequence(head);
    text_laws::lemma_trim_subsequence(tail);
    text_laws::lemma_subsequence_same(head);
    text_laws::lemma_subsequence_same(tail);
    text_laws::lemma_subsequence_part(behind, to - from, behind.len() as int);
    assert(behind.subrange(to - from, behind.len() as int) =~= tail);
    text_laws::lemma_subsequence_through(text::trim_start(tail), tail, behind);
    assert(head + behind =~= s);
    text_laws::lemma_subsequence_sum(text::trim_end(head), head, text::trim_start(tail), behind);
    text_laws::lemma_subsequence_sum(head, head, tail, behind);
    text_laws::lemma_subsequence_sum(text::trim_end(head), head, tail, behind);
    text_laws::lemma_subsequence_part(s, 0, from);
    assert(s.subrange(0, from) =~= head);
    text_laws::lemma_subsequence_through(text::trim_end(head), head, s);
}

/// A text without a pattern has none in its beginning either.
proof fn lemma_absent_in_part(s: Seq<char>, pat: Seq<char>, to: int)
    requires
        text_laws::absent(s, pat),
        0 <= to <= s.len(),
    ensures
        text_laws::absent(s.take(to), pat),
{
    assert forall|k: int| 0 <= k && k + pat.len() <= s.take(to).len() implies #[trigger] s.take(
        to,
    ).subrange(k, k + pat.len()) != pat by {
        assert(s.take(to).subrange(k, k + pat.len()) =~= s.subrange(k, k + pat.len()));
    }
}

/// Where a tag stands and where it ends, when it is the first of its kind.
proof fn lemma_tag_place(a: Seq<char>, pat: Seq<char>, t: Seq<char>, b: Seq<char>)
    requires
        text_laws::opens_once(pat),
        text_laws::absent(a, pat),
        !pat.contains(']'),
        !t.contains(']'),
    ensures
        ({
            let s = a + pat + (t.push(']') + b);
            let end = a.len() + pat.len() + t.len();
            &&& text::find(s, pat, 0) == Some(a.len() as int)
            &&& text::find_char(s, ']', a.len() as int) == Some(end as int)
            &&& text::find_char(s, ']', (a.len() + pat.len()) as int) == Some(end as int)
            &&& s.take(a.len() as int) == a
            &&& s.skip(end as int + 1) == b
            &&& s.subrange((a.len() + pat.len()) as int, end as int) == t
        }),
{
    let s = a + pat + (t.push(']') + b);
    let at = a.len() as int;
    text_laws::lemma_find_first(a, pat, t.push(']') + b);
    let head = a + pat + t;
    assert(s =~= head.push(']') + b);
    assert forall|k: int| at <= k < head.len() implies #[trigger] head[k] != ']' by {
        if k < at + pat.len() {
            assert(head[k] == pat[k - at]);
            assert(pat.contains(pat[k - at]));
        } else {
            assert(head[k] == t[k - at - pat.len()]);
            assert(t.contains(t[k - at - pat.len()]));
        }
    }
    text_laws::lemma_find_char_first(head, ']', b, at);
    text_laws::lemma_find_char_first(head, ']', b, at + pat.len());
    assert(s.take(at) =~= a);
    assert(s.skip(head.len() as int + 1) =~= b);
    assert(s.subrange(at + pat.len(), head.len() as int) =~= t);
}

/// Where a tag that is not closed stands, when it is the first of its kind.
proof fn lemma_open_tag_place(a: Seq<char>, pat: Seq<char>, t: Seq<char>)
    requires
        text_laws::opens_once(pat),
        text_laws::absent(a, pat),
        !pat.contains(']'),
        !t.contains(']'),
    ensures
        ({
            let s = a + pat + t;
            &&& text::find(s, pat, 0) == Some(a.len() as int)
            &&& text::find_char(s, ']', a.len() as int) is None
            &&& text::find_char(s, ']', (a.len() + pat.len()) as int) is None
            &&& s.take(a.len() as int) == a
            &&& s.skip((a.len() + pat.len()) as int) == t
        }),
{
    let s = a + pat + t;
    let at = a.len() as int;
    text_laws::lemma_find_first(a, pat, t);
    assert forall|k: int| at <= k < s.len() implies #[trigger] s[k] != ']' by {
        if k < at + pat.len() {
            assert(s[k] == pat[k - at]);
            assert(pat.contains(pat[k - at]));
        } else {
            assert(s[k] == t[k - at - pat.len()]);
            assert(t.contains(t[k - at - pat.len()]));
        }
    }
    text_laws::lemma_find_char_absent(s, ']', at);
    text_laws::lemma_find_char_absent(s, ']', at + pat.len());
    assert(s.take(at) =~= a);
    assert(s.skip(at + pat.len()) =~= t);
}

proof fn lemma_openings()
    ensures
        text_laws::opens_once("[TRANSLATE:"@),
        !"[TRANSLATE:"@.contains(']'),
        text_laws::opens_once("[IMAGE_PROMPT:"@),
        !"[IMAGE_PROMPT:"@.contains(']'),
        " "@ == seq![' '],
{
    reveal_strlit("[TRANSLATE:");
    reveal_strlit("[IMAGE_PROMPT:");
    reveal_strlit(" ");
    assert(" "@ =~= seq![' ']);
}

/// What was found before stays in front, and does not change the text.
proof fn lemma_translations_behind(s: Seq<char>, found: Seq<Seq<char>>)
    ensures
        reply_text::translate_scan(s, found).0 == reply_text::translate_scan(s, Seq::empty()).0,
        reply_text::translate_scan(s, found).1 == found + reply_text::translate_scan(
            s,
            Seq::empty(),
        ).1,
    decreases s.len(),
{
    let none = Seq::<Seq<char>>::empty();
    let pat = "[TRANSLATE:"@;
    text::lemma_find_bounds(s, pat, 0);
    match text::find(s, pat, 0) {
        Some(start) if 0 <= start < s.len() => {
            let inside = start + pat.len();
            text::lemma_find_char_bounds(s, ']', start);
            match text::find_char(s, ']', start) {
                Some(end) if start <= end < s.len() => {
                    let next = reply_text::close_up(s.take(start), s.skip(end + 1));
                    let piece = s.subrange(inside, end);
                    reply_text::lemma_close_up_len(s, start, end + 1);
                    lemma_translations_behind(next, reply_text::push_trimmed(found, piece));
                    lemma_translations_behind(next, reply_text::push_trimmed(none, piece));
                    assert(reply_text::push_trimmed(found, piece) =~= found
                        + reply_text::push_trimmed(none, piece));
                    assert(reply_text::translate_scan(s, found).1 =~= found
                        + reply_text::translate_scan(s, none).1);
                },
                _ => {
                    let next = text::trim_end(s.take(start));
                    let piece = s.skip(inside);
                    text::lemma_trim_end_len(s.take(start));
                    lemma_translations_behind(next, reply_text::push_trimmed(found, piece));
                    lemma_translations_behind(next, reply_text::push_trimmed(none, piece));
                    assert(reply_text::push_trimmed(found, piece) =~= found
                        + reply_text::push_trimmed(none, piece));
                    assert(reply_text::translate_scan(s, found).1 =~= found
                        + reply_text::translate_scan(s, none).1);
                },
            }
        },
        _ => {
            assert(found + none =~= found);
        },
    }
}

/// Two translations, either of which may be missing, one behind the other.
pub open spec fn both(a: Option<Seq<char>>, b: Option<Seq<char>>) -> Option<Seq<char>> {
    match (a, b) {
        (None, _) => b,
        (Some(_), None) => a,
        (Some(x), Some(y)) => Some(x + seq![' '] + y),
    }
}

/// What a tag holds, trimmed; nothing where that is empty.
pub open spec fn piece_of(t: Seq<char>) -> Option<Seq<char>> {
    if text::trim(t).len() == 0 {
        None
    } else {
        Some(text::trim(t))
    }
}

/// A reply without a translation is its own text.
pub proof fn lemma_no_translation(s: Seq<char>)
    requires
        text_laws::absent(s, "[TRANSLATE:"@),
    ensures
        reply_text::translated(s) == (text::trim(s), None::<Seq<char>>),
{
    text_laws::lemma_find_absent(s, "[TRANSLATE:"@);
}

/// A translation is taken out where it stands: what is before it comes before what
/// is behind it, without white space where they meet, and the translation comes
/// before those that follow it.
pub proof fn lemma_translation_taken(a: Seq<char>, t: Seq<char>, b: Seq<char>)
    requires
        text_laws::absent(a, "[TRANSLATE:"@),
        !t.contains(']'),
    ensures
        reply_text::translated(a + "[TRANSLATE:"@ + (t.push(']') + b)).0 == reply_text::translated(
            text::trim_end(a) + text::trim_start(b),
        ).0,
        reply_text::translated(a + "[TRANSLATE:"@ + (t.push(']') + b)).1 == both(
            piece_of(t),
            reply_text::translated(text::trim_end(a) + text::trim_start(b)).1,
        ),
{
    lemma_openings();
    let pat = "[TRANSLATE:"@;
    let s = a + pat + (t.push(']') + b);
    let none = Seq::<Seq<char>>::empty();
    lemma_tag_place(a, pat, t, b);
    let next = text::trim_end(a) + text::trim_start(b);
    let first = reply_text::push_trimmed(none, t);
    lemma_translations_behind(next, first);
    let rest = reply_text::translate_scan(next, none).1;
    assert(reply_text::translate_scan(s, none) == reply_text::translate_scan(next, first));
    if text::blank(t) {
        assert(first + rest =~= rest);
    } else if rest.len() == 0 {
        assert(first + rest =~= seq![text::trim(t)]);
    } else {
        let all = first + rest;
        assert(all.drop_first() =~= rest);
        text_laws::lemma_join_front(all, " "@);
    }
}

/// The text around one translation is the whole text, in its order.
pub proof fn lemma_one_translation(a: Seq<char>, t: Seq<char>, b: Seq<char>)
    requires
        text_laws::absent(a, "[TRANSLATE:"@),
        !t.contains(']'),
        text_laws::absent(text::trim_end(a) + text::trim_start(b), "[TRANSLATE:"@),
    ensures
        reply_text::translated(a + "[TRANSLATE:"@ + (t.push(']') + b)) == (
            text::trim(text::trim_end(a) + text::trim_start(b)),
            piece_of(t),
        ),
{
    lemma_translation_taken(a, t, b);
    lemma_no_translation(text::trim_end(a) + text::trim_start(b));
}

/// A translation that is not closed reaches to the end of the reply.
pub proof fn lemma_open_translation(a: Seq<char>, t: Seq<char>)
    requires
        text_laws::absent(a, "[TRANSLATE:"@),
        !t.contains(']'),
    ensures
        reply_text::translated(a + "[TRANSLATE:"@ + t) == (
            text::trim(text::trim_end(a)),
            piece_of(t),
        ),
{
    lemma_openings();
    let pat = "[TRANSLATE:"@;
    let s = a + pat + t;
    let none = Seq::<Seq<char>>::empty();
    lemma_open_tag_place(a, pat, t);
    let next = text::trim_end(a);
    text::lemma_trim_end_len(a);
    lemma_absent_in_part(a, pat, next.len() as int);
    text_laws::lemma_find_absent(next, pat);
    let more = reply_text::push_trimmed(none, t);
    assert(reply_text::translate_scan(next, more) == (next, more));
    assert(reply_text::translate_scan(s, none) == reply_text::translate_scan(next, more));
    if !text::blank(t) {
        assert(reply_text::push_trimmed(none, t) =~= seq![text::trim(t)]);
    }
}

/// What is left of a reply without its translations stood in it, in this order.
pub proof fn lemma_translations_leave_subsequence(s: Seq<char>)
    ensures
        text_laws::subsequence(reply_text::translated(s).0, s),
{
    lemma_translate_scan_subsequence(s, Seq::empty());
    let rest = reply_text::translate_scan(s, Seq::empty()).0;
    text_laws::lemma_trim_subsequence(rest);
    text_laws::lemma_subsequence_through(text::trim(rest), rest, s);
}

proof fn lemma_translate_scan_subsequence(s: Seq<char>, found: Seq<Seq<char>>)
    ensures
        text_laws::subsequence(reply_text::translate_scan(s, found).0, s),
    decreases s.len(),
{
    let pat = "[TRANSLATE:"@;
    text_laws::lemma_subsequence_same(s);
    text::lemma_find_bounds(s, pat, 0);
    match text::find(s, pat, 0) {
        Some(start) if 0 <= start < s.len() => {
            let inside = start + pat.len();
            text::lemma_find_char_bounds(s, ']', start);
            match text::find_char(s, ']', start) {
                Some(end) if start <= end < s.len() => {
                    let next = reply_text::close_up(s.take(start), s.skip(end + 1));
                    reply_text::lemma_close_up_len(s, start, end + 1);
                    lemma_close_up_subsequence(s, start, end + 1);
                    let more = reply_text::push_trimmed(found, s.subrange(inside, end));
                    lemma_translate_scan_subsequence(next, more);
                    text_laws::lemma_subsequence_through(
                        reply_text::translate_scan(next, more).0,
                        next,
                        s,
                    );
                },
                _ => {
                    let next = text::trim_end(s.take(start));
                    text::lemma_trim_end_len(s.take(start));
                    lemma_close_up_subsequence(s, start, start);
                    let more = reply_text::push_trimmed(found, s.skip(inside));
                    lemma_translate_scan_subsequence(next, more);
                    text_laws::lemma_subsequence_through(
                        reply_text::translate_scan(next, more).0,
                        next,
                        s,
                    );
                },
            }
        },
        _ => {},
    }
}

/// A reply without image prompts stays as it is.
pub proof fn lemma_no_image_prompt(s: Seq<char>, found: Seq<Seq<char>>)
    requires
        text_laws::absent(s, "[IMAGE_PROMPT:"@),
    ensures
        reply_text::image_prompt_scan(s, found) == (s, found),
        telegram::image_tag_prompts(s, 0) == Seq::<Seq<char>>::empty(),
        reply_text::bracket_scan(s, "[IMAGE_PROMPT:"@) == s,
        telegram_text::bracket_scan(s, "[IMAGE_PROMPT:"@) == s,
{
    text_laws::lemma_find_absent(s, "[IMAGE_PROMPT:"@);
}

/// An image prompt is taken out where it stands, with one space in place of the
/// white space around it, and comes before those that follow it.
pub proof fn lemma_image_prompt_taken(
    a: Seq<char>,
    t: Seq<char>,
    b: Seq<char>,
    found: Seq<Seq<char>>,
)
    requires
        text_laws::absent(a, "[IMAGE_PROMPT:"@),
        !t.contains(']'),
    ensures
        ({
            let l = text::trim_end(a);
            let r = text::trim_start(b);
            let gap = if l.len() == 0 || r.len() == 0 {
                Seq::<char>::empty()
            } else {
                seq![' ']
            };
            let more = if text::trim(t).len() == 0 {
                found
            } else {
                found.push(text::trim(t))
            };
            reply_text::image_prompt_scan(a + "[IMAGE_PROMPT:"@ + (t.push(']') + b), found)
                == reply_text::image_prompt_scan(l + gap + r, more)
        }),
{
    lemma_openings();
    let pat = "[IMAGE_PROMPT:"@;
    lemma_tag_place(a, pat, t, b);
    let l = text::trim_end(a);
    let r = text::trim_start(b);
    if l.len() == 0 || r.len() == 0 {
        assert(l + Seq::<char>::empty() + r =~= l + r);
    }
}

/// An image prompt that is not closed is none: the reply stays as it is.
pub proof fn lemma_open_image_prompt(a: Seq<char>, t: Seq<char>, found: Seq<Seq<char>>)
    requires
        text_laws::absent(a, "[IMAGE_PROMPT:"@),
        !t.contains(']'),
    ensures
        reply_text::image_prompt_scan(a + "[IMAGE_PROMPT:"@ + t, found) == (
            a + "[IMAGE_PROMPT:"@ + t,
            found,
        ),
        telegram::image_tag_prompts(a + "[IMAGE_PROMPT:"@ + t, 0) == Seq::<Seq<char>>::empty(),
{
    lemma_openings();
    lemma_open_tag_place(a, "[IMAGE_PROMPT:"@, t);
}

/// The prompts from a place on are those of what lies behind it.
proof fn lemma_prompts_shift(s: Seq<char>, from: int)
    requires
        0 <= from <= s.len(),
    ensures
        telegram::image_tag_prompts(s, from) == telegram::image_tag_prompts(s.skip(from), 0),
    decreases s.len() - from,
{
    lemma_openings();
    let pat = "[IMAGE_PROMPT:"@;
    let rest = s.skip(from);
    text_laws::lemma_find_shift(s, pat, from);
    text::lemma_find_bounds(rest, pat, 0);
    match text::find(rest, pat, 0) {
        Some(at) => {
            let inside = at + pat.len();
            text::lemma_find_char_bounds(rest, ']', inside);
            text::lemma_find_char_bounds(s, ']', inside + from);
            match text::find_char(rest, ']', inside) {
                Some(end) => {
                    assert(s[end + from] == ']');
                    if let Some(other) = text::find_char(s, ']', inside + from) {
                        assert(rest[other - from] == s[other]);
                        assert(rest[end] == s[end + from]);
                    }
                    assert(text::find_char(s, ']', inside + from) == Some(end + from));
                    assert(s.subrange(inside + from, end + from) =~= rest.subrange(inside, end));
                    lemma_prompts_shift(s, end + from + 1);
                    lemma_prompts_shift(rest, end + 1);
                    assert(rest.skip(end + 1) =~= s.skip(end + from + 1));
                },
                None => {
                    if let Some(other) = text::find_char(s, ']', inside + from) {
                        assert(rest[other - from] == s[other]);
                    }
                },
            }
        },
        None => {},
    }
}

/// The first image tag of a Telegram reply gives its prompt, unless that is blank,
/// and what stands behind the tag gives the rest.
pub proof fn lemma_first_image_tag(a: Seq<char>, t: Seq<char>, b: Seq<char>)
    requires
        text_laws::absent(a, "[IMAGE_PROMPT:"@),
        !t.contains(']'),
    ensures
        telegram::image_tag_prompts(a + "[IMAGE_PROMPT:"@ + (t.push(']') + b), 0) == (if text::trim(
            t,
        ).len() == 0 {
            Seq::empty()
        } else {
            seq![text::trim(t)]
        }) + telegram::image_tag_prompts(b, 0),
{
    lemma_openings();
    let pat = "[IMAGE_PROMPT:"@;
    let s = a + pat + (t.push(']') + b);
    lemma_tag_place(a, pat, t, b);
    let end = (a.len() + pat.len() + t.len()) as int;
    lemma_prompts_shift(s, end + 1);
    let rest = telegram::image_tag_prompts(b, 0);
    assert(Seq::<Seq<char>>::empty() + rest =~= rest);
}

/// A Telegram reply put together of text and image tags: `tags[i].0`, then a tag
/// that holds `tags[i].1`, and `tail` at the end.
pub open spec fn with_image_tags(tags: Seq<(Seq<char>, Seq<char>)>, tail: Seq<char>) -> Seq<char>
    decreases tags.len(),
{
    if tags.len() == 0 {
        tail
    } else {
        tags[0].0 + "[IMAGE_PROMPT:"@ + (tags[0].1.push(']') + with_image_tags(
            tags.drop_first(),
            tail,
        ))
    }
}

/// The prompts of a Telegram reply are those in its tags, trimmed, all of them that
/// are not blank, in their order.
pub proof fn lemma_all_image_tags(tags: Seq<(Seq<char>, Seq<char>)>, tail: Seq<char>)
    requires
        forall|i: int|
            0 <= i < tags.len() ==> text_laws::absent(
                (#[trigger] tags[i]).0,
                "[IMAGE_PROMPT:"@,
            ) && !tags[i].1.contains(']'),
        text_laws::absent(tail, "[IMAGE_PROMPT:"@),
    ensures
        telegram::image_tag_prompts(with_image_tags(tags, tail), 0) == tags.map_values(
            |t: (Seq<char>, Seq<char>)| text::trim(t.1),
        ).filter(|p: Seq<char>| p.len() > 0),
    decreases tags.len(),
{
    let prompts = tags.map_values(|t: (Seq<char>, Seq<char>)| text::trim(t.1));
    let some = |p: Seq<char>| p.len() > 0;
    if tags.len() == 0 {
        lemma_no_image_prompt(tail, Seq::empty());
        reveal(Seq::filter);
        assert(prompts.filter(some) =~= Seq::<Seq<char>>::empty());
    } else {
        let rest = tags.drop_first();
        assert forall|i: int| 0 <= i < rest.len() implies text_laws::absent(
            (#[trigger] rest[i]).0,
            "[IMAGE_PROMPT:"@,
        ) && !rest[i].1.contains(']') by {
            assert(rest[i] == tags[i + 1]);
        }
        lemma_all_image_tags(rest, tail);
        assert(text_laws::absent(tags[0].0, "[IMAGE_PROMPT:"@) && !tags[0].1.contains(']'));
        lemma_first_image_tag(tags[0].0, tags[0].1, with_image_tags(rest, tail));
        let others = rest.map_values(|t: (Seq<char>, Seq<char>)| text::trim(t.1));
        assert(prompts =~= seq![text::trim(tags[0].1)] + others);
        Seq::filter_distributes_over_add(seq![text::trim(tags[0].1)], others, some);
        reveal(Seq::filter);
        let one = seq![text::trim(tags[0].1)];
        assert(one.drop_last() =~= Seq::<Seq<char>>::empty());
        assert(one.drop_last().filter(some) =~= Seq::<Seq<char>>::empty());
        assert(one.last() == text::trim(tags[0].1));
        assert(one.filter(some) =~= (if text::trim(tags[0].1).len() == 0 {
            Seq::empty()
        } else {
            one
        }));
    }
}

/// A control tag is taken out where it stands, and nothing else: on Telegram the
/// white space around it too.
pub proof fn lemma_control_tag_taken(pat: Seq<char>, a: Seq<char>, t: Seq<char>, b: Seq<char>)
    requires
        text_laws::opens_once(pat),
        !pat.contains(']'),
        text_laws::absent(a, pat),
        !t.contains(']'),
    ensures
        reply_text::bracket_scan(a + pat + (t.push(']') + b), pat) == reply_text::bracket_scan(
            a + b,
            pat,
        ),
        telegram_text::bracket_scan(a + pat + (t.push(']') + b), pat)
            == telegram_text::bracket_scan(text::trim_end(a) + text::trim_start(b), pat),
{
    lemma_tag_place(a, pat, t, b);
}

/// A control tag that is not closed stays.
pub proof fn lemma_open_control_tag(pat: Seq<char>, a: Seq<char>, t: Seq<char>)
    requires
        text_laws::opens_once(pat),
        !pat.contains(']'),
        text_laws::absent(a, pat),
        !t.contains(']'),
    ensures
        reply_text::bracket_scan(a + pat + t, pat) == a + pat + t,
        telegram_text::bracket_scan(a + pat + t, pat) == a + pat + t,
        reply_text::bracket_scan(a, pat) == a,
        telegram_text::bracket_scan(a, pat) == a,
{
    lemma_open_tag_place(a, pat, t);
    text_laws::lemma_find_absent(a, pat);
}

/// What is left of a reply without its control tags stood in it, in this order.
pub proof fn lemma_control_tags_leave_subsequence(s: Seq<char>, pat: Seq<char>)
    ensures
        text_laws::subsequence(reply_text::bracket_scan(s, pat), s),
        text_laws::subsequence(telegram_text::bracket_scan(s, pat), s),
    decreases s.len(),
{
    text_laws::lemma_subsequence_same(s);
    text::lemma_find_bounds(s, pat, 0);
    match text::find(s, pat, 0) {
        Some(start) if 0 <= start < s.len() => {
            text::lemma_find_char_bounds(s, ']', start);
            match text::find_char(s, ']', start) {
                Some(end) if start <= end < s.len() => {
                    let bot = s.take(start) + s.skip(end + 1);
                    let telegram = reply_text::close_up(s.take(start), s.skip(end + 1));
                    reply_text::lemma_close_up_len(s, start, end + 1);
                    lemma_close_up_subsequence(s, start, end + 1);
                    lemma_control_tags_leave_subsequence(bot, pat);
                    lemma_control_tags_leave_subsequence(telegram, pat);
                    text_laws::lemma_subsequence_through(
                        reply_text::bracket_scan(bot, pat),
                        bot,
                        s,
                    );
                    text_laws::lemma_subsequence_through(
                        telegram_text::bracket_scan(telegram, pat),
                        telegram,
                        s,
                    );
                },
                _ => {},
            }
        },
        _ => {},
    }
}

/// A reply without tool results stays as it is.
pub proof fn lemma_no_leaked_result(s: Seq<char>)
    requires
        text_laws::absent(s, "<tool_result>"@),
    ensures
        reply_text::leaked_scan(s) == s,
{
    text_laws::lemma_find_absent(s, "<tool_result>"@);
}

/// A tool result that leaked into a reply is taken out where it stands, with the
/// white space around it.
pub proof fn lemma_leaked_result_taken(a: Seq<char>, t: Seq<char>, b: Seq<char>)
    requires
        text_laws::absent(a, "<tool_result>"@),
        text_laws::absent("<tool_result>"@ + t, "</tool_result>"@),
    ensures
        reply_text::leaked_scan(a + "<tool_result>"@ + (t + "</tool_result>"@ + b))
            == reply_text::leaked_scan(text::trim_end(a) + text::trim_start(b)),
{
    reveal_strlit("<tool_result>");
    reveal_strlit("</tool_result>");
    let pat = "<tool_result>"@;
    let close = "</tool_result>"@;
    let s = a + pat + (t + close + b);
    let at = a.len() as int;
    text_laws::lemma_find_first(a, pat, t + close + b);
    text_laws::lemma_find_first(pat + t, close, b);
    text_laws::lemma_find_shift(s, close, at);
    assert(s.skip(at) =~= (pat + t) + close + b);
    let end = at + pat.len() + t.len();
    assert(text::find(s, close, at) == Some(end as int));
    assert(s.take(at) =~= a);
    assert(s.skip(end + close.len()) =~= b);
}

/// A tool result that is not closed is taken out up to the end of its line.
pub proof fn lemma_open_leaked_result(a: Seq<char>, t: Seq<char>, rest: Seq<char>)
    requires
        text_laws::absent(a, "<tool_result>"@),
        !t.contains('\n'),
        rest.len() == 0 || rest[0] == '\n',
        text_laws::absent("<tool_result>"@ + t + rest, "</tool_result>"@),
    ensures
        reply_text::leaked_scan(a + "<tool_result>"@ + (t + rest)) == reply_text::leaked_scan(
            text::trim_end(a) + rest,
        ),
{
    reveal_strlit("<tool_result>");
    let pat = "<tool_result>"@;
    let close = "</tool_result>"@;
    let s = a + pat + (t + rest);
    let at = a.len() as int;
    text_laws::lemma_find_first(a, pat, t + rest);
    text_laws::lemma_find_shift(s, close, at);
    assert(s.skip(at) =~= pat + t + rest);
    text_laws::lemma_find_absent(pat + t + rest, close);
    let head = a + pat + t;
    let line_end = head.len() as int;
    assert forall|k: int| at <= k < head.len() implies #[trigger] head[k] != '\n' by {
        if k < at + pat.len() {
            assert(head[k] == pat[k - at]);
        } else {
            assert(head[k] == t[k - at - pat.len()]);
            assert(t.contains(t[k - at - pat.len()]));
        }
    }
    if rest.len() == 0 {
        assert(s =~= head);
        text_laws::lemma_find_char_absent(s, '\n', at);
    } else {
        assert(s =~= head.push('\n') + rest.drop_first());
        text_laws::lemma_find_char_first(head, '\n', rest.drop_first(), at);
    }
    assert(s.take(at) =~= a);
    assert(s.skip(line_end) =~= rest);
}

/// What is left of a reply without leaked results stood in it, in this order.
pub proof fn lemma_leaked_results_leave_subsequence(s: Seq<char>)
    ensures
        text_laws::subsequence(reply_text::leaked_scan(s), s),
    decreases s.len(),
{
    reveal_strlit("</tool_result>");
    let pat = "<tool_result>"@;
    let close = "</tool_result>"@;
    text_laws::lemma_subsequence_same(s);
    text::lemma_find_bounds(s, pat, 0);
    match text::find(s, pat, 0) {
        Some(start) if 0 <= start < s.len() => {
            text::lemma_find_bounds(s, close, start);
            match text::find(s, close, start) {
                Some(end) if start <= end && end + close.len() <= s.len() => {
                    let to = end + close.len();
                    let next = reply_text::close_up(s.take(start), s.skip(to));
                    reply_text::lemma_close_up_len(s, start, to);
                    lemma_close_up_subsequence(s, start, to);
                    lemma_leaked_results_leave_subsequence(next);
                    text_laws::lemma_subsequence_through(reply_text::leaked_scan(next), next, s);
                },
                _ => {
                    text::lemma_find_char_bounds(s, '\n', start);
                    let line_end = match text::find_char(s, '\n', start) {
                        Some(at) => at,
                        None => s.len() as int,
                    };
                    if start < line_end <= s.len() {
                        let next = text::trim_end(s.take(start)) + s.skip(line_end);
                        text::lemma_trim_end_len(s.take(start));
                        lemma_close_up_subsequence(s, start, line_end);
                        lemma_leaked_results_leave_subsequence(next);
                        text_laws::lemma_subsequence_through(
                            reply_text::leaked_scan(next),
                            next,
                            s,
                        );
                    }
                },
            }
        },
        _ => {},
    }
}

/// Text of one more round goes behind that of the earlier ones: nothing of either
/// is lost but white space around the new one, and white space stands between them.
pub proof fn lemma_rounds_merge(accumulated: Seq<char>, next: Seq<char>)
    ensures
        ({
            let r = reply_text::merged(accumulated, next);
            let n = text::trim(next);
            &&& accumulated.is_prefix_of(r)
            &&& n.is_suffix_of(r)
            &&& n.len() == 0 ==> r == accumulated
            &&& accumulated.len() + n.len() <= r.len() <= accumulated.len() + n.len() + 1
            &&& accumulated.len() > 0 && n.len() > 0 ==> text::white(r[r.len() - n.len() - 1])
            &&& r.len() > accumulated.len() + n.len() ==> r[accumulated.len() as int] == ' ' && !text::white(
                accumulated.last(),
            )
        }),
{
    lemma_openings();
    let r = reply_text::merged(accumulated, next);
    let n = text::trim(next);
    assert(accumulated =~= r.take(accumulated.len() as int));
    assert(n =~= r.skip(r.len() - n.len()));
}

} // verus!
