//! What holds of searching, trimming, splitting and joining text, whatever the
//! text.

use vstd::prelude::*;
use crate::text;

verus! {

broadcast use vstd::string::group_string_axioms;

/// `pat` stands nowhere in `s`.
pub open spec fn absent(s: Seq<char>, pat: Seq<char>) -> bool {
    forall|k: int|
        0 <= k && k + pat.len() <= s.len() ==> #[trigger] s.subrange(k, k + pat.len()) != pat
}

/// The first character of `pat` does not occur in it again.
pub open spec fn opens_once(pat: Seq<char>) -> bool {
    pat.len() > 0 && forall|k: int| 0 < k < pat.len() ==> #[trigger] pat[k] != pat[0]
}

/// Nothing but white space.
pub open spec fn all_white(s: Seq<char>) -> bool {
    forall|k: int| 0 <= k < s.len() ==> text::white(#[trigger] s[k])
}

/// Trimming the beginning takes white space off, and all of it.
pub proof fn lemma_trim_start_parts(s: Seq<char>) -> (lead: Seq<char>)
    ensures
        s == lead + text::trim_start(s),
        all_white(lead),
        text::trim_start(s).len() > 0 ==> !text::white(text::trim_start(s)[0]),
    decreases s.len(),
{
    if s.len() > 0 && text::white(s[0]) {
        let rest = lemma_trim_start_parts(s.drop_first());
        let lead = seq![s[0]] + rest;
        let inner = text::trim_start(s.drop_first());
        assert(s =~= seq![s[0]] + s.drop_first());
        assert(seq![s[0]] + (rest + inner) =~= lead + inner);
        assert forall|k: int| 0 <= k < lead.len() implies text::white(#[trigger] lead[k]) by {
            if k > 0 {
                assert(lead[k] == rest[k - 1]);
            }
        }
        lead
    } else {
        assert(s =~= Seq::<char>::empty() + s);
        Seq::empty()
    }
}

/// Trimming the end takes white space off, and all of it.
pub proof fn lemma_trim_end_parts(s: Seq<char>) -> (tail: Seq<char>)
    ensures
        s == text::trim_end(s) + tail,
        all_white(tail),
        text::trim_end(s).len() > 0 ==> !text::white(text::trim_end(s).last()),
    decreases s.len(),
{
    if s.len() > 0 && text::white(s.last()) {
        let rest = lemma_trim_end_parts(s.drop_last());
        let tail = rest.push(s.last());
        let inner = text::trim_end(s.drop_last());
        assert(s =~= s.drop_last().push(s.last()));
        assert((inner + rest).push(s.last()) =~= inner + tail);
        assert forall|k: int| 0 <= k < tail.len() implies text::white(#[trigger] tail[k]) by {
            if k < rest.len() {
                assert(tail[k] == rest[k]);
            }
        }
        tail
    } else {
        assert(s =~= s + Seq::<char>::empty());
        Seq::empty()
    }
}

/// Trimming takes white space off at both ends, and all of it.
pub proof fn lemma_trim_parts(s: Seq<char>) -> (ends: (Seq<char>, Seq<char>))
    ensures
        s == ends.0 + text::trim(s) + ends.1,
        all_white(ends.0),
        all_white(ends.1),
        text::trim(s).len() > 0 ==> !text::white(text::trim(s)[0]) && !text::white(
            text::trim(s).last(),
        ),
{
    let lead = lemma_trim_start_parts(s);
    let tail = lemma_trim_end_parts(text::trim_start(s));
    text::lemma_trim_ends(s);
    assert(s =~= lead + text::trim(s) + tail);
    (lead, tail)
}

/// A text with a core between white space trims to that core.
pub proof fn lemma_trim_core(lead: Seq<char>, core: Seq<char>, tail: Seq<char>)
    requires
        all_white(lead),
        all_white(tail),
        core.len() > 0 ==> !text::white(core[0]) && !text::white(core.last()),
    ensures
        text::trim(lead + core + tail) == core,
        core.len() > 0 ==> text::trim_start(lead + core + tail) == core + tail,
        core.len() > 0 ==> text::trim_end(lead + core + tail) == lead + core,
{
    let s = lead + core + tail;
    if core.len() > 0 {
        lemma_start_core(lead, core + tail);
        lemma_end_core(core, tail);
        lemma_end_core(lead + core, tail);
        assert(s =~= lead + (core + tail));
        assert(s =~= (lead + core) + tail);
    } else {
        assert(all_white(s)) by {
            assert forall|k: int| 0 <= k < s.len() implies text::white(#[trigger] s[k]) by {
                if k < lead.len() {
                    assert(s[k] == lead[k]);
                } else {
                    assert(s[k] == tail[k - lead.len()]);
                }
            }
        }
        lemma_start_white(s);
        assert(text::trim(s) =~= core);
    }
}

proof fn lemma_start_white(s: Seq<char>)
    requires
        all_white(s),
    ensures
        text::trim_start(s).len() == 0,
    decreases s.len(),
{
    if s.len() > 0 {
        assert(text::white(s[0]));
        lemma_start_white(s.drop_first());
    }
}

proof fn lemma_start_core(lead: Seq<char>, core: Seq<char>)
    requires
        all_white(lead),
        core.len() > 0,
        !text::white(core[0]),
    ensures
        text::trim_start(lead + core) == core,
    decreases lead.len(),
{
    if lead.len() > 0 {
        assert(text::white(lead[0]));
        let rest = lead.drop_first();
        assert(all_white(rest)) by {
            assert forall|k: int| 0 <= k < rest.len() implies text::white(#[trigger] rest[k]) by {
                assert(rest[k] == lead[k + 1]);
            }
        }
        lemma_start_core(rest, core);
        assert((lead + core).drop_first() =~= rest + core);
    } else {
        assert(lead + core =~= core);
    }
}

proof fn lemma_end_core(core: Seq<char>, tail: Seq<char>)
    requires
        all_white(tail),
        core.len() > 0,
        !text::white(core.last()),
    ensures
        text::trim_end(core + tail) == core,
    decreases tail.len(),
{
    if tail.len() > 0 {
        assert(text::white(tail[tail.len() - 1]));
        let rest = tail.drop_last();
        assert(all_white(rest)) by {
            assert forall|k: int| 0 <= k < rest.len() implies text::white(#[trigger] rest[k]) by {
                assert(rest[k] == tail[k]);
            }
        }
        lemma_end_core(core, rest);
        assert((core + tail).drop_last() =~= core + rest);
    } else {
        assert(core + tail =~= core);
    }
}

/// A text that ends with something else than white space keeps all of what stands
/// before it when the end of what follows is trimmed.
pub proof fn lemma_trim_end_of_sum(head: Seq<char>, rest: Seq<char>)
    requires
        head.len() > 0,
        !text::white(head.last()),
    ensures
        text::trim_end(head + rest) == head + text::trim_end(rest),
    decreases rest.len(),
{
    if rest.len() > 0 && text::white(rest.last()) {
        lemma_trim_end_of_sum(head, rest.drop_last());
        assert((head + rest).drop_last() =~= head + rest.drop_last());
    } else if rest.len() == 0 {
        assert(head + rest =~= head);
    } else {
        assert((head + rest).last() == rest.last());
    }
}

/// A blank text holds nothing but white space.
pub proof fn lemma_blank_is_white(s: Seq<char>)
    ensures
        text::blank(s) <==> all_white(s),
{
    let (lead, tail) = lemma_trim_parts(s);
    if text::blank(s) {
        assert forall|k: int| 0 <= k < s.len() implies text::white(#[trigger] s[k]) by {
            if k < lead.len() {
                assert(s[k] == lead[k]);
            } else {
                assert(s[k] == tail[k - lead.len()]);
            }
        }
    }
    if all_white(s) && text::trim(s).len() > 0 {
        assert(s[lead.len() as int] == text::trim(s)[0]);
        text::lemma_trim_ends(s);
    }
}

/// Where a pattern stands behind a text without it, it is found there first.
pub proof fn lemma_find_first(a: Seq<char>, pat: Seq<char>, b: Seq<char>)
    requires
        opens_once(pat),
        absent(a, pat),
    ensures
        text::find(a + pat + b, pat, 0) == Some(a.len() as int),
{
    let s = a + pat + b;
    let at = a.len() as int;
    assert(s.subrange(at, at + pat.len()) =~= pat);
    assert(text::matches_at(s, pat, at));
    text::lemma_find_bounds(s, pat, 0);
    match text::find(s, pat, 0) {
        Some(found) => {
            if found < at {
                assert(s.subrange(found, found + pat.len()) == pat);
                if found + pat.len() <= at {
                    assert(a.subrange(found, found + pat.len()) =~= pat);
                } else {
                    assert(s.subrange(found, found + pat.len())[at - found] == s[at]);
                    assert(s[at] == pat[0]);
                    assert(pat[at - found] != pat[0]);
                }
            }
        },
        None => {},
    }
}

/// A pattern that is nowhere is not found.
pub proof fn lemma_find_absent(s: Seq<char>, pat: Seq<char>)
    ensures
        absent(s, pat) <==> text::find(s, pat, 0) is None,
{
    text::lemma_find_bounds(s, pat, 0);
    if absent(s, pat) {
        if let Some(at) = text::find(s, pat, 0) {
            assert(s.subrange(at, at + pat.len()) == pat);
        }
    } else {
        let k = choose|k: int|
            0 <= k && k + pat.len() <= s.len() && #[trigger] s.subrange(k, k + pat.len()) == pat;
        assert(text::matches_at(s, pat, k));
    }
}

/// Searching on from a place is searching what lies behind it.
pub proof fn lemma_find_shift(s: Seq<char>, pat: Seq<char>, from: int)
    requires
        0 <= from <= s.len(),
    ensures
        text::find(s, pat, from) == (match text::find(s.skip(from), pat, 0) {
            Some(at) => Some(at + from),
            None => None,
        }),
{
    let rest = s.skip(from);
    text::lemma_find_bounds(s, pat, from);
    text::lemma_find_bounds(rest, pat, 0);
    assert forall|k: int| text::matches_at(rest, pat, k) implies #[trigger] text::matches_at(
        s,
        pat,
        k + from,
    ) by {
        assert(s.subrange(k + from, k + from + pat.len()) =~= rest.subrange(k, k + pat.len()));
    }
    assert forall|k: int| from <= k && text::matches_at(s, pat, k) implies #[trigger] text::matches_at(
        rest,
        pat,
        k - from,
    ) by {
        assert(s.subrange(k, k + pat.len()) =~= rest.subrange(k - from, k - from + pat.len()));
    }
    match (text::find(s, pat, from), text::find(rest, pat, 0)) {
        (Some(x), Some(y)) => {
            assert(text::matches_at(rest, pat, x - from));
            assert(text::matches_at(s, pat, y + from));
        },
        (Some(x), None) => {
            assert(text::matches_at(rest, pat, x - from));
        },
        (None, Some(y)) => {
            assert(text::matches_at(s, pat, y + from));
        },
        (None, None) => {},
    }
}

/// A character behind a text without it is found there.
pub proof fn lemma_find_char_first(a: Seq<char>, c: char, b: Seq<char>, from: int)
    requires
        0 <= from <= a.len(),
        forall|k: int| from <= k < a.len() ==> #[trigger] a[k] != c,
    ensures
        text::find_char(a.push(c) + b, c, from) == Some(a.len() as int),
{
    let s = a.push(c) + b;
    text::lemma_find_char_bounds(s, c, from);
    assert(s[a.len() as int] == c);
    match text::find_char(s, c, from) {
        Some(at) => {
            if at < a.len() {
                assert(s[at] == a[at]);
            }
        },
        None => {},
    }
}

/// A character that is nowhere behind a place is not found from there on.
pub proof fn lemma_find_char_absent(s: Seq<char>, c: char, from: int)
    requires
        0 <= from,
        forall|k: int| from <= k < s.len() ==> #[trigger] s[k] != c,
    ensures
        text::find_char(s, c, from) is None,
{
    text::lemma_find_char_bounds(s, c, from);
}

/// The last place where a pattern stands is the one that is found from the end.
pub proof fn lemma_rfind_last(s: Seq<char>, pat: Seq<char>, at: int, end: int)
    requires
        0 <= at < end,
        text::matches_at(s, pat, at),
        forall|k: int| at < k < end ==> !#[trigger] text::matches_at(s, pat, k),
    ensures
        text::rfind(s, pat, end) == Some(at),
    decreases end,
{
    if end - 1 > at {
        assert(!text::matches_at(s, pat, end - 1));
        lemma_rfind_last(s, pat, at, end - 1);
    }
}

/// A text without the separator is one part.
pub proof fn lemma_split_one(s: Seq<char>, sep: char)
    requires
        !s.contains(sep),
    ensures
        text::split(s, sep) == seq![s],
{
    text::lemma_find_char_contains(s, sep);
}

/// One more part behind a separator is one more part.
pub proof fn lemma_split_more(s: Seq<char>, sep: char, part: Seq<char>)
    requires
        !part.contains(sep),
    ensures
        text::split(s.push(sep) + part, sep) == text::split(s, sep).push(part),
    decreases s.len(),
{
    let all = s.push(sep) + part;
    text::lemma_find_char_bounds(s, sep, 0);
    match text::find_char(s, sep, 0) {
        Some(at) => {
            let head = s.take(at);
            let rest = s.skip(at + 1);
            assert(all =~= head.push(sep) + (rest.push(sep) + part));
            lemma_find_char_first(head, sep, rest.push(sep) + part, 0);
            assert(all.take(at) =~= head);
            assert(all.skip(at + 1) =~= rest.push(sep) + part);
            lemma_split_more(rest, sep, part);
            assert(text::split(all, sep) =~= seq![head] + text::split(rest, sep).push(part));
            assert(text::split(s, sep) == seq![head] + text::split(rest, sep));
            assert(text::split(all, sep) =~= text::split(s, sep).push(part));
        },
        None => {
            lemma_find_char_first(s, sep, part, 0);
            let at = s.len() as int;
            assert(all.take(at) =~= s);
            assert(all.skip(at + 1) =~= part);
            lemma_split_one(part, sep);
            assert(text::split(all, sep) =~= seq![s].push(part));
        },
    }
}

/// The parts hold no separator, and put together with it they are the text.
pub proof fn lemma_split_parts(s: Seq<char>, sep: char)
    ensures
        text::split(s, sep).len() > 0,
        forall|i: int|
            0 <= i < text::split(s, sep).len() ==> !(#[trigger] text::split(s, sep)[i]).contains(sep),
        text::join(text::split(s, sep), seq![sep]) == s,
    decreases s.len(),
{
    text::lemma_find_char_bounds(s, sep, 0);
    match text::find_char(s, sep, 0) {
        Some(at) => {
            let head = s.take(at);
            let rest = s.skip(at + 1);
            let parts = text::split(rest, sep);
            let all = text::split(s, sep);
            lemma_split_parts(rest, sep);
            assert(all == seq![head] + parts);
            assert forall|i: int| 0 <= i < all.len() implies !(#[trigger] all[i]).contains(sep) by {
                if i > 0 {
                    assert(all[i] == parts[i - 1]);
                }
            }
            lemma_join_front(all, seq![sep]);
            assert(all.drop_first() =~= parts);
            assert(text::join(all, seq![sep]) =~= s);
        },
        None => {},
    }
}

/// Joined parts begin with the first one.
pub proof fn lemma_join_front(parts: Seq<Seq<char>>, sep: Seq<char>)
    requires
        parts.len() >= 2,
    ensures
        text::join(parts, sep) == parts[0] + sep + text::join(parts.drop_first(), sep),
    decreases parts.len(),
{
    let front = parts.drop_last();
    let back = parts.drop_first();
    if parts.len() == 2 {
        assert(text::join(front, sep) == parts[0]);
        assert(text::join(back, sep) == parts[1]);
    } else {
        lemma_join_front(front, sep);
        assert(front.drop_first() =~= back.drop_last());
        let middle = text::join(back.drop_last(), sep);
        assert(text::join(parts, sep) == (parts[0] + sep + middle) + sep + parts.last());
        assert(text::join(back, sep) == middle + sep + parts.last());
        assert(text::join(parts, sep) =~= parts[0] + sep + text::join(back, sep));
    }
}

/// Joining one more part puts it behind the separator at the end.
pub proof fn lemma_join_more(parts: Seq<Seq<char>>, part: Seq<char>, sep: Seq<char>)
    ensures
        text::join(Seq::<Seq<char>>::empty(), sep) == Seq::<char>::empty(),
        text::join(seq![part], sep) == part,
        parts.len() > 0 ==> text::join(parts.push(part), sep) == text::join(parts, sep) + sep + part,
{
    if parts.len() > 0 {
        assert(parts.push(part).drop_last() =~= parts);
    }
}

/// A text without line feeds is one line; one more line behind a line feed is one
/// more line, without the carriage return before the feed.
pub proof fn lemma_lines_front(line: Seq<char>, rest: Seq<char>)
    requires
        !line.contains('\n'),
    ensures
        text::lines(line) == (if line.len() == 0 {
            Seq::empty()
        } else {
            seq![line]
        }),
        text::lines(line.push('\n') + rest) == seq![
            if line.len() > 0 && line.last() == '\r' {
                line.drop_last()
            } else {
                line
            },
        ] + text::lines(rest),
{
    text::lemma_find_char_contains(line, '\n');
    let s = line.push('\n') + rest;
    lemma_find_char_first(line, '\n', rest, 0);
    let at = line.len() as int;
    assert(s.take(at) =~= line);
    assert(s.skip(at + 1) =~= rest);
    if line.len() == 0 {
        assert(text::lines(line) =~= Seq::<Seq<char>>::empty());
    }
}

/// `r` can be had from `s` by leaving characters out: `at` says where each of its
/// characters stands.
pub open spec fn picks(r: Seq<char>, s: Seq<char>, at: Seq<int>) -> bool {
    &&& at.len() == r.len()
    &&& forall|i: int| 0 <= i < at.len() ==> 0 <= #[trigger] at[i] < s.len() && r[i] == s[at[i]]
    &&& forall|i: int, j: int| 0 <= i < j < at.len() ==> #[trigger] at[i] < #[trigger] at[j]
}

/// `r` can be had from `s` by leaving characters out.
pub open spec fn subsequence(r: Seq<char>, s: Seq<char>) -> bool {
    exists|at: Seq<int>| #[trigger] picks(r, s, at)
}

pub proof fn lemma_subsequence_same(s: Seq<char>)
    ensures
        subsequence(s, s),
{
    let at = Seq::new(s.len(), |i: int| i);
    assert(picks(s, s, at));
}

pub proof fn lemma_subsequence_part(s: Seq<char>, from: int, to: int)
    requires
        0 <= from <= to <= s.len(),
    ensures
        subsequence(s.subrange(from, to), s),
{
    let at = Seq::new((to - from) as nat, |i: int| from + i);
    assert(picks(s.subrange(from, to), s, at));
}

pub proof fn lemma_subsequence_through(a: Seq<char>, b: Seq<char>, c: Seq<char>)
    requires
        subsequence(a, b),
        subsequence(b, c),
    ensures
        subsequence(a, c),
{
    let p = choose|at: Seq<int>| #[trigger] picks(a, b, at);
    let q = choose|at: Seq<int>| #[trigger] picks(b, c, at);
    let at = Seq::new(p.len(), |i: int| q[p[i]]);
    assert(picks(a, c, at)) by {
        assert forall|i: int| 0 <= i < at.len() implies 0 <= #[trigger] at[i] < c.len() && a[i]
            == c[at[i]] by {
            assert(0 <= p[i] < b.len());
            assert(0 <= q[p[i]] < c.len());
        }
        assert forall|i: int, j: int| 0 <= i < j < at.len() implies #[trigger] at[i]
            < #[trigger] at[j] by {
            assert(p[i] < p[j]);
            assert(q[p[i]] < q[p[j]]);
        }
    }
}

pub proof fn lemma_subsequence_sum(a: Seq<char>, b: Seq<char>, c: Seq<char>, d: Seq<char>)
    requires
        subsequence(a, b),
        subsequence(c, d),
    ensures
        subsequence(a + c, b + d),
{
    let p = choose|at: Seq<int>| #[trigger] picks(a, b, at);
    let q = choose|at: Seq<int>| #[trigger] picks(c, d, at);
    let n = a.len() as int;
    let m = b.len() as int;
    let at = Seq::new((a + c).len(), |i: int| if i < n { p[i] } else { q[i - n] + m });
    assert(picks(a + c, b + d, at)) by {
        assert forall|i: int| 0 <= i < at.len() implies 0 <= #[trigger] at[i] < (b + d).len() && (a
            + c)[i] == (b + d)[at[i]] by {
            if i < n {
                assert(0 <= p[i] < b.len());
            } else {
                assert(0 <= q[i - n] < d.len());
            }
        }
        assert forall|i: int, j: int| 0 <= i < j < at.len() implies #[trigger] at[i]
            < #[trigger] at[j] by {
            if j < n {
                assert(p[i] < p[j]);
            } else if i >= n {
                assert(q[i - n] < q[j - n]);
            } else {
                assert(0 <= p[i] < b.len());
                assert(0 <= q[j - n] < d.len());
            }
        }
    }
}

/// Trimming leaves characters out, and nothing more.
pub proof fn lemma_trim_subsequence(s: Seq<char>)
    ensures
        subsequence(text::trim_start(s), s),
        subsequence(text::trim_end(s), s),
        subsequence(text::trim(s), s),
{
    let t = text::trim_start(s);
    text::lemma_trim_start_len(s);
    lemma_subsequence_part(s, s.len() - t.len(), s.len() as int);
    assert(s.subrange(s.len() - t.len(), s.len() as int) =~= t);
    text::lemma_trim_end_len(s);
    lemma_subsequence_part(s, 0, text::trim_end(s).len() as int);
    assert(s.subrange(0, text::trim_end(s).len() as int) =~= text::trim_end(s));
    text::lemma_trim_end_len(t);
    lemma_subsequence_part(t, 0, text::trim(s).len() as int);
    assert(t.subrange(0, text::trim(s).len() as int) =~= text::trim(s));
    lemma_subsequence_through(text::trim(s), t, s);
}

/// A text with a pattern in front starts with it, with one at the end ends with it,
/// and a text holds a pattern just where it is not absent.
pub proof fn lemma_where_it_stands(a: Seq<char>, b: Seq<char>, s: Seq<char>, pat: Seq<char>)
    ensures
        text::starts_with(a + b, a),
        text::ends_with(a + b, b),
        text::starts_with(s, pat) ==> s == pat + s.skip(pat.len() as int),
        text::ends_with(s, pat) ==> s == s.take(s.len() - pat.len()) + pat,
        text::contains(s, pat) <==> !absent(s, pat),
{
    let s1 = a + b;
    assert(s1.subrange(0, a.len() as int) =~= a);
    assert(s1.subrange(s1.len() - b.len(), s1.len() as int) =~= b);
    if text::starts_with(s, pat) {
        assert(s =~= s.subrange(0, pat.len() as int) + s.skip(pat.len() as int));
    }
    if text::ends_with(s, pat) {
        assert(s =~= s.take(s.len() - pat.len()) + s.subrange(
            s.len() - pat.len(),
            s.len() as int,
        ));
    }
    if text::contains(s, pat) {
        let at = choose|at: int| text::matches_at(s, pat, at);
        assert(s.subrange(at, at + pat.len()) == pat);
    }
    if !absent(s, pat) {
        let k = choose|k: int|
            0 <= k && k + pat.len() <= s.len() && #[trigger] s.subrange(k, k + pat.len()) == pat;
        assert(text::matches_at(s, pat, k));
    }
}

/// Lower case changes the letters from `A` to `Z`, each to its small one, and
/// nothing else.
pub proof fn lemma_lower(s: Seq<char>, t: Seq<char>)
    ensures
        text::lower(s).len() == s.len(),
        forall|k: int|
            0 <= k < s.len() ==> (if 'A' <= s[k] <= 'Z' {
                (#[trigger] text::lower(s)[k]) as u32 == s[k] as u32 + 32
            } else {
                text::lower(s)[k] == s[k]
            }),
        text::lower(s + t) == text::lower(s) + text::lower(t),
        text::lower(text::lower(s)) == text::lower(s),
{
    assert forall|c: char| 'A' <= c <= 'Z' implies (#[trigger] text::lower_char(c)) as u32 == c as u32
        + 32 by {}
    assert(text::lower(s + t) =~= text::lower(s) + text::lower(t));
    assert(text::lower(text::lower(s)) =~= text::lower(s));
}

/// The number that decimal digits stand for.
pub open spec fn number(digits: Seq<char>) -> int
    decreases digits.len(),
{
    if digits.len() == 0 {
        0
    } else {
        10 * number(digits.drop_last()) + (digits.last() as u32 - '0' as u32)
    }
}

/// The decimal form of a number is made of digits that stand for it, with no zero in
/// front unless it is the only digit.
pub proof fn lemma_decimal(n: nat)
    ensures
        number(text::decimal(n)) == n,
        text::decimal(n).len() > 0,
        forall|k: int| 0 <= k < text::decimal(n).len() ==> '0' <= #[trigger] text::decimal(n)[k] <= '9',
        n > 0 ==> text::decimal(n)[0] != '0',
        text::signed_decimal(n as int) == text::decimal(n),
        n > 0 ==> text::signed_decimal(-n) == seq!['-'] + text::decimal(n),
    decreases n,
{
    reveal_strlit("-");
    assert("-"@ =~= seq!['-']);
    reveal_with_fuel(number, 2);
    let d = text::digit(n % 10);
    assert(d as u32 == '0' as u32 + n % 10);
    if n < 10 {
        assert(seq![d].drop_last() =~= Seq::<char>::empty());
        assert(text::decimal(n) =~= seq![d]);
    } else {
        lemma_decimal(n / 10);
        let front = text::decimal(n / 10);
        assert(front.push(d).drop_last() =~= front);
    }
}

/// The views of some strings are the strings, each in its place; that of an optional
/// one is there just where it is.
pub proof fn lemma_views(list: Seq<String>, one: String, part: &str)
    ensures
        text::views(list).len() == list.len(),
        forall|i: int| 0 <= i < list.len() ==> #[trigger] text::views(list)[i] == list[i]@,
        text::opt_view(Some(one)) == Some(one@),
        text::opt_view(None) is None,
        text::opt_str(Some(part)) == Some(part@),
        text::opt_str(None) is None,
{
}

/// The white space that trimming takes off: tabs, line ends, spaces of all widths, and
/// no letter, digit or mark.
pub proof fn lemma_white_space(c: char)
    ensures
        text::white(' ') && text::white('\t') && text::white('\n') && text::white('\r'),
        c as u32 == 0x0b || c as u32 == 0x0c || c as u32 == 0x85 || c as u32 == 0xa0 || c as u32
            == 0x1680 || c as u32 == 0x2028 || c as u32 == 0x2029 || c as u32 == 0x202f || c as u32
            == 0x205f || c as u32 == 0x3000 ==> text::white(c),
        0x2000 <= c as u32 <= 0x200a ==> text::white(c),
        0x21 <= c as u32 <= 0x7e ==> !text::white(c),
        c as u32 == 0 || c as u32 == 0x200b || c as u32 == 0xfeff || c as u32 == 0x1f || c as u32
            > 0x3000 ==> !text::white(c),
{
}

} // verus!
