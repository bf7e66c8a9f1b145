//! What taking hidden tags and empty lines out of a reply leaves of it, whatever
//! the reply.

use vstd::prelude::*;
use vstd::utf8::*;
use crate::reply_text;
use crate::telegram_text;
use crate::text;
use crate::text_laws;

verus! {

broadcast use vstd::string::group_string_axioms;

/// Text up to the first `<` stays as it is.
pub proof fn lemma_plain_text_shown(a: Seq<char>, rest: Seq<char>)
    requires
        !a.contains('<'),
    ensures
        reply_text::without_hidden(a + rest) == a + reply_text::without_hidden(rest),
        reply_text::without_hidden(a) == a,
    decreases a.len(),
{
    if a.len() == 0 {
        assert(a + rest =~= rest);
        assert(a + reply_text::without_hidden(rest) =~= reply_text::without_hidden(rest));
    } else {
        let tail = a.skip(1);
        assert(a.contains(a[0]));
        assert forall|c: char| tail.contains(c) implies #[trigger] a.contains(c) by {
            let k = choose|k: int| 0 <= k < tail.len() && tail[k] == c;
            assert(a[k + 1] == c);
        }
        lemma_plain_text_shown(tail, rest);
        assert((a + rest).skip(1) =~= tail + rest);
        assert(reply_text::without_hidden(a + rest) =~= a + reply_text::without_hidden(rest));
        assert(reply_text::without_hidden(a) =~= a);
    }
}

/// The names of the tags that are not shown; the first two stand for all tags whose
/// names begin so.
pub open spec fn hidden_name(name: Seq<char>) -> bool {
    ||| exists|more: Seq<char>| name == "emotion"@ + more
    ||| exists|more: Seq<char>| name == "cue"@ + more
    ||| name == "translate"@
    ||| name == "/translate"@
    ||| name == "/emotion"@
    ||| name == "/cue"@
}

proof fn lemma_tag_end(name: Seq<char>, rest: Seq<char>, n: int)
    requires
        0 <= n <= name.len(),
        !name.contains('>'),
        forall|k: int| 0 <= k <= name.len() ==> encode_utf8(#[trigger] name.take(k)).len() <= 64,
    ensures
        reply_text::tag_end(name.push('>') + rest, n) == name.len() + 1,
    decreases name.len() - n,
{
    let s = name.push('>') + rest;
    if n < name.len() {
        assert(s[n] == name[n]);
        assert(name.contains(name[n]));
        assert(s.take(n + 1) =~= name.take(n + 1));
        lemma_tag_end(name, rest, n + 1);
    } else {
        assert(s[n] == '>');
    }
}

proof fn lemma_closed_prefix(name: Seq<char>, pat: Seq<char>)
    requires
        !name.contains('>'),
        !pat.contains('>'),
    ensures
        text::starts_with(name.push('>'), pat.push('>')) <==> name == pat,
        text::starts_with(name.push('>'), pat) <==> exists|more: Seq<char>| name == pat + more,
{
    let s = name.push('>');
    let n = pat.len() as int;
    if text::starts_with(s, pat.push('>')) {
        assert(s.subrange(0, n + 1) == pat.push('>'));
        assert(s.subrange(0, n + 1)[n] == '>');
        assert(s[n] == '>');
        if n < name.len() {
            assert(name.contains(name[n]));
        }
        assert forall|k: int| 0 <= k < n implies name[k] == pat[k] by {
            assert(s.subrange(0, n + 1)[k] == s[k]);
        }
        assert(name =~= pat);
    }
    if name == pat {
        assert(s.subrange(0, n + 1) =~= pat.push('>'));
    }
    if text::starts_with(s, pat) {
        assert(s.subrange(0, n) == pat);
        if n > name.len() {
            assert(s.subrange(0, n)[name.len() as int] == '>');
            assert(pat.contains(pat[name.len() as int]));
        }
        assert(name =~= pat + name.skip(n)) by {
            assert forall|k: int| 0 <= k < n implies name[k] == pat[k] by {
                assert(s.subrange(0, n)[k] == s[k]);
            }
        }
    }
    if exists|more: Seq<char>| name == pat + more {
        let more = choose|more: Seq<char>| name == pat + more;
        assert(s.subrange(0, n) =~= pat);
    }
}

proof fn lemma_lower_close(name: Seq<char>)
    requires
        !name.contains('>'),
    ensures
        text::lower(name.push('>')) == text::lower(name).push('>'),
        !text::lower(name).contains('>'),
{
    assert(text::lower(name.push('>')) =~= text::lower(name).push('>'));
    assert forall|k: int| 0 <= k < name.len() implies text::lower(name)[k] != '>' by {
        assert(name.contains(name[k]));
        let c = name[k];
        if 'A' <= c <= 'Z' {
            assert(text::lower_char(c) as u32 == c as u32 + 32);
        }
    }
}

proof fn lemma_hidden_name(name: Seq<char>)
    requires
        !name.contains('>'),
    ensures
        reply_text::hidden_tag(name.push('>')) <==> hidden_name(name),
{
    reveal_strlit("translate>");
    reveal_strlit("/translate>");
    reveal_strlit("emotion");
    reveal_strlit("/emotion>");
    reveal_strlit("cue");
    reveal_strlit("/cue>");
    reveal_strlit("translate");
    reveal_strlit("/translate");
    reveal_strlit("/emotion");
    reveal_strlit("/cue");
    assert("translate>"@ =~= "translate"@.push('>'));
    assert("/translate>"@ =~= "/translate"@.push('>'));
    assert("/emotion>"@ =~= "/emotion"@.push('>'));
    assert("/cue>"@ =~= "/cue"@.push('>'));
    lemma_closed_prefix(name, "translate"@);
    lemma_closed_prefix(name, "/translate"@);
    lemma_closed_prefix(name, "emotion"@);
    lemma_closed_prefix(name, "/emotion"@);
    lemma_closed_prefix(name, "cue"@);
    lemma_closed_prefix(name, "/cue"@);
}

/// A tag in angle brackets is taken out just where its name, in any case, is one of
/// those that are not shown; else it stays, letter for letter. This holds of tags
/// of up to 64 bytes.
pub proof fn lemma_tag_shown(name: Seq<char>, rest: Seq<char>)
    requires
        !name.contains('>'),
        forall|k: int| 0 <= k <= name.len() ==> encode_utf8(#[trigger] name.take(k)).len() <= 64,
    ensures
        hidden_name(text::lower(name)) ==> reply_text::without_hidden(
            seq!['<'] + name.push('>') + rest,
        ) == reply_text::without_hidden(rest),
        !hidden_name(text::lower(name)) ==> reply_text::without_hidden(
            seq!['<'] + name.push('>') + rest,
        ) == seq!['<'] + name.push('>') + reply_text::without_hidden(rest),
{
    let s = seq!['<'] + name.push('>') + rest;
    let behind = s.skip(1);
    assert(behind =~= name.push('>') + rest);
    lemma_tag_end(name, rest, 0);
    let n = name.len() as int + 1;
    assert(behind.take(n) =~= name.push('>'));
    assert(behind.skip(n) =~= rest);
    lemma_lower_close(name);
    lemma_hidden_name(text::lower(name));
    assert(Seq::<char>::empty() + reply_text::without_hidden(rest)
        =~= reply_text::without_hidden(rest));
}

/// What is shown of a reply stood in it, in this order.
pub proof fn lemma_shown_is_subsequence(s: Seq<char>)
    ensures
        text_laws::subsequence(reply_text::without_hidden(s), s),
    decreases s.len(),
{
    text_laws::lemma_subsequence_same(s);
    if s.len() > 0 {
        let rest = s.skip(1);
        let first = seq![s[0]];
        let none = Seq::<char>::empty();
        assert(first + rest =~= s);
        text_laws::lemma_subsequence_same(first);
        text_laws::lemma_subsequence_part(first, 0, 0);
        assert(first.subrange(0, 0) =~= none);
        if s[0] != '<' {
            lemma_shown_is_subsequence(rest);
            text_laws::lemma_subsequence_sum(
                first,
                first,
                reply_text::without_hidden(rest),
                rest,
            );
        } else {
            let n = reply_text::tag_end(rest, 0);
            lemma_tag_end_bounds(rest, 0);
            let tag = rest.take(n);
            let tail = rest.skip(n);
            let left = reply_text::without_hidden(tail);
            lemma_shown_is_subsequence(tail);
            let whole = first + tag;
            text_laws::lemma_subsequence_same(whole);
            text_laws::lemma_subsequence_part(whole, 0, 0);
            assert(whole.subrange(0, 0) =~= none);
            text_laws::lemma_subsequence_sum(none, whole, left, tail);
            text_laws::lemma_subsequence_sum(whole, whole, left, tail);
            assert(whole + tail =~= s);
        }
    }
}

proof fn lemma_tag_end_bounds(s: Seq<char>, n: int)
    requires
        0 <= n <= s.len(),
    ensures
        n <= reply_text::tag_end(s, n) <= s.len(),
    decreases s.len() - n,
{
    if n < s.len() {
        if !(s[n] == '>' || encode_utf8(s.take(n + 1)).len() > 64) {
            lemma_tag_end_bounds(s, n + 1);
        }
    }
}

/// A reply without tags is shown as it is, trimmed.
pub proof fn lemma_untagged_reply(s: Seq<char>)
    requires
        !s.contains('['),
        !s.contains('<'),
    ensures
        reply_text::without_control_tags(s) == text::trim(s),
        telegram_text::without_control_tags(s) == text::trim(s),
        telegram_text::with_image_tags(s) == text::trim(s),
{
    lemma_no_bracket(s, "[ACTION:"@);
    lemma_no_bracket(s, "[EMOTION:"@);
    lemma_no_bracket(s, "[IMAGE_PROMPT:"@);
    reveal_strlit("[ACTION:");
    reveal_strlit("[EMOTION:");
    reveal_strlit("[IMAGE_PROMPT:");
    lemma_plain_text_shown(s, Seq::empty());
}

proof fn lemma_no_bracket(s: Seq<char>, pat: Seq<char>)
    requires
        !s.contains('['),
    ensures
        pat.len() > 0 && pat[0] == '[' ==> reply_text::bracket_scan(s, pat) == s
            && telegram_text::bracket_scan(s, pat) == s,
{
    if pat.len() > 0 && pat[0] == '[' {
        assert forall|k: int| 0 <= k && k + pat.len() <= s.len() implies #[trigger] s.subrange(
            k,
            k + pat.len(),
        ) != pat by {
            assert(s.contains(s[k]));
            assert(s.subrange(k, k + pat.len())[0] == s[k]);
        }
        text_laws::lemma_find_absent(s, pat);
    }
}

/// The lines of a text that hold more than white space, with none at their ends.
pub open spec fn said_lines(lines: Seq<Seq<char>>) -> Seq<Seq<char>> {
    lines.filter(|line: Seq<char>| !text_laws::all_white(line)).map_values(
        |line: Seq<char>| text::trim_end(line),
    )
}

proof fn lemma_kept_are_said(lines: Seq<Seq<char>>)
    ensures
        reply_text::kept_lines(lines) == said_lines(lines),
    decreases lines.len(),
{
    reveal(Seq::filter);
    if lines.len() > 0 {
        lemma_kept_are_said(lines.drop_last());
        text_laws::lemma_blank_is_white(lines.last());
    }
    assert(reply_text::kept_lines(lines) =~= said_lines(lines));
}

proof fn lemma_said_front(line: Seq<char>, rest: Seq<Seq<char>>)
    ensures
        said_lines(seq![line] + rest) == said_lines(seq![line]) + said_lines(rest),
        said_lines(seq![line]) == (if text_laws::all_white(line) {
            Seq::empty()
        } else {
            seq![text::trim_end(line)]
        }),
{
    let f = |line: Seq<char>| !text_laws::all_white(line);
    Seq::filter_distributes_over_add(seq![line], rest, f);
    assert(said_lines(seq![line] + rest) =~= said_lines(seq![line]) + said_lines(rest));
    reveal(Seq::filter);
    assert(seq![line].drop_last() =~= Seq::<Seq<char>>::empty());
    assert(seq![line].drop_last().filter(f) =~= Seq::<Seq<char>>::empty());
    assert(said_lines(seq![line]) =~= (if text_laws::all_white(line) {
        Seq::empty()
    } else {
        seq![text::trim_end(line)]
    }));
}

proof fn lemma_carriage_return(line: Seq<char>)
    requires
        line.len() > 0,
        line.last() == '\r',
    ensures
        text::trim_end(line.drop_last()) == text::trim_end(line),
        text_laws::all_white(line.drop_last()) <==> text_laws::all_white(line),
{
    assert(text::white('\r'));
    let before = line.drop_last();
    if text_laws::all_white(before) {
        assert forall|k: int| 0 <= k < line.len() implies text::white(#[trigger] line[k]) by {
            if k < before.len() {
                assert(line[k] == before[k]);
            }
        }
    }
    if text_laws::all_white(line) {
        assert forall|k: int| 0 <= k < before.len() implies text::white(#[trigger] before[k]) by {
            assert(line[k] == before[k]);
        }
    }
}

proof fn lemma_lines_said(lines: Seq<Seq<char>>)
    requires
        forall|i: int| 0 <= i < lines.len() ==> !(#[trigger] lines[i]).contains('\n'),
    ensures
        said_lines(text::lines(text::join(lines, seq!['\n']))) == said_lines(lines),
    decreases lines.len(),
{
    let sep = seq!['\n'];
    let none = Seq::<Seq<char>>::empty();
    if lines.len() == 0 {
        assert(text::lines(text::join(lines, sep)) =~= lines);
    } else {
        let line = lines[0];
        let rest = lines.drop_first();
        let s = text::join(rest, sep);
        assert(lines =~= seq![line] + rest);
        assert(!line.contains('\n'));
        lemma_said_front(line, rest);
        text_laws::lemma_lines_front(line, s);
        if lines.len() == 1 {
            assert(seq![line] + rest =~= seq![line]);
            if line.len() == 0 {
                assert(text_laws::all_white(line));
                assert(said_lines(none) =~= Seq::empty()) by {
                    reveal(Seq::filter);
                }
            }
        } else {
            text_laws::lemma_join_front(lines, sep);
            assert(text::join(lines, sep) =~= line.push('\n') + s);
            assert forall|i: int| 0 <= i < rest.len() implies !(#[trigger] rest[i]).contains(
                '\n',
            ) by {
                assert(rest[i] == lines[i + 1]);
            }
            lemma_lines_said(rest);
            let first = if line.len() > 0 && line.last() == '\r' {
                line.drop_last()
            } else {
                line
            };
            lemma_said_front(first, text::lines(s));
            if line.len() > 0 && line.last() == '\r' {
                lemma_carriage_return(line);
            }
        }
    }
}

/// Of lines put together, the lines that hold more than white space stay, all of
/// them, in their order, each on its own line and without white space at its end.
pub proof fn lemma_lines_that_stay(lines: Seq<Seq<char>>)
    requires
        forall|i: int| 0 <= i < lines.len() ==> !(#[trigger] lines[i]).contains('\n'),
    ensures
        reply_text::compacted(text::join(lines, seq!['\n'])) == text::trim(
            text::join(said_lines(lines), seq!['\n']),
        ),
{
    reveal_strlit("\n");
    assert("\n"@ =~= seq!['\n']);
    lemma_lines_said(lines);
    lemma_kept_are_said(text::lines(text::join(lines, seq!['\n'])));
}

/// Nothing but `c`.
pub open spec fn only(s: Seq<char>, c: char) -> bool {
    forall|k: int| 0 <= k < s.len() ==> #[trigger] s[k] == c
}

proof fn lemma_strip_char_parts(s: Seq<char>, c: char) -> (ends: (Seq<char>, Seq<char>))
    ensures
        s == ends.0 + telegram_text::strip_char(s, c) + ends.1,
        only(ends.0, c),
        only(ends.1, c),
        telegram_text::strip_char(s, c).len() > 0 ==> telegram_text::strip_char(s, c)[0] != c
            && telegram_text::strip_char(s, c).last() != c,
    decreases s.len(),
{
    let none = Seq::<char>::empty();
    let inner = telegram_text::strip_char(s, c);
    if s.len() > 0 && s[0] == c {
        let ends = lemma_strip_char_parts(s.drop_first(), c);
        let front = seq![c] + ends.0;
        assert(s =~= seq![c] + s.drop_first());
        assert(s =~= front + inner + ends.1);
        (front, ends.1)
    } else if s.len() > 0 && s.last() == c {
        let ends = lemma_strip_char_parts(s.drop_last(), c);
        let back = ends.1.push(c);
        assert(s =~= s.drop_last().push(c));
        assert(s =~= ends.0 + inner + back);
        (ends.0, back)
    } else {
        assert(s =~= none + s + none);
        (none, none)
    }
}

proof fn lemma_strip_only(front: Seq<char>, core: Seq<char>, back: Seq<char>, c: char)
    requires
        only(front, c),
        only(back, c),
        core.len() > 0 ==> core[0] != c && core.last() != c,
    ensures
        telegram_text::strip_char(front + core + back, c) == core,
    decreases front.len() + back.len(),
{
    let s = front + core + back;
    if front.len() > 0 {
        assert(s[0] == front[0]);
        assert forall|k: int| 0 <= k < front.drop_first().len() implies #[trigger] front.drop_first()[k]
            == c by {
            assert(front[k + 1] == c);
        }
        lemma_strip_only(front.drop_first(), core, back, c);
        assert(s.drop_first() =~= front.drop_first() + core + back);
    } else if back.len() > 0 {
        if core.len() == 0 {
            assert(s[0] == back[0]);
            let rest = back.drop_first();
            assert forall|k: int| 0 <= k < rest.len() implies #[trigger] rest[k] == c by {
                assert(back[k + 1] == c);
            }
            lemma_strip_only(front, core, rest, c);
            assert(s.drop_first() =~= front + core + rest);
        } else {
            assert(s[0] == core[0]);
            assert(s.last() == back[back.len() - 1]);
            let rest = back.drop_last();
            assert forall|k: int| 0 <= k < rest.len() implies #[trigger] rest[k] == c by {
                assert(back[k] == c);
            }
            lemma_strip_only(front, core, rest, c);
            assert(s.drop_last() =~= front + core + rest);
        }
    } else {
        assert(s =~= core);
    }
}

/// A line that counts as empty on Telegram holds nothing but white space, ellipses
/// and full stops; and a line of full stops between ellipses, or of one of these
/// alone or of neither, counts as empty, white space around it or not.
pub proof fn lemma_empty_line(
    lead: Seq<char>,
    front: Seq<char>,
    stops: Seq<char>,
    back: Seq<char>,
    tail: Seq<char>,
    line: Seq<char>,
)
    requires
        text_laws::all_white(lead),
        only(front, '…'),
        only(stops, '.'),
        only(back, '…'),
        text_laws::all_white(tail),
    ensures
        telegram_text::empty_line(lead + (front + stops + back) + tail),
        telegram_text::empty_line(line) ==> forall|k: int|
            0 <= k < line.len() ==> text::white(#[trigger] line[k]) || line[k] == '…' || line[k]
                == '.',
{
    let none = Seq::<char>::empty();
    let core = front + stops + back;
    assert(!text::white('…') && !text::white('.'));
    assert forall|k: int| 0 <= k < core.len() implies !text::white(#[trigger] core[k]) by {
        if k < front.len() {
            assert(core[k] == front[k]);
        } else if k < front.len() + stops.len() {
            assert(core[k] == stops[k - front.len()]);
        } else {
            assert(core[k] == back[k - front.len() - stops.len()]);
        }
    }
    assert(core.len() > 0 ==> !text::white(core[0]) && !text::white(core[core.len() - 1]));
    text_laws::lemma_trim_core(lead, core, tail);
    if stops.len() > 0 {
        assert(stops[0] == '.' && stops[stops.len() - 1] == '.');
    }
    lemma_strip_only(front, stops, back, '…');
    lemma_strip_only(stops, none, none, '.');
    assert(stops + none + none =~= stops);
    text_laws::lemma_trim_core(none, none, none);
    assert(none + none + none =~= none);
    if telegram_text::empty_line(line) {
        let (l, r) = text_laws::lemma_trim_parts(line);
        let t = text::trim(line);
        let (e1, e2) = lemma_strip_char_parts(t, '…');
        let u = telegram_text::strip_char(t, '…');
        let (d1, d2) = lemma_strip_char_parts(u, '.');
        let v = telegram_text::strip_char(u, '.');
        let (w1, w2) = text_laws::lemma_trim_parts(v);
        assert forall|k: int| 0 <= k < line.len() implies text::white(#[trigger] line[k])
            || line[k] == '…' || line[k] == '.' by {
            let at = k - l.len();
            if at < 0 {
                assert(line[k] == l[k]);
            } else if at >= t.len() {
                assert(line[k] == r[at - t.len()]);
            } else {
                assert(line[k] == t[at]);
                let at = at - e1.len();
                if at < 0 {
                    assert(line[k] == e1[k - l.len()]);
                } else if at >= u.len() {
                    assert(line[k] == e2[at - u.len()]);
                } else {
                    assert(line[k] == u[at]);
                    let before = at;
                    let at = at - d1.len();
                    if at < 0 {
                        assert(line[k] == d1[before]);
                    } else if at >= v.len() {
                        assert(line[k] == d2[at - v.len()]);
                    } else {
                        assert(line[k] == v[at]);
                        if at < w1.len() {
                            assert(v[at] == w1[at]);
                        } else {
                            assert(v[at] == w2[at - w1.len()]);
                        }
                    }
                }
            }
        }
    }
}

/// The lines that do not count as empty on Telegram.
pub open spec fn telling_lines(lines: Seq<Seq<char>>) -> Seq<Seq<char>> {
    lines.filter(|line: Seq<char>| !telegram_text::empty_line(line))
}

proof fn lemma_full_are_telling(lines: Seq<Seq<char>>)
    ensures
        telegram_text::full_lines(lines) == telling_lines(lines),
    decreases lines.len(),
{
    reveal(Seq::filter);
    if lines.len() > 0 {
        lemma_full_are_telling(lines.drop_last());
    }
    assert(telegram_text::full_lines(lines) =~= telling_lines(lines));
}

proof fn lemma_telling_front(line: Seq<char>, rest: Seq<Seq<char>>)
    ensures
        telling_lines(seq![line] + rest) == telling_lines(seq![line]) + telling_lines(rest),
        telegram_text::empty_line(line) ==> telling_lines(seq![line]) == Seq::<Seq<char>>::empty(),
        telling_lines(Seq::<Seq<char>>::empty()) == Seq::<Seq<char>>::empty(),
{
    let f = |line: Seq<char>| !telegram_text::empty_line(line);
    Seq::filter_distributes_over_add(seq![line], rest, f);
    reveal(Seq::filter);
    assert(seq![line].drop_last() =~= Seq::<Seq<char>>::empty());
    assert(seq![line].drop_last().filter(f) =~= Seq::<Seq<char>>::empty());
}

proof fn lemma_lines_telling(lines: Seq<Seq<char>>)
    requires
        forall|i: int|
            0 <= i < lines.len() ==> !(#[trigger] lines[i]).contains('\n') && !lines[i].contains('\r'),
    ensures
        telling_lines(text::lines(text::join(lines, seq!['\n']))) == telling_lines(lines),
    decreases lines.len(),
{
    let sep = seq!['\n'];
    let none = Seq::<char>::empty();
    if lines.len() == 0 {
        assert(text::lines(text::join(lines, sep)) =~= lines);
    } else {
        let line = lines[0];
        let rest = lines.drop_first();
        let s = text::join(rest, sep);
        assert(lines =~= seq![line] + rest);
        assert(!line.contains('\n') && !line.contains('\r'));
        lemma_telling_front(line, rest);
        text_laws::lemma_lines_front(line, s);
        if line.len() > 0 {
            assert(line.contains(line[line.len() - 1]));
        }
        if lines.len() == 1 {
            assert(seq![line] + rest =~= seq![line]);
            if line.len() == 0 {
                lemma_empty_line(none, none, none, none, none, none);
                assert(none + (none + none + none) + none =~= line);
            }
        } else {
            text_laws::lemma_join_front(lines, sep);
            assert(text::join(lines, sep) =~= line.push('\n') + s);
            assert forall|i: int| 0 <= i < rest.len() implies !(#[trigger] rest[i]).contains('\n')
                && !rest[i].contains('\r') by {
                assert(rest[i] == lines[i + 1]);
            }
            lemma_lines_telling(rest);
            lemma_telling_front(line, text::lines(s));
        }
    }
}

/// Of lines put together, all that say something on Telegram stay, in their order,
/// each on its own line, and the others go.
pub proof fn lemma_telegram_lines_that_stay(lines: Seq<Seq<char>>)
    requires
        forall|i: int|
            0 <= i < lines.len() ==> !(#[trigger] lines[i]).contains('\n') && !lines[i].contains('\r'),
    ensures
        telegram_text::compacted(text::join(lines, seq!['\n'])) == text::trim(
            text::join(telling_lines(lines), seq!['\n']),
        ),
{
    reveal_strlit("\n");
    assert("\n"@ =~= seq!['\n']);
    lemma_lines_telling(lines);
    lemma_full_are_telling(text::lines(text::join(lines, seq!['\n'])));
}

/// A single line stays as it is, trimmed; on Telegram one that says nothing goes.
pub proof fn lemma_one_line(s: Seq<char>)
    requires
        !s.contains('\n'),
        !s.contains('\r'),
    ensures
        reply_text::compacted(s) == text::trim(s),
        telegram_text::compacted(s) == (if telegram_text::empty_line(s) {
            Seq::empty()
        } else {
            text::trim(s)
        }),
{
    let lines = seq![s];
    let none = Seq::<Seq<char>>::empty();
    let empty = Seq::<char>::empty();
    lemma_lines_that_stay(lines);
    lemma_telegram_lines_that_stay(lines);
    assert(text::join(lines, seq!['\n']) == s);
    assert(text::join(none, seq!['\n']) =~= empty);
    text_laws::lemma_trim_core(empty, empty, empty);
    assert(empty + empty + empty =~= empty);
    lemma_said_front(s, none);
    text_laws::lemma_blank_is_white(s);
    if text_laws::all_white(s) {
        assert(text::trim(s) =~= empty);
    } else {
        let (lead, tail) = text_laws::lemma_trim_parts(s);
        let core = text::trim(s);
        text_laws::lemma_trim_core(lead, core, tail);
        text_laws::lemma_trim_core(lead, core, empty);
        assert(lead + core + empty =~= lead + core);
    }
    lemma_telling_front(s, none);
    if !telegram_text::empty_line(s) {
        assert(telling_lines(lines) =~= lines) by {
            reveal(Seq::filter);
            assert(lines.drop_last() =~= none);
        }
    }
}

} // verus!
