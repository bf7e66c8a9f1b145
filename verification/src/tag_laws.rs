//! What the tool calls in a reply come to, however the reply is put together.

use vstd::prelude::*;
use vstd::utf8::*;
use crate::tags;
use crate::tags::CallView;
use crate::telegram_text;
use crate::text;
use crate::text_laws;

verus! {

broadcast use vstd::string::group_string_axioms;

/// A call without any part behind its name has no arguments.
pub proof fn lemma_call_without_arguments(name: Seq<char>)
    requires
        !name.contains('|'),
    ensures
        tags::call_of(name).name == text::trim(name),
        tags::call_of(name).args == Map::<Seq<char>, Seq<char>>::empty(),
{
    text_laws::lemma_split_one(name, '|');
}

/// One more `|key=value` in a call adds just that binding to its arguments, in
/// place of an earlier one of that key.
pub proof fn lemma_one_more_argument(inner: Seq<char>, key: Seq<char>, value: Seq<char>)
    requires
        !key.contains('|'),
        !key.contains('='),
        !value.contains('|'),
    ensures
        tags::call_of(inner.push('|') + (key.push('=') + value)).name == tags::call_of(inner).name,
        tags::call_of(inner.push('|') + (key.push('=') + value)).args == tags::call_of(
            inner,
        ).args.insert(text::trim(key), text::trim(value)),
{
    let part = key.push('=') + value;
    assert(!part.contains('|')) by {
        assert forall|k: int| 0 <= k < part.len() implies part[k] != '|' by {
            if k < key.len() {
                assert(part[k] == key[k]);
                assert(key.contains(key[k]));
            } else if k > key.len() {
                assert(part[k] == value[k - key.len() - 1]);
                assert(value.contains(value[k - key.len() - 1]));
            }
        }
    }
    text_laws::lemma_split_more(inner, '|', part);
    text_laws::lemma_split_parts(inner, '|');
    let parts = text::split(inner, '|');
    assert(parts.push(part).drop_last() =~= parts);
    assert forall|k: int| 0 <= k < key.len() implies #[trigger] key[k] != '=' by {
        assert(key.contains(key[k]));
    }
    text_laws::lemma_find_char_first(key, '=', value, 0);
    assert(part.take(key.len() as int) =~= key);
    assert(part.skip(key.len() as int + 1) =~= value);
}

/// A part of a call without `=` says nothing.
pub proof fn lemma_part_without_value(inner: Seq<char>, part: Seq<char>)
    requires
        !part.contains('|'),
        !part.contains('='),
    ensures
        tags::call_of(inner.push('|') + part) == tags::call_of(inner),
{
    text_laws::lemma_split_more(inner, '|', part);
    text_laws::lemma_split_parts(inner, '|');
    text::lemma_find_char_contains(part, '=');
    let parts = text::split(inner, '|');
    assert(parts.push(part).drop_last() =~= parts);
}

/// A call as it is written: its name, and `|key=value` for each argument.
pub open spec fn written_call(
    name: Seq<char>,
    arguments: Seq<(Seq<char>, Seq<char>)>,
) -> Seq<char>
    decreases arguments.len(),
{
    if arguments.len() == 0 {
        name
    } else {
        written_call(name, arguments.drop_last()).push('|') + (arguments.last().0.push('=')
            + arguments.last().1)
    }
}

/// A call has the name and exactly the arguments that are written in it, each with
/// its own value.
pub proof fn lemma_call_arguments(name: Seq<char>, arguments: Seq<(Seq<char>, Seq<char>)>)
    requires
        !name.contains('|'),
        forall|i: int|
            0 <= i < arguments.len() ==> !(#[trigger] arguments[i]).0.contains('|')
                && !arguments[i].0.contains('=') && !arguments[i].1.contains('|')
                && text::trim(arguments[i].0) == arguments[i].0,
        forall|i: int, j: int|
            0 <= i < j < arguments.len() ==> (#[trigger] arguments[i]).0 != (
            #[trigger] arguments[j]).0,
    ensures
        tags::call_of(written_call(name, arguments)).name == text::trim(name),
        forall|i: int|
            0 <= i < arguments.len() ==> tags::call_of(
                written_call(name, arguments),
            ).args.contains_key((#[trigger] arguments[i]).0) && tags::call_of(
                written_call(name, arguments),
            ).args[arguments[i].0] == text::trim(arguments[i].1),
        forall|key: Seq<char>| #[trigger]
            tags::call_of(written_call(name, arguments)).args.contains_key(key) ==> exists|i: int|
                0 <= i < arguments.len() && (#[trigger] arguments[i]).0 == key,
    decreases arguments.len(),
{
    if arguments.len() == 0 {
        lemma_call_without_arguments(name);
    } else {
        let before = arguments.drop_last();
        let last = arguments.last();
        assert forall|i: int| 0 <= i < before.len() implies !(#[trigger] before[i]).0.contains('|')
            && !before[i].0.contains('=') && !before[i].1.contains('|') && text::trim(before[i].0)
            == before[i].0 by {
            assert(before[i] == arguments[i]);
        }
        assert forall|i: int, j: int| 0 <= i < j < before.len() implies (#[trigger] before[i]).0
            != (#[trigger] before[j]).0 by {
            assert(before[i] == arguments[i] && before[j] == arguments[j]);
        }
        lemma_call_arguments(name, before);
        assert(last == arguments[arguments.len() - 1]);
        lemma_one_more_argument(written_call(name, before), last.0, last.1);
        let args = tags::call_of(written_call(name, arguments)).args;
        let earlier = tags::call_of(written_call(name, before)).args;
        assert forall|i: int| 0 <= i < arguments.len() implies args.contains_key(
            (#[trigger] arguments[i]).0,
        ) && args[arguments[i].0] == text::trim(arguments[i].1) by {
            if i < before.len() {
                assert(before[i] == arguments[i]);
                assert(arguments[i].0 != arguments[arguments.len() - 1].0);
            }
        }
        assert forall|key: Seq<char>| #[trigger] args.contains_key(key) implies exists|i: int|
            0 <= i < arguments.len() && (#[trigger] arguments[i]).0 == key by {
            if key == last.0 {
                assert(arguments[arguments.len() - 1].0 == key);
            } else {
                assert(earlier.contains_key(key));
                let i = choose|i: int| 0 <= i < before.len() && (#[trigger] before[i]).0 == key;
                assert(arguments[i].0 == key);
            }
        }
    }
}

/// A reply put together of `plains[0]`, a tag that holds `inners[0]`, `plains[1]`
/// and so on.
pub open spec fn with_tags(
    opening: Seq<char>,
    plains: Seq<Seq<char>>,
    inners: Seq<Seq<char>>,
) -> Seq<char>
    decreases inners.len(),
{
    if inners.len() == 0 {
        plains[0]
    } else {
        with_tags(opening, plains.drop_last(), inners.drop_last()) + (opening + inners.last().push(
            ']',
        )) + plains.last()
    }
}

/// All pieces one behind the other.
pub open spec fn in_a_row(pieces: Seq<Seq<char>>) -> Seq<char>
    decreases pieces.len(),
{
    if pieces.len() == 0 {
        Seq::empty()
    } else {
        in_a_row(pieces.drop_last()) + pieces.last()
    }
}

/// Neither the text between the tags nor what the tags hold has brackets.
pub open spec fn plain_pieces(plains: Seq<Seq<char>>, inners: Seq<Seq<char>>) -> bool {
    &&& plains.len() == inners.len() + 1
    &&& forall|i: int| 0 <= i < plains.len() ==> !(#[trigger] plains[i]).contains('[')
    &&& forall|i: int|
        0 <= i < inners.len() ==> !(#[trigger] inners[i]).contains('[') && !inners[i].contains(']')
}

proof fn lemma_fewer_pieces(plains: Seq<Seq<char>>, inners: Seq<Seq<char>>, more: Seq<char>)
    requires
        plain_pieces(plains, inners),
        inners.len() > 0,
        !more.contains('['),
    ensures
        plain_pieces(
            plains.drop_last().update(plains.len() - 2, more + plains.last()),
            inners.drop_last(),
        ),
{
    let fewer = plains.drop_last().update(plains.len() - 2, more + plains.last());
    let joined = more + plains.last();
    assert(!joined.contains('[')) by {
        assert forall|k: int| 0 <= k < joined.len() implies joined[k] != '[' by {
            if k < more.len() {
                assert(more.contains(more[k]));
            } else {
                assert(plains.last() == plains[plains.len() - 1]);
                assert(plains.last().contains(plains.last()[k - more.len()]));
            }
        }
    }
    assert forall|i: int| 0 <= i < fewer.len() implies !(#[trigger] fewer[i]).contains('[') by {
        if i < plains.len() - 2 {
            assert(fewer[i] == plains[i]);
        }
    }
    assert forall|i: int| 0 <= i < inners.drop_last().len() implies !(
    #[trigger] inners.drop_last()[i]).contains('[') && !inners.drop_last()[i].contains(']') by {
        assert(inners.drop_last()[i] == inners[i]);
    }
}

/// Text put in place of the last plain piece stands at the end of the reply.
proof fn lemma_last_piece(
    opening: Seq<char>,
    plains: Seq<Seq<char>>,
    inners: Seq<Seq<char>>,
    last: Seq<char>,
)
    requires
        plains.len() == inners.len() + 1,
    ensures
        with_tags(opening, plains.update(plains.len() - 1, last), inners) == with_tags(
            opening,
            plains.update(plains.len() - 1, Seq::<char>::empty()),
            inners,
        ) + last,
{
    let a = plains.update(plains.len() - 1, last);
    let b = plains.update(plains.len() - 1, Seq::<char>::empty());
    if inners.len() > 0 {
        assert(a.drop_last() =~= b.drop_last());
        let front = with_tags(opening, a.drop_last(), inners.drop_last()) + (opening
            + inners.last().push(']'));
        assert(with_tags(opening, b, inners) =~= front);
    } else {
        assert(with_tags(opening, b, inners) + last =~= last);
    }
}

/// What the encoding of a text is long.
proof fn lemma_encoded_len(a: Seq<char>, b: Seq<char>)
    ensures
        encode_utf8(a + b).len() == encode_utf8(a).len() + encode_utf8(b).len(),
        b.len() > 0 ==> encode_utf8(b).len() > 0,
    decreases a.len() + b.len(),
{
    if a.len() == 0 {
        assert(a + b =~= b);
        if b.len() > 0 {
            assert(encode_scalar(b[0] as u32).len() > 0);
        }
    } else {
        lemma_encoded_len(a.drop_first(), b);
        assert((a + b).drop_first() =~= a.drop_first() + b);
        assert((a + b)[0] == a[0]);
    }
}

/// A pattern behind which its first character does not come again stands there
/// last.
proof fn lemma_last_place(before: Seq<char>, pat: Seq<char>, rest: Seq<char>)
    requires
        text_laws::opens_once(pat),
        !rest.contains(pat[0]),
    ensures
        text::rfind(before + pat + rest, pat, (before + pat + rest).len() as int) == Some(
            before.len() as int,
        ),
{
    let s = before + pat + rest;
    let at = before.len() as int;
    assert(s.subrange(at, at + pat.len()) =~= pat);
    assert forall|k: int| at < k < s.len() implies !#[trigger] text::matches_at(s, pat, k) by {
        if text::matches_at(s, pat, k) {
            assert(s.subrange(k, k + pat.len())[0] == s[k]);
            if k < at + pat.len() {
                assert(s[k] == pat[k - at]);
            } else {
                assert(s[k] == rest[k - at - pat.len()]);
                assert(rest.contains(rest[k - at - pat.len()]));
            }
        }
    }
    text_laws::lemma_rfind_last(s, pat, at, s.len() as int);
}

/// The closing character of a tag is found behind what the tag holds.
proof fn lemma_tag_end(before: Seq<char>, pat: Seq<char>, inner: Seq<char>, after: Seq<char>, c: char)
    requires
        !pat.contains(c),
        !inner.contains(c),
    ensures
        text::find_char(before + (pat + inner.push(c)) + after, c, before.len() as int) == Some(
            (before.len() + pat.len() + inner.len()) as int,
        ),
{
    let at = before.len() as int;
    let head = before + (pat + inner);
    assert(before + (pat + inner.push(c)) + after =~= head.push(c) + after);
    assert forall|k: int| at <= k < head.len() implies #[trigger] head[k] != c by {
        if k < at + pat.len() {
            assert(head[k] == pat[k - at]);
            assert(pat.contains(pat[k - at]));
        } else {
            assert(head[k] == inner[k - at - pat.len()]);
            assert(inner.contains(inner[k - at - pat.len()]));
        }
    }
    text_laws::lemma_find_char_first(head, c, after, at);
}

proof fn lemma_opening()
    ensures
        text_laws::opens_once("[TOOL_CALL:"@),
        "[TOOL_CALL:"@[0] == '[',
        !"[TOOL_CALL:"@.contains(']'),
{
    reveal_strlit("[TOOL_CALL:");
}

/// The last explicit tag of a reply is the first that is taken out.
pub proof fn lemma_last_explicit_call(
    before: Seq<char>,
    inner: Seq<char>,
    after: Seq<char>,
    tight: bool,
)
    requires
        !inner.contains('['),
        !inner.contains(']'),
        !after.contains('['),
    ensures
        ({
            let s = before + ("[TOOL_CALL:"@ + inner.push(']')) + after;
            let head = if tight {
                text::trim_end(before)
            } else {
                before
            };
            &&& tags::explicit_calls(s, tight).0 == tags::explicit_calls(head + after, tight).0
            &&& tags::explicit_calls(s, tight).1 == seq![
                (encode_utf8(before).len() as int, tags::call_of(inner)),
            ] + tags::explicit_calls(head + after, tight).1
        }),
{
    let pat = "[TOOL_CALL:"@;
    let s = before + (pat + inner.push(']')) + after;
    let at = before.len() as int;
    let end = at + pat.len() + inner.len();
    lemma_opening();
    let rest = inner.push(']') + after;
    assert(!rest.contains('[')) by {
        assert forall|k: int| 0 <= k < rest.len() implies rest[k] != '[' by {
            if k < inner.len() {
                assert(inner.contains(inner[k]));
            } else if k > inner.len() {
                assert(after.contains(after[k - inner.len() - 1]));
            }
        }
    }
    lemma_last_place(before, pat, rest);
    assert(before + pat + rest =~= s);
    lemma_tag_end(before, pat, inner, after, ']');
    assert(s.take(at) =~= before);
    assert(s.skip(end + 1) =~= after);
    assert(s.subrange(at + pat.len(), end) =~= inner);
}

/// A plain piece as it stays before a tag.
spec fn stays(piece: Seq<char>, tight: bool) -> Seq<char> {
    if tight {
        text::trim_end(piece)
    } else {
        piece
    }
}

/// The pieces of a reply without its last tag.
spec fn one_tag_fewer(plains: Seq<Seq<char>>, tight: bool) -> Seq<Seq<char>> {
    plains.drop_last().update(
        plains.len() - 2,
        stays(plains[plains.len() - 2], tight) + plains.last(),
    )
}

proof fn lemma_take_last_tag(plains: Seq<Seq<char>>, inners: Seq<Seq<char>>, tight: bool)
    requires
        plain_pieces(plains, inners),
        inners.len() > 0,
    ensures
        plain_pieces(one_tag_fewer(plains, tight), inners.drop_last()),
        ({
            let before = with_tags("[TOOL_CALL:"@, plains.drop_last(), inners.drop_last());
            let s = with_tags("[TOOL_CALL:"@, plains, inners);
            let next = with_tags(
                "[TOOL_CALL:"@,
                one_tag_fewer(plains, tight),
                inners.drop_last(),
            );
            &&& tags::explicit_calls(s, tight).0 == tags::explicit_calls(next, tight).0
            &&& tags::explicit_calls(s, tight).1 == seq![
                (encode_utf8(before).len() as int, tags::call_of(inners.last())),
            ] + tags::explicit_calls(next, tight).1
        }),
{
    let pat = "[TOOL_CALL:"@;
    let n = inners.len();
    let before = with_tags(pat, plains.drop_last(), inners.drop_last());
    let inner = inners.last();
    let after = plains.last();
    assert(inner == inners[n - 1]);
    assert(after == plains[n as int]);
    lemma_last_explicit_call(before, inner, after, tight);
    let piece = stays(plains[n - 1], tight);
    text::lemma_trim_end_len(plains[n - 1]);
    assert(!piece.contains('[')) by {
        assert forall|k: int| 0 <= k < piece.len() implies piece[k] != '[' by {
            assert(piece[k] == plains[n - 1][k]);
            assert(plains[n - 1].contains(plains[n - 1][k]));
        }
    }
    lemma_fewer_pieces(plains, inners, piece);
    let rest_inners = inners.drop_last();
    let bare = plains.drop_last().update(n - 1, Seq::<char>::empty());
    lemma_last_piece(pat, plains.drop_last(), rest_inners, plains[n - 1]);
    assert(plains.drop_last().update(n - 1, plains[n - 1]) =~= plains.drop_last());
    let front = with_tags(pat, bare, rest_inners);
    assert(stays(before, tight) == front + piece) by {
        if tight {
            if rest_inners.len() > 0 {
                lemma_bare_ends_with_tag(pat, bare, rest_inners);
                text_laws::lemma_trim_end_of_sum(front, plains[n - 1]);
            } else {
                assert(front =~= Seq::<char>::empty());
                assert(before =~= plains[n - 1]);
                assert(front + piece =~= piece);
            }
        }
    }
    lemma_last_piece(pat, plains.drop_last(), rest_inners, piece + after);
    assert(stays(before, tight) + after =~= with_tags(
        pat,
        one_tag_fewer(plains, tight),
        rest_inners,
    ));
}

/// Each plain piece as it stays: before a tag, or at the end.
pub open spec fn kept_pieces(plains: Seq<Seq<char>>, tight: bool) -> Seq<Seq<char>> {
    Seq::new(
        plains.len(),
        |i: int|
            if tight && i < plains.len() - 1 {
                text::trim_end(plains[i])
            } else {
                plains[i]
            },
    )
}

/// The calls in the tags of a reply are found from the last one to the first, each
/// where its tag stands, and the text between them is left.
proof fn lemma_explicit_calls_of_pieces(
    plains: Seq<Seq<char>>,
    inners: Seq<Seq<char>>,
    tight: bool,
    other: Seq<Seq<char>>,
)
    requires
        plain_pieces(plains, inners),
        other.len() == plains.len(),
        forall|i: int| 0 <= i < plains.len() - 1 ==> #[trigger] other[i] == plains[i],
    ensures
        ({
            let s = with_tags("[TOOL_CALL:"@, plains, inners);
            let (rest, calls) = tags::explicit_calls(s, tight);
            &&& rest == in_a_row(kept_pieces(plains, tight))
            &&& calls.len() == inners.len()
            &&& forall|i: int|
                0 <= i < inners.len() ==> (#[trigger] calls[i]).1 == tags::call_of(
                    inners[inners.len() - 1 - i],
                )
            &&& forall|i: int, j: int|
                0 <= i < j < calls.len() ==> (#[trigger] calls[i]).0 > (#[trigger] calls[j]).0
            &&& forall|i: int|
                0 <= i < calls.len() ==> (#[trigger] calls[i]).0 < encode_utf8(
                    with_tags("[TOOL_CALL:"@, other, inners),
                ).len()
        }),
    decreases inners.len(),
{
    let pat = "[TOOL_CALL:"@;
    let s = with_tags(pat, plains, inners);
    let kept = kept_pieces(plains, tight);
    if inners.len() == 0 {
        lemma_no_bracket_no_call(plains[0], tight);
        assert(kept =~= seq![plains[0]]);
        reveal_with_fuel(in_a_row, 2);
        assert(in_a_row(kept) =~= plains[0]);
    } else {
        let n = inners.len();
        let before = with_tags(pat, plains.drop_last(), inners.drop_last());
        let inner = inners.last();
        let after = plains.last();
        let piece = stays(plains[n - 1], tight);
        let fewer = one_tag_fewer(plains, tight);
        let rest_inners = inners.drop_last();
        lemma_take_last_tag(plains, inners, tight);
        lemma_explicit_calls_of_pieces(fewer, rest_inners, tight, plains.drop_last());
        let (rest, calls) = tags::explicit_calls(s, tight);
        let calls2 = tags::explicit_calls(with_tags(pat, fewer, rest_inners), tight).1;
        let kept2 = kept_pieces(fewer, tight);
        assert(kept2.drop_last() =~= kept.drop_last().drop_last());
        assert(kept2.last() == piece + after);
        assert(kept.drop_last().last() == piece);
        assert(in_a_row(kept.drop_last()) == in_a_row(kept2.drop_last()) + piece);
        assert(in_a_row(kept) =~= in_a_row(kept2));
        assert(other.drop_last() =~= plains.drop_last());
        lemma_encoded_len(before, pat + inner.push(']'));
        lemma_encoded_len(before + (pat + inner.push(']')), other.last());
        let limit = encode_utf8(with_tags(pat, other, inners)).len();
        assert(encode_utf8(before).len() < limit);
        assert forall|i: int| 0 <= i < calls.len() implies (#[trigger] calls[i]).0 < limit by {
            if i > 0 {
                assert(calls[i] == calls2[i - 1]);
            }
        }
        assert forall|i: int, j: int| 0 <= i < j < calls.len() implies (#[trigger] calls[i]).0 > (
        #[trigger] calls[j]).0 by {
            assert(calls[j] == calls2[j - 1]);
            if i > 0 {
                assert(calls[i] == calls2[i - 1]);
            }
        }
        assert forall|i: int| 0 <= i < n implies (#[trigger] calls[i]).1 == tags::call_of(
            inners[n - 1 - i],
        ) by {
            if i > 0 {
                assert(calls[i] == calls2[i - 1]);
                assert(rest_inners[n - 1 - i] == inners[n - 1 - i]);
            }
        }
    }
}

proof fn lemma_bare_ends_with_tag(
    opening: Seq<char>,
    plains: Seq<Seq<char>>,
    inners: Seq<Seq<char>>,
)
    requires
        inners.len() > 0,
        plains.len() == inners.len() + 1,
        plains.last().len() == 0,
    ensures
        with_tags(opening, plains, inners).len() > 0,
        with_tags(opening, plains, inners).last() == ']',
        !text::white(']'),
{
    let front = with_tags(opening, plains.drop_last(), inners.drop_last()) + (opening
        + inners.last().push(']'));
    assert(with_tags(opening, plains, inners) =~= front);
    assert(front.last() == ']');
}

/// Calls that come from the last offset to the first are turned round by ordering
/// them.
proof fn lemma_falling_offsets(calls: Seq<(int, CallView)>)
    requires
        forall|i: int, j: int|
            0 <= i < j < calls.len() ==> (#[trigger] calls[i]).0 > (#[trigger] calls[j]).0,
    ensures
        tags::by_offset(calls) == calls.reverse(),
    decreases calls.len(),
{
    if calls.len() > 0 {
        let rest = calls.drop_last();
        let x = calls.last();
        assert forall|i: int, j: int| 0 <= i < j < rest.len() implies (#[trigger] rest[i]).0 > (
        #[trigger] rest[j]).0 by {
            assert(rest[i] == calls[i] && rest[j] == calls[j]);
        }
        lemma_falling_offsets(rest);
        tags::lemma_by_offset_ordered(calls);
        tags::lemma_insert_pos(rest.reverse(), x.0);
        let p = tags::insert_pos(rest.reverse(), x.0);
        if p > 0 {
            assert(rest.reverse()[p - 1] == calls[rest.len() - p]);
            assert(calls[rest.len() - p].0 > calls[calls.len() - 1].0);
        }
        assert(tags::by_offset(calls) =~= calls.reverse());
    } else {
        assert(tags::by_offset(calls) =~= calls.reverse());
    }
}

/// Calls that come in the order of their offsets stay as they are.
proof fn lemma_rising_offsets(calls: Seq<(int, CallView)>)
    requires
        forall|i: int, j: int|
            0 <= i < j < calls.len() ==> (#[trigger] calls[i]).0 <= (#[trigger] calls[j]).0,
    ensures
        tags::by_offset(calls) == calls,
    decreases calls.len(),
{
    if calls.len() > 0 {
        let rest = calls.drop_last();
        let x = calls.last();
        assert forall|i: int, j: int| 0 <= i < j < rest.len() implies (#[trigger] rest[i]).0 <= (
        #[trigger] rest[j]).0 by {
            assert(rest[i] == calls[i] && rest[j] == calls[j]);
        }
        lemma_rising_offsets(rest);
        tags::lemma_insert_pos(rest, x.0);
        let p = tags::insert_pos(rest, x.0);
        if p < rest.len() {
            assert(rest[p].0 > x.0);
            assert(calls[p].0 <= calls[calls.len() - 1].0);
        }
        assert(tags::by_offset(calls) =~= calls);
    }
}

/// A reply with explicit tags makes the calls that stand in them, all of them and
/// in their order, and the text between the tags is left, in its order.
pub proof fn lemma_reply_with_explicit_tags(plains: Seq<Seq<char>>, inners: Seq<Seq<char>>)
    requires
        plain_pieces(plains, inners),
    ensures
        tags::tool_calls_of(with_tags("[TOOL_CALL:"@, plains, inners)).0 == text::trim(
            in_a_row(plains),
        ),
        tags::tool_calls_of(with_tags("[TOOL_CALL:"@, plains, inners)).1.len() == inners.len(),
        forall|i: int|
            0 <= i < inners.len() ==> (#[trigger] tags::tool_calls_of(
                with_tags("[TOOL_CALL:"@, plains, inners),
            ).1[i]) == tags::call_of(inners[i]),
{
    let s = with_tags("[TOOL_CALL:"@, plains, inners);
    lemma_explicit_calls_of_pieces(plains, inners, false, plains);
    let (rest, calls) = tags::explicit_calls(s, false);
    assert(kept_pieces(plains, false) =~= plains);
    lemma_row_without_bracket(plains);
    lemma_no_bracket_no_call(rest, false);
    assert(calls + Seq::<(int, CallView)>::empty() =~= calls);
    lemma_falling_offsets(calls);
    let got = tags::tool_calls_of(s).1;
    assert forall|i: int| 0 <= i < inners.len() implies #[trigger] got[i] == tags::call_of(
        inners[i],
    ) by {
        assert(calls.reverse()[i] == calls[calls.len() - 1 - i]);
    }
}

/// The same of a Telegram reply, where the white space before a tag goes with it.
pub proof fn lemma_telegram_reply_with_explicit_tags(
    plains: Seq<Seq<char>>,
    inners: Seq<Seq<char>>,
)
    requires
        plain_pieces(plains, inners),
    ensures
        telegram_text::tool_calls_of(with_tags("[TOOL_CALL:"@, plains, inners)).0 == text::trim(
            in_a_row(kept_pieces(plains, true)),
        ),
        telegram_text::tool_calls_of(with_tags("[TOOL_CALL:"@, plains, inners)).1.len()
            == inners.len(),
        forall|i: int|
            0 <= i < inners.len() ==> (#[trigger] telegram_text::tool_calls_of(
                with_tags("[TOOL_CALL:"@, plains, inners),
            ).1[i]) == tags::call_of(inners[i]),
{
    let s = with_tags("[TOOL_CALL:"@, plains, inners);
    lemma_explicit_calls_of_pieces(plains, inners, true, plains);
    let (rest, calls) = tags::explicit_calls(s, true);
    let kept = kept_pieces(plains, true);
    assert forall|i: int| 0 <= i < kept.len() implies !(#[trigger] kept[i]).contains('[') by {
        text::lemma_trim_end_len(plains[i]);
        if kept[i].contains('[') {
            let k = choose|k: int| 0 <= k < kept[i].len() && kept[i][k] == '[';
            assert(plains[i][k] == '[');
            assert(plains[i].contains('['));
        }
    }
    lemma_row_without_bracket(kept);
    lemma_no_bracket_no_call(rest, true);
    assert(calls + Seq::<(int, CallView)>::empty() =~= calls);
    let got = telegram_text::tool_calls_of(s).1;
    assert forall|i: int| 0 <= i < inners.len() implies #[trigger] got[i] == tags::call_of(
        inners[i],
    ) by {
        assert(got[i] == tags::unplaced(calls)[calls.len() - 1 - i]);
        assert(got[i] == calls[calls.len() - 1 - i].1);
    }
}

proof fn lemma_row_without_bracket(pieces: Seq<Seq<char>>)
    requires
        forall|i: int| 0 <= i < pieces.len() ==> !(#[trigger] pieces[i]).contains('['),
    ensures
        !in_a_row(pieces).contains('['),
    decreases pieces.len(),
{
    if pieces.len() > 0 {
        let before = pieces.drop_last();
        assert forall|i: int| 0 <= i < before.len() implies !(#[trigger] before[i]).contains('[') by {
            assert(before[i] == pieces[i]);
        }
        lemma_row_without_bracket(before);
        let s = in_a_row(pieces);
        assert(pieces.last() == pieces[pieces.len() - 1]);
        if s.contains('[') {
            let k = choose|k: int| 0 <= k < s.len() && s[k] == '[';
            if k < in_a_row(before).len() {
                assert(in_a_row(before)[k] == '[');
            } else {
                assert(pieces.last()[k - in_a_row(before).len()] == '[');
            }
        }
    }
}

/// A reply without an opening bracket makes no tool calls.
proof fn lemma_no_bracket_no_call(s: Seq<char>, tight: bool)
    requires
        !s.contains('['),
    ensures
        tags::explicit_calls(s, tight) == (s, Seq::<(int, CallView)>::empty()),
        tags::short_calls(s, 0, tight) == (s, Seq::<(int, CallView)>::empty()),
{
    reveal_strlit("[TOOL_CALL:");
    text::lemma_absent(s, "[TOOL_CALL:"@, s.len() as int);
    text::lemma_find_char_bounds(s, '[', 0);
}

/// A short call is an identifier, a bar, and a text with `=` behind it.
pub proof fn lemma_short_call(name: Seq<char>, rest: Seq<char>)
    requires
        !name.contains('|'),
    ensures
        !tags::is_short_call(name),
        tags::is_short_call(name.push('|') + rest) <==> name.len() > 0 && rest.contains('=') && (
        forall|i: int| 0 <= i < name.len() ==> #[trigger] tags::alphanumeric(name[i]) || name[i] == '_'),
{
    text::lemma_find_char_contains(name, '|');
    assert forall|k: int| 0 <= k < name.len() implies #[trigger] name[k] != '|' by {
        assert(name.contains(name[k]));
    }
    text_laws::lemma_find_char_first(name, '|', rest, 0);
    let inner = name.push('|') + rest;
    let bar = name.len() as int;
    assert(inner.take(bar) =~= name);
    text::lemma_find_char_bounds(inner, '=', bar + 1);
    if rest.contains('=') {
        let k = choose|k: int| 0 <= k < rest.len() && rest[k] == '=';
        assert(inner[bar + 1 + k] == '=');
    }
    if let Some(at) = text::find_char(inner, '=', bar + 1) {
        assert(rest[at - bar - 1] == '=');
        assert(rest.contains('='));
    }
}

/// The first bracket of a reply, where it holds a short call, is taken out with it.
pub proof fn lemma_first_short_call(
    before: Seq<char>,
    inner: Seq<char>,
    after: Seq<char>,
    tight: bool,
)
    requires
        !before.contains('['),
        !inner.contains(']'),
        tags::is_short_call(inner),
    ensures
        ({
            let s = before.push('[') + (inner.push(']') + after);
            let head = if tight {
                text::trim_end(before)
            } else {
                before
            };
            &&& tags::short_calls(s, 0, tight).0 == tags::short_calls(head + after, 0, tight).0
            &&& tags::short_calls(s, 0, tight).1 == seq![
                (encode_utf8(before).len() as int, tags::call_of(inner)),
            ] + tags::short_calls(head + after, 0, tight).1
        }),
{
    let s = before.push('[') + (inner.push(']') + after);
    let at = before.len() as int;
    let end = at + 1 + inner.len();
    assert forall|k: int| 0 <= k < before.len() implies #[trigger] before[k] != '[' by {
        assert(before.contains(before[k]));
    }
    text_laws::lemma_find_char_first(before, '[', inner.push(']') + after, 0);
    let head = before.push('[') + inner;
    assert(s =~= head.push(']') + after);
    assert forall|k: int| at <= k < head.len() implies #[trigger] head[k] != ']' by {
        if k > at {
            assert(head[k] == inner[k - at - 1]);
            assert(inner.contains(inner[k - at - 1]));
        }
    }
    text_laws::lemma_find_char_first(head, ']', after, at);
    assert(s.subrange(at + 1, end) =~= inner);
    assert(s.take(at) =~= before);
    assert(s.skip(end + 1) =~= after);
}

/// A bracket that holds no call stays, and the search goes on behind it.
pub proof fn lemma_bracket_stays(
    before: Seq<char>,
    inner: Seq<char>,
    after: Seq<char>,
    from: int,
    tight: bool,
)
    requires
        0 <= from <= before.len(),
        forall|k: int| from <= k < before.len() ==> #[trigger] before[k] != '[',
        !inner.contains(']'),
        !tags::is_short_call(inner),
    ensures
        ({
            let s = before.push('[') + (inner.push(']') + after);
            tags::short_calls(s, from, tight) == tags::short_calls(s, before.len() as int + 1, tight)
        }),
{
    let s = before.push('[') + (inner.push(']') + after);
    let at = before.len() as int;
    text_laws::lemma_find_char_first(before, '[', inner.push(']') + after, from);
    let head = before.push('[') + inner;
    assert(s =~= head.push(']') + after);
    assert forall|k: int| at <= k < head.len() implies #[trigger] head[k] != ']' by {
        if k > at {
            assert(head[k] == inner[k - at - 1]);
            assert(inner.contains(inner[k - at - 1]));
        }
    }
    text_laws::lemma_find_char_first(head, ']', after, at);
    assert(s.subrange(at + 1, at + 1 + inner.len()) =~= inner);
}

/// A reply put together of `plains[0]`, a bracket that holds `inners[0]`,
/// `plains[1]` and so on.
pub open spec fn with_brackets(plains: Seq<Seq<char>>, inners: Seq<Seq<char>>) -> Seq<char>
    decreases inners.len(),
{
    if inners.len() == 0 {
        plains[0]
    } else {
        plains[0].push('[') + (inners[0].push(']') + with_brackets(
            plains.drop_first(),
            inners.drop_first(),
        ))
    }
}

proof fn lemma_first_piece(plains: Seq<Seq<char>>, inners: Seq<Seq<char>>, first: Seq<char>)
    requires
        plains.len() == inners.len() + 1,
    ensures
        with_brackets(plains.update(0, first + plains[0]), inners) == first + with_brackets(
            plains,
            inners,
        ),
{
    let more = plains.update(0, first + plains[0]);
    if inners.len() > 0 {
        assert(more.drop_first() =~= plains.drop_first());
        assert(with_brackets(more, inners) =~= first + with_brackets(plains, inners));
    }
}

/// A row of pieces begins with the first one.
proof fn lemma_row_front(pieces: Seq<Seq<char>>)
    requires
        pieces.len() > 0,
    ensures
        in_a_row(pieces) == pieces[0] + in_a_row(pieces.drop_first()),
    decreases pieces.len(),
{
    if pieces.len() == 1 {
        reveal_with_fuel(in_a_row, 2);
        assert(in_a_row(pieces) =~= pieces[0] + in_a_row(pieces.drop_first()));
    } else {
        lemma_row_front(pieces.drop_last());
        assert(pieces.drop_last().drop_first() =~= pieces.drop_first().drop_last());
        assert(in_a_row(pieces) =~= pieces[0] + in_a_row(pieces.drop_first()));
    }
}

/// The short calls of a reply are found from left to right.
proof fn lemma_short_calls_of_pieces(plains: Seq<Seq<char>>, inners: Seq<Seq<char>>)
    requires
        plain_pieces(plains, inners),
        forall|i: int| 0 <= i < inners.len() ==> tags::is_short_call(#[trigger] inners[i]),
    ensures
        ({
            let (rest, calls) = tags::short_calls(with_brackets(plains, inners), 0, false);
            &&& rest == in_a_row(plains)
            &&& calls.len() == inners.len()
            &&& forall|i: int|
                0 <= i < inners.len() ==> (#[trigger] calls[i]).1 == tags::call_of(inners[i])
            &&& forall|i: int, j: int|
                0 <= i < j < calls.len() ==> (#[trigger] calls[i]).0 <= (#[trigger] calls[j]).0
            &&& forall|i: int|
                0 <= i < calls.len() ==> (#[trigger] calls[i]).0 >= encode_utf8(plains[0]).len()
        }),
    decreases inners.len(),
{
    let s = with_brackets(plains, inners);
    assert(!plains[0].contains('['));
    if inners.len() == 0 {
        lemma_no_bracket_no_call(plains[0], false);
        reveal_with_fuel(in_a_row, 2);
        assert(in_a_row(plains) =~= plains[0]);
    } else {
        let after = with_brackets(plains.drop_first(), inners.drop_first());
        let joined = plains[0] + plains[1];
        let fewer = plains.drop_first().update(0, joined);
        let rest_inners = inners.drop_first();
        assert(!inners[0].contains(']'));
        lemma_first_short_call(plains[0], inners[0], after, false);
        assert(plains.drop_first()[0] == plains[1]);
        lemma_first_piece(plains.drop_first(), rest_inners, plains[0]);
        assert forall|i: int| 0 <= i < fewer.len() implies !(#[trigger] fewer[i]).contains('[') by {
            if i == 0 {
                assert forall|k: int| 0 <= k < joined.len() implies joined[k] != '[' by {
                    if k < plains[0].len() {
                        assert(plains[0].contains(plains[0][k]));
                    } else {
                        assert(!plains[1].contains('['));
                        assert(plains[1].contains(plains[1][k - plains[0].len()]));
                    }
                }
            } else {
                assert(fewer[i] == plains[i + 1]);
            }
        }
        assert forall|i: int| 0 <= i < rest_inners.len() implies !(
        #[trigger] rest_inners[i]).contains('[') && !rest_inners[i].contains(']')
            && tags::is_short_call(rest_inners[i]) by {
            assert(rest_inners[i] == inners[i + 1]);
        }
        lemma_short_calls_of_pieces(fewer, rest_inners);
        let calls = tags::short_calls(s, 0, false).1;
        let calls2 = tags::short_calls(plains[0] + after, 0, false).1;
        lemma_row_front(plains);
        lemma_row_front(fewer);
        lemma_row_front(plains.drop_first());
        assert(fewer.drop_first() =~= plains.drop_first().drop_first());
        assert(in_a_row(fewer) =~= in_a_row(plains));
        lemma_encoded_len(plains[0], plains[1]);
        assert forall|i: int| 0 <= i < inners.len() implies (#[trigger] calls[i]).1
            == tags::call_of(inners[i]) by {
            if i > 0 {
                assert(calls[i] == calls2[i - 1]);
                assert(rest_inners[i - 1] == inners[i]);
            }
        }
        assert forall|i: int| 0 <= i < calls.len() implies (#[trigger] calls[i]).0 >= encode_utf8(
            plains[0],
        ).len() by {
            if i > 0 {
                assert(calls[i] == calls2[i - 1]);
            }
        }
        assert forall|i: int, j: int| 0 <= i < j < calls.len() implies (#[trigger] calls[i]).0 <= (
        #[trigger] calls[j]).0 by {
            assert(calls[j] == calls2[j - 1]);
            if i > 0 {
                assert(calls[i] == calls2[i - 1]);
            }
        }
    }
}

/// A reply with short tags makes the calls that stand in them, all of them and in
/// their order, and the text between the tags is left, in its order.
pub proof fn lemma_reply_with_short_tags(plains: Seq<Seq<char>>, inners: Seq<Seq<char>>)
    requires
        plain_pieces(plains, inners),
        forall|i: int| 0 <= i < inners.len() ==> tags::is_short_call(#[trigger] inners[i]),
        text_laws::absent(with_brackets(plains, inners), "[TOOL_CALL:"@),
    ensures
        tags::tool_calls_of(with_brackets(plains, inners)).0 == text::trim(in_a_row(plains)),
        tags::tool_calls_of(with_brackets(plains, inners)).1.len() == inners.len(),
        forall|i: int|
            0 <= i < inners.len() ==> (#[trigger] tags::tool_calls_of(
                with_brackets(plains, inners),
            ).1[i]) == tags::call_of(inners[i]),
{
    let s = with_brackets(plains, inners);
    text::lemma_rfind_bounds(s, "[TOOL_CALL:"@, s.len() as int);
    if let Some(at) = text::rfind(s, "[TOOL_CALL:"@, s.len() as int) {
        assert(s.subrange(at, at + "[TOOL_CALL:"@.len()) == "[TOOL_CALL:"@);
    }
    lemma_short_calls_of_pieces(plains, inners);
    let calls = tags::short_calls(s, 0, false).1;
    assert(Seq::<(int, CallView)>::empty() + calls =~= calls);
    lemma_rising_offsets(calls);
}

/// What is left of a reply without its tool calls stood in it, in this order.
pub proof fn lemma_calls_leave_subsequence(s: Seq<char>)
    ensures
        text_laws::subsequence(tags::tool_calls_of(s).0, s),
        text_laws::subsequence(telegram_text::tool_calls_of(s).0, s),
{
    lemma_found_leaves_subsequence(s, false);
    lemma_found_leaves_subsequence(s, true);
    let a = tags::found_calls(s, false).0;
    text_laws::lemma_trim_subsequence(a);
    text_laws::lemma_subsequence_through(text::trim(a), a, s);
    let b = tags::found_calls(s, true).0;
    text_laws::lemma_trim_subsequence(b);
    text_laws::lemma_subsequence_through(text::trim(b), b, s);
}

proof fn lemma_found_leaves_subsequence(s: Seq<char>, tight: bool)
    ensures
        text_laws::subsequence(tags::found_calls(s, tight).0, s),
{
    lemma_explicit_leaves_subsequence(s, tight);
    let middle = tags::explicit_calls(s, tight).0;
    lemma_short_leaves_subsequence(middle, 0, tight);
    text_laws::lemma_subsequence_through(tags::found_calls(s, tight).0, middle, s);
}

proof fn lemma_cut_subsequence(s: Seq<char>, from: int, to: int, tight: bool)
    requires
        0 <= from <= to <= s.len(),
    ensures
        text_laws::subsequence(tags::cut(s, from, to, tight), s),
        tags::cut(s, from, to, tight).len() <= s.len() - (to - from),
{
    let head = s.take(from);
    let tail = s.skip(to);
    text::lemma_trim_end_len(head);
    text_laws::lemma_trim_subsequence(head);
    text_laws::lemma_subsequence_same(head);
    text_laws::lemma_subsequence_part(s.skip(from), to - from, s.len() - from);
    assert(s.skip(from).subrange(to - from, s.len() - from) =~= tail);
    text_laws::lemma_subsequence_sum(
        if tight {
            text::trim_end(head)
        } else {
            head
        },
        head,
        tail,
        s.skip(from),
    );
    assert(head + s.skip(from) =~= s);
}

proof fn lemma_explicit_leaves_subsequence(s: Seq<char>, tight: bool)
    ensures
        text_laws::subsequence(tags::explicit_calls(s, tight).0, s),
    decreases s.len(),
{
    text_laws::lemma_subsequence_same(s);
    if let Some(start) = text::rfind(s, "[TOOL_CALL:"@, s.len() as int) {
        text::lemma_rfind_bounds(s, "[TOOL_CALL:"@, s.len() as int);
        text::lemma_find_char_bounds(s, ']', start);
        if let Some(end) = text::find_char(s, ']', start) {
            lemma_cut_subsequence(s, start, end + 1, tight);
            let next = tags::cut(s, start, end + 1, tight);
            lemma_explicit_leaves_subsequence(next, tight);
            text_laws::lemma_subsequence_through(tags::explicit_calls(s, tight).0, next, s);
        }
    }
}

proof fn lemma_short_leaves_subsequence(s: Seq<char>, from: int, tight: bool)
    requires
        0 <= from,
    ensures
        text_laws::subsequence(tags::short_calls(s, from, tight).0, s),
    decreases s.len(), s.len() - from,
{
    text_laws::lemma_subsequence_same(s);
    text::lemma_find_char_bounds(s, '[', from);
    if let Some(start) = text::find_char(s, '[', from) {
        text::lemma_find_char_bounds(s, ']', start);
        if let Some(end) = text::find_char(s, ']', start) {
            let inner = s.subrange(start + 1, end);
            if tags::is_short_call(inner) {
                lemma_cut_subsequence(s, start, end + 1, tight);
                let next = tags::cut(s, start, end + 1, tight);
                lemma_short_leaves_subsequence(next, from, tight);
                text_laws::lemma_subsequence_through(
                    tags::short_calls(s, from, tight).0,
                    next,
                    s,
                );
            } else {
                lemma_short_leaves_subsequence(s, start + 1, tight);
            }
        }
    }
}

proof fn lemma_no_explicit_call(s: Seq<char>, tight: bool)
    requires
        text_laws::absent(s, "[TOOL_CALL:"@),
    ensures
        tags::explicit_calls(s, tight) == (s, Seq::<(int, CallView)>::empty()),
{
    text::lemma_rfind_bounds(s, "[TOOL_CALL:"@, s.len() as int);
    if let Some(at) = text::rfind(s, "[TOOL_CALL:"@, s.len() as int) {
        assert(s.subrange(at, at + "[TOOL_CALL:"@.len()) == "[TOOL_CALL:"@);
    }
}

proof fn lemma_sum_without_bracket(a: Seq<char>, b: Seq<char>)
    requires
        !a.contains('['),
        !b.contains('['),
    ensures
        !(a + b).contains('['),
{
    assert forall|k: int| 0 <= k < (a + b).len() implies (a + b)[k] != '[' by {
        if k < a.len() {
            assert(a.contains(a[k]));
        } else {
            assert(b.contains(b[k - a.len()]));
        }
    }
}

/// A reply with a short tag and an explicit one behind it makes both calls, in this
/// order.
pub proof fn lemma_short_before_explicit(
    a: Seq<char>,
    short: Seq<char>,
    b: Seq<char>,
    explicit: Seq<char>,
    c: Seq<char>,
)
    requires
        !a.contains('['),
        !b.contains('['),
        !c.contains('['),
        !short.contains(']'),
        tags::is_short_call(short),
        !explicit.contains('['),
        !explicit.contains(']'),
        text_laws::absent(a.push('[') + (short.push(']') + (b + c)), "[TOOL_CALL:"@),
    ensures
        tags::tool_calls_of(
            (a.push('[') + (short.push(']') + b)) + ("[TOOL_CALL:"@ + explicit.push(']')) + c,
        ) == (text::trim(a + (b + c)), seq![tags::call_of(short), tags::call_of(explicit)]),
{
    let before = a.push('[') + (short.push(']') + b);
    let s = before + ("[TOOL_CALL:"@ + explicit.push(']')) + c;
    let middle = a.push('[') + (short.push(']') + (b + c));
    lemma_last_explicit_call(before, explicit, c, false);
    assert(before + c =~= middle);
    lemma_no_explicit_call(middle, false);
    lemma_first_short_call(a, short, b + c, false);
    lemma_sum_without_bracket(b, c);
    lemma_sum_without_bracket(a, b + c);
    lemma_no_bracket_no_call(a + (b + c), false);
    let one = (encode_utf8(before).len() as int, tags::call_of(explicit));
    let two = (encode_utf8(a).len() as int, tags::call_of(short));
    let found = tags::found_calls(s, false).1;
    assert(found =~= seq![one, two]);
    lemma_encoded_len(a, seq!['['] + (short.push(']') + b));
    assert(before =~= a + (seq!['['] + (short.push(']') + b)));
    lemma_falling_offsets(found);
    assert(tags::tool_calls_of(s).1 =~= seq![tags::call_of(short), tags::call_of(explicit)]);
}

proof fn lemma_explicit_before(before: Seq<char>, inner: Seq<char>, after: Seq<char>)
    requires
        !inner.contains('['),
        !inner.contains(']'),
        text_laws::absent(after, "[TOOL_CALL:"@),
    ensures
        ({
            let s = before + ("[TOOL_CALL:"@ + inner.push(']')) + after;
            &&& tags::explicit_calls(s, false).0 == tags::explicit_calls(before + after, false).0
            &&& tags::explicit_calls(s, false).1 == seq![
                (encode_utf8(before).len() as int, tags::call_of(inner)),
            ] + tags::explicit_calls(before + after, false).1
        }),
{
    let pat = "[TOOL_CALL:"@;
    let s = before + (pat + inner.push(']')) + after;
    let at = before.len() as int;
    let n = pat.len() as int;
    let end = at + n + inner.len();
    lemma_opening();
    assert(s.subrange(at, at + n) =~= pat);
    assert forall|k: int| at < k < s.len() implies !#[trigger] text::matches_at(s, pat, k) by {
        if text::matches_at(s, pat, k) {
            assert(s.subrange(k, k + n)[0] == s[k]);
            if k < at + n {
                assert(s[k] == pat[k - at]);
            } else if k < end {
                assert(s[k] == inner[k - at - n]);
                assert(inner.contains(inner[k - at - n]));
            } else if k > end {
                let j = k - end - 1;
                assert(after.subrange(j, j + n) =~= s.subrange(k, k + n));
            }
        }
    }
    text_laws::lemma_rfind_last(s, pat, at, s.len() as int);
    lemma_tag_end(before, pat, inner, after, ']');
    assert(s.take(at) =~= before);
    assert(s.skip(end + 1) =~= after);
    assert(s.subrange(at + n, end) =~= inner);
}

/// A reply with an explicit tag and a short one behind it makes both calls, in this
/// order.
pub proof fn lemma_explicit_before_short(
    a: Seq<char>,
    explicit: Seq<char>,
    b: Seq<char>,
    short: Seq<char>,
    c: Seq<char>,
)
    requires
        !a.contains('['),
        !b.contains('['),
        !c.contains('['),
        !short.contains(']'),
        tags::is_short_call(short),
        !explicit.contains('['),
        !explicit.contains(']'),
        text_laws::absent((a + b).push('[') + (short.push(']') + c), "[TOOL_CALL:"@),
    ensures
        tags::tool_calls_of(
            a + ("[TOOL_CALL:"@ + explicit.push(']')) + (b.push('[') + (short.push(']') + c)),
        ) == (text::trim(a + b + c), seq![tags::call_of(explicit), tags::call_of(short)]),
{
    let pat = "[TOOL_CALL:"@;
    let behind = b.push('[') + (short.push(']') + c);
    let s = a + (pat + explicit.push(']')) + behind;
    let middle = (a + b).push('[') + (short.push(']') + c);
    assert(a + behind =~= middle);
    assert forall|k: int| 0 <= k && k + pat.len() <= behind.len() implies #[trigger] behind.subrange(
        k,
        k + pat.len(),
    ) != pat by {
        let j = k + a.len();
        assert(middle.subrange(j, j + pat.len()) =~= behind.subrange(k, k + pat.len()));
    }
    lemma_explicit_before(a, explicit, behind);
    lemma_no_explicit_call(middle, false);
    lemma_sum_without_bracket(a, b);
    lemma_first_short_call(a + b, short, c, false);
    lemma_sum_without_bracket(a + b, c);
    lemma_no_bracket_no_call(a + b + c, false);
    let one = (encode_utf8(a).len() as int, tags::call_of(explicit));
    let two = (encode_utf8(a + b).len() as int, tags::call_of(short));
    let found = tags::found_calls(s, false).1;
    assert(found =~= seq![one, two]);
    lemma_encoded_len(a, b);
    lemma_rising_offsets(found);
    assert(tags::tool_calls_of(s).1 =~= seq![tags::call_of(explicit), tags::call_of(short)]);
}

} // verus!
