//! Text as sequences of characters: trimming, searching, splitting and joining.
//!
//! Positions are counted in characters. The specification functions work on
//! `Seq<char>`, the view of `str` and `String`.

use vstd::prelude::*;

verus! {

broadcast use vstd::string::group_string_axioms;

/// `String::push` appends one character at the end.
pub assume_specification[ std::string::String::push ](string: &mut std::string::String, ch: char)
    ensures
        final(string)@ == old(string)@.push(ch),
;

/// The characters with the Unicode property White_Space.
pub open spec fn white(c: char) -> bool {
    let u = c as u32;
    ||| 0x9 <= u <= 0xd
    ||| u == 0x20
    ||| u == 0x85
    ||| u == 0xa0
    ||| u == 0x1680
    ||| 0x2000 <= u <= 0x200a
    ||| u == 0x2028
    ||| u == 0x2029
    ||| u == 0x202f
    ||| u == 0x205f
    ||| u == 0x3000
}

/// `s` without its leading white space.
pub open spec fn trim_start(s: Seq<char>) -> Seq<char>
    decreases s.len(),
{
    if s.len() > 0 && white(s[0]) {
        trim_start(s.drop_first())
    } else {
        s
    }
}

/// `s` without its trailing white space.
pub open spec fn trim_end(s: Seq<char>) -> Seq<char>
    decreases s.len(),
{
    if s.len() > 0 && white(s.last()) {
        trim_end(s.drop_last())
    } else {
        s
    }
}

/// `s` without white space at either end.
pub open spec fn trim(s: Seq<char>) -> Seq<char> {
    trim_end(trim_start(s))
}

/// Nothing but white space.
pub open spec fn blank(s: Seq<char>) -> bool {
    trim(s).len() == 0
}

/// `pat` stands in `s` at position `at`.
pub open spec fn matches_at(s: Seq<char>, pat: Seq<char>, at: int) -> bool {
    0 <= at && at + pat.len() <= s.len() && s.subrange(at, at + pat.len()) == pat
}

/// The first position at or after `from` where `pat` stands in `s`.
pub open spec fn find(s: Seq<char>, pat: Seq<char>, from: int) -> Option<int>
    decreases s.len() + 1 - from,
{
    if from < 0 || from + pat.len() > s.len() {
        None
    } else if matches_at(s, pat, from) {
        Some(from)
    } else {
        find(s, pat, from + 1)
    }
}

/// The last position before `end` where `pat` stands in `s`.
pub open spec fn rfind(s: Seq<char>, pat: Seq<char>, end: int) -> Option<int>
    decreases end,
{
    if end <= 0 {
        None
    } else if matches_at(s, pat, end - 1) {
        Some(end - 1)
    } else {
        rfind(s, pat, end - 1)
    }
}

/// The first position at or after `from` of the character `c` in `s`.
pub open spec fn find_char(s: Seq<char>, c: char, from: int) -> Option<int>
    decreases s.len() - from,
{
    if from < 0 || from >= s.len() {
        None
    } else if s[from] == c {
        Some(from)
    } else {
        find_char(s, c, from + 1)
    }
}

pub open spec fn starts_with(s: Seq<char>, pat: Seq<char>) -> bool {
    matches_at(s, pat, 0)
}

pub open spec fn ends_with(s: Seq<char>, pat: Seq<char>) -> bool {
    matches_at(s, pat, s.len() - pat.len())
}

pub open spec fn contains(s: Seq<char>, pat: Seq<char>) -> bool {
    exists|at: int| matches_at(s, pat, at)
}

/// `c` with `A` to `Z` mapped to `a` to `z`.
pub open spec fn lower_char(c: char) -> char {
    if 'A' <= c <= 'Z' {
        ((c as u8 + 32) as u8) as char
    } else {
        c
    }
}

/// `s` with every character mapped by `lower_char`.
pub open spec fn lower(s: Seq<char>) -> Seq<char> {
    s.map_values(|c: char| lower_char(c))
}

/// The pieces between the occurrences of `sep`; always at least one.
pub open spec fn split(s: Seq<char>, sep: char) -> Seq<Seq<char>>
    decreases s.len(),
{
    match find_char(s, sep, 0) {
        Some(at) if 0 <= at < s.len() => seq![s.take(at)] + split(s.skip(at + 1), sep),
        _ => seq![s],
    }
}

/// `s` without one carriage return at its end.
pub open spec fn strip_cr(s: Seq<char>) -> Seq<char> {
    if s.len() > 0 && s.last() == '\r' {
        s.drop_last()
    } else {
        s
    }
}

/// The lines of `s`, each ended by a line feed, a carriage return and a line
/// feed, or the end of the text; an empty last line is not one.
pub open spec fn lines(s: Seq<char>) -> Seq<Seq<char>>
    decreases s.len(),
{
    if s.len() == 0 {
        Seq::empty()
    } else {
        match find_char(s, '\n', 0) {
            Some(at) if 0 <= at < s.len() => seq![strip_cr(s.take(at))] + lines(s.skip(at + 1)),
            _ => seq![s],
        }
    }
}

/// The pieces of `parts` with `sep` between each two neighbours.
pub open spec fn join(parts: Seq<Seq<char>>, sep: Seq<char>) -> Seq<char>
    decreases parts.len(),
{
    if parts.len() == 0 {
        Seq::empty()
    } else if parts.len() == 1 {
        parts[0]
    } else {
        join(parts.drop_last(), sep) + sep + parts.last()
    }
}

/// The decimal digit of a number below 10.
pub open spec fn digit(n: nat) -> char {
    (('0' as u32 + n) as u32) as char
}

/// The decimal digits of `n`.
pub open spec fn decimal(n: nat) -> Seq<char>
    decreases n,
{
    if n < 10 {
        seq![digit(n)]
    } else {
        decimal(n / 10).push(digit(n % 10))
    }
}

/// The decimal digits of `n`, with a minus sign where it is negative.
pub open spec fn signed_decimal(n: int) -> Seq<char> {
    if n < 0 {
        "-"@ + decimal((-n) as nat)
    } else {
        decimal(n as nat)
    }
}

/// `a` comes before `b` in a dictionary, or is the same.
pub open spec fn text_le(a: Seq<char>, b: Seq<char>) -> bool
    decreases a.len(),
{
    if a.len() == 0 {
        true
    } else if b.len() == 0 {
        false
    } else if a[0] != b[0] {
        a[0] < b[0]
    } else {
        text_le(a.drop_first(), b.drop_first())
    }
}

/// The views of a sequence of strings.
pub open spec fn views(v: Seq<String>) -> Seq<Seq<char>> {
    v.map_values(|s: String| s@)
}

/// The view of an optional string.
pub open spec fn opt_view(v: Option<String>) -> Option<Seq<char>> {
    match v {
        Some(s) => Some(s@),
        None => None,
    }
}

/// The view of an optional string slice.
pub open spec fn opt_str(v: Option<&str>) -> Option<Seq<char>> {
    match v {
        Some(s) => Some(s@),
        None => None,
    }
}

/// What is found is the first place where the pattern stands.
pub proof fn lemma_find_bounds(s: Seq<char>, pat: Seq<char>, from: int)
    ensures
        find(s, pat, from) matches Some(at) ==> {
            &&& from <= at
            &&& matches_at(s, pat, at)
            &&& forall|k: int| from <= k < at ==> !#[trigger] matches_at(s, pat, k)
        },
        find(s, pat, from) is None && from >= 0 ==> forall|k: int|
            from <= k ==> !#[trigger] matches_at(s, pat, k),
    decreases s.len() + 1 - from,
{
    if from < 0 || from + pat.len() > s.len() {
    } else if matches_at(s, pat, from) {
    } else {
        lemma_find_bounds(s, pat, from + 1);
    }
}

/// What is found is the first place of the character.
pub proof fn lemma_find_char_bounds(s: Seq<char>, c: char, from: int)
    ensures
        find_char(s, c, from) matches Some(at) ==> {
            &&& from <= at < s.len()
            &&& s[at] == c
            &&& forall|k: int| from <= k < at ==> s[k] != c
        },
        find_char(s, c, from) is None && from >= 0 ==> forall|k: int|
            from <= k < s.len() ==> s[k] != c,
    decreases s.len() - from,
{
    if from < 0 || from >= s.len() {
    } else if s[from] == c {
    } else {
        lemma_find_char_bounds(s, c, from + 1);
    }
}

/// What is found is a place where the pattern stands.
pub proof fn lemma_rfind_bounds(s: Seq<char>, pat: Seq<char>, end: int)
    ensures
        rfind(s, pat, end) matches Some(at) ==> 0 <= at < end && matches_at(s, pat, at),
        rfind(s, pat, end) is None ==> forall|k: int|
            0 <= k < end ==> !#[trigger] matches_at(s, pat, k),
    decreases end,
{
    if end <= 0 {
    } else if matches_at(s, pat, end - 1) {
    } else {
        lemma_rfind_bounds(s, pat, end - 1);
    }
}

/// A pattern whose first character does not occur is not found.
pub proof fn lemma_absent(s: Seq<char>, pat: Seq<char>, end: int)
    requires
        pat.len() > 0,
        !s.contains(pat[0]),
    ensures
        find(s, pat, 0) is None,
        rfind(s, pat, end) is None,
{
    lemma_find_bounds(s, pat, 0);
    lemma_rfind_bounds(s, pat, end);
    assert forall|at: int| !#[trigger] matches_at(s, pat, at) by {
        if matches_at(s, pat, at) {
            assert(s.subrange(at, at + pat.len())[0] == s[at]);
        }
    }
}

/// Trimming brings in no character.
pub proof fn lemma_trim_brings_nothing(s: Seq<char>, c: char)
    requires
        !s.contains(c),
    ensures
        !trim(s).contains(c),
{
    lemma_trim_start_len(s);
    lemma_trim_end_len(trim_start(s));
    if trim(s).contains(c) {
        let i = trim(s).index_of(c);
        assert(trim(s)[i] == trim_start(s)[i]);
        assert(trim_start(s)[i] == s[i + s.len() - trim_start(s).len()]);
    }
}

/// Trimming the start leaves an end of the text.
pub proof fn lemma_trim_start_len(s: Seq<char>)
    ensures
        trim_start(s).len() <= s.len(),
        trim_start(s) == s.skip(s.len() - trim_start(s).len()),
        trim_start(s).len() > 0 ==> !white(trim_start(s)[0]),
    decreases s.len(),
{
    if s.len() > 0 && white(s[0]) {
        lemma_trim_start_len(s.drop_first());
        assert(trim_start(s) =~= s.skip(s.len() - trim_start(s).len()));
    } else {
        assert(s =~= s.skip(0));
    }
}

/// Trimming the end leaves a beginning of the text.
pub proof fn lemma_trim_end_len(s: Seq<char>)
    ensures
        trim_end(s).len() <= s.len(),
        trim_end(s) == s.take(trim_end(s).len() as int),
        trim_end(s).len() > 0 ==> !white(trim_end(s).last()),
    decreases s.len(),
{
    if s.len() > 0 && white(s.last()) {
        lemma_trim_end_len(s.drop_last());
        assert(trim_end(s) =~= s.take(trim_end(s).len() as int));
    } else {
        assert(s =~= s.take(s.len() as int));
    }
}

/// Trimmed text neither starts nor ends with white space.
pub proof fn lemma_trim_ends(s: Seq<char>)
    ensures
        trim(s).len() <= s.len(),
        trim(s).len() > 0 ==> !white(trim(s)[0]) && !white(trim(s).last()),
{
    lemma_trim_start_len(s);
    lemma_trim_end_len(trim_start(s));
}

/// Trimming twice is trimming once.
pub proof fn lemma_trim_idempotent(s: Seq<char>)
    ensures
        trim(trim(s)) == trim(s),
{
    lemma_trim_ends(s);
}

/// Text without white space at either end is what trimming leaves unchanged.
pub proof fn lemma_trim_fixed(s: Seq<char>)
    requires
        s.len() == 0 || (!white(s[0]) && !white(s.last())),
    ensures
        trim(s) == s,
{
}

/// The characters of `text`, in order.
pub fn to_chars(text: &str) -> (chars: Vec<char>)
    ensures
        chars@ == text@,
{
    let mut chars: Vec<char> = Vec::new();
    for c in it: text.chars()
        invariant
            chars@ == it.seq().take(it.index() as int),
            it.seq() == text@,
    {
        chars.push(c);
    }
    chars
}

/// The text made of `chars[from..to]`.
pub fn from_chars(chars: &Vec<char>, from: usize, to: usize) -> (text: String)
    requires
        from <= to <= chars.len(),
    ensures
        text@ == chars@.subrange(from as int, to as int),
{
    let mut text = String::new();
    let mut i: usize = from;
    while i < to
        invariant
            from <= i <= to <= chars.len(),
            text@ == chars@.subrange(from as int, i as int),
        decreases to - i,
    {
        text.push(chars[i]);
        assert(chars@.subrange(from as int, i + 1) =~= chars@.subrange(from as int, i as int).push(
            chars@[i as int],
        ));
        i += 1;
    }
    text
}

/// The number of characters of `text`.
pub fn char_count(text: &str) -> (n: usize)
    ensures
        n == text@.len(),
{
    text.unicode_len()
}

/// Tests for the Unicode property White_Space.
pub fn is_white(c: char) -> (b: bool)
    ensures
        b == white(c),
{
    let u: u32 = c as u32;
    (0x9 <= u && u <= 0xd) || u == 0x20 || u == 0x85 || u == 0xa0 || u == 0x1680 || (0x2000 <= u
        && u <= 0x200a) || u == 0x2028 || u == 0x2029 || u == 0x202f || u == 0x205f || u == 0x3000
}

/// Where the text of `chars[from..to]` starts once trimmed.
fn skip_white(chars: &Vec<char>) -> (at: usize)
    ensures
        at <= chars.len(),
        chars@.skip(at as int) == trim_start(chars@),
{
    let mut at: usize = 0;
    assert(chars@.skip(0) =~= chars@);
    while at < chars.len() && is_white(chars[at])
        invariant
            at <= chars.len(),
            trim_start(chars@.skip(at as int)) == trim_start(chars@),
        decreases chars.len() - at,
    {
        assert(chars@.skip(at as int).drop_first() =~= chars@.skip(at + 1));
        at += 1;
    }
    at
}

pub fn trim_start_text(text: &str) -> (r: String)
    ensures
        r@ == trim_start(text@),
{
    let chars = to_chars(text);
    let at = skip_white(&chars);
    from_chars(&chars, at, chars.len())
}

pub fn trim_end_text(text: &str) -> (r: String)
    ensures
        r@ == trim_end(text@),
{
    let chars = to_chars(text);
    let mut end: usize = chars.len();
    assert(chars@.take(end as int) =~= chars@);
    while end > 0 && is_white(chars[end - 1])
        invariant
            end <= chars.len(),
            trim_end(chars@.take(end as int)) == trim_end(chars@),
        decreases end,
    {
        assert(chars@.take(end as int).drop_last() =~= chars@.take(end - 1));
        end -= 1;
    }
    assert(chars@.take(end as int) =~= chars@.subrange(0, end as int));
    from_chars(&chars, 0, end)
}

pub fn trim_text(text: &str) -> (r: String)
    ensures
        r@ == trim(text@),
{
    let start = trim_start_text(text);
    trim_end_text(start.as_str())
}

/// The part of `text` that trimming leaves.
pub fn trim_slice(text: &str) -> (r: &str)
    ensures
        r@ == trim(text@),
{
    let chars = to_chars(text);
    let start = skip_white(&chars);
    let mut end: usize = chars.len();
    let ghost inner = chars@.skip(start as int);
    assert(inner.take(end - start) =~= inner);
    while end > start && is_white(chars[end - 1])
        invariant
            start <= end <= chars.len(),
            inner == chars@.skip(start as int),
            trim_end(inner.take(end - start)) == trim_end(inner),
        decreases end,
    {
        assert(inner.take(end - start).last() == chars@[end - 1]);
        assert(inner.take(end - start).drop_last() =~= inner.take(end - 1 - start));
        end -= 1;
    }
    assert(inner.take(end - start) =~= text@.subrange(start as int, end as int));
    assert(end > start ==> inner.take(end - start).last() == chars@[end - 1]);
    text.substring_char(start, end)
}

pub fn is_blank(text: &str) -> (b: bool)
    ensures
        b == blank(text@),
{
    trim_text(text).as_str().is_empty()
}

fn chars_match_at(chars: &Vec<char>, pat: &Vec<char>, at: usize) -> (b: bool)
    ensures
        b == matches_at(chars@, pat@, at as int),
{
    if at > chars.len() || pat.len() > chars.len() - at {
        return false;
    }
    let mut i: usize = 0;
    while i < pat.len()
        invariant
            i <= pat.len(),
            at + pat.len() <= chars.len(),
            forall|k: int| 0 <= k < i ==> chars@[at + k] == pat@[k],
        decreases pat.len() - i,
    {
        if chars[at + i] != pat[i] {
            assert(chars@.subrange(at as int, at + pat.len())[i as int] != pat@[i as int]);
            return false;
        }
        i += 1;
    }
    assert(chars@.subrange(at as int, at + pat.len()) =~= pat@);
    true
}

/// The first position at or after `from` where `pat` stands in `text`.
pub fn find_text(text: &str, pat: &str, from: usize) -> (r: Option<usize>)
    ensures
        match r {
            Some(at) => find(text@, pat@, from as int) == Some(at as int),
            None => find(text@, pat@, from as int) is None,
        },
        text@.len() <= usize::MAX,
{
    let chars = to_chars(text);
    let pat_chars = to_chars(pat);
    let mut at: usize = from;
    while at <= chars.len() && pat_chars.len() <= chars.len() - at
        invariant
            chars@ == text@,
            pat_chars@ == pat@,
            find(text@, pat@, from as int) == find(text@, pat@, at as int),
        decreases chars.len() + 1 - at,
    {
        if chars_match_at(&chars, &pat_chars, at) {
            return Some(at);
        }
        if at == chars.len() {
            assert(find(text@, pat@, at + 1) is None);
            return None;
        }
        at += 1;
    }
    None
}

/// The last position where `pat` stands in `text`.
pub fn rfind_text(text: &str, pat: &str) -> (r: Option<usize>)
    ensures
        match r {
            Some(at) => rfind(text@, pat@, text@.len() as int) == Some(at as int),
            None => rfind(text@, pat@, text@.len() as int) is None,
        },
        text@.len() <= usize::MAX,
{
    let chars = to_chars(text);
    let pat_chars = to_chars(pat);
    let mut end: usize = chars.len();
    while end > 0
        invariant
            chars@ == text@,
            pat_chars@ == pat@,
            end <= chars.len(),
            rfind(text@, pat@, text@.len() as int) == rfind(text@, pat@, end as int),
        decreases end,
    {
        if chars_match_at(&chars, &pat_chars, end - 1) {
            return Some(end - 1);
        }
        end -= 1;
    }
    None
}

/// A character is found exactly where the text contains it.
pub proof fn lemma_find_char_contains(s: Seq<char>, c: char)
    ensures
        find_char(s, c, 0) is Some <==> s.contains(c),
{
    lemma_find_char_bounds(s, c, 0);
    if s.contains(c) {
        let k = choose|k: int| 0 <= k < s.len() && s[k] == c;
        assert(s[k] == c);
    }
}


/// The first position at or after `from` of `c` in `text`.
pub fn find_char_text(text: &str, c: char, from: usize) -> (r: Option<usize>)
    ensures
        match r {
            Some(at) => find_char(text@, c, from as int) == Some(at as int) && at < text@.len(),
            None => find_char(text@, c, from as int) is None,
        },
        text@.len() <= usize::MAX,
{
    let chars = to_chars(text);
    let mut at: usize = from;
    while at < chars.len()
        invariant
            chars@ == text@,
            find_char(text@, c, from as int) == find_char(text@, c, at as int),
        decreases chars.len() - at,
    {
        if chars[at] == c {
            return Some(at);
        }
        at += 1;
    }
    None
}

pub fn starts_with_text(text: &str, pat: &str) -> (b: bool)
    ensures
        b == starts_with(text@, pat@),
{
    let chars = to_chars(text);
    let pat_chars = to_chars(pat);
    chars_match_at(&chars, &pat_chars, 0)
}

pub fn ends_with_text(text: &str, pat: &str) -> (b: bool)
    ensures
        b == ends_with(text@, pat@),
{
    let chars = to_chars(text);
    let pat_chars = to_chars(pat);
    if pat_chars.len() > chars.len() {
        return false;
    }
    chars_match_at(&chars, &pat_chars, chars.len() - pat_chars.len())
}

pub fn contains_text(text: &str, pat: &str) -> (b: bool)
    ensures
        b == contains(text@, pat@),
{
    let r = find_text(text, pat, 0);
    proof {
        lemma_find_bounds(text@, pat@, 0);
    }
    r.is_some()
}

/// The part of `text` from position `from` up to position `to`.
pub fn slice_text(text: &str, from: usize, to: usize) -> (r: String)
    requires
        from <= to <= text@.len(),
    ensures
        r@ == text@.subrange(from as int, to as int),
{
    text.substring_char(from, to).to_owned()
}

/// The part of `text` from position `from` on.
pub fn tail_text(text: &str, from: usize) -> (r: String)
    requires
        from <= text@.len(),
    ensures
        r@ == text@.skip(from as int),
{
    let n = char_count(text);
    slice_text(text, from, n)
}

/// The part of `text` before position `to`.
pub fn head_text(text: &str, to: usize) -> (r: String)
    requires
        to <= text@.len(),
    ensures
        r@ == text@.take(to as int),
{
    slice_text(text, 0, to)
}

pub fn lower_text(text: &str) -> (r: String)
    ensures
        r@ == lower(text@),
{
    let chars = to_chars(text);
    let mut r = String::new();
    let mut i: usize = 0;
    while i < chars.len()
        invariant
            i <= chars.len(),
            chars@ == text@,
            r@ == lower(text@.take(i as int)),
        decreases chars.len() - i,
    {
        let c = chars[i];
        let u: u32 = c as u32;
        if 65 <= u && u <= 90 {
            r.push(((u as u8) + 32) as char);
        } else {
            r.push(c);
        }
        assert(lower(text@.take(i + 1)) =~= lower(text@.take(i as int)).push(
            lower_char(text@[i as int]),
        ));
        i += 1;
    }
    assert(text@.take(i as int) =~= text@);
    r
}

pub fn same_text(a: &str, b: &str) -> (r: bool)
    ensures
        r == (a@ == b@),
{
    a.to_owned() == b.to_owned()
}

/// The concatenation of three texts.
pub fn concat3(a: &str, b: &str, c: &str) -> (r: String)
    ensures
        r@ == a@ + b@ + c@,
{
    let mut r = a.to_owned();
    r.append(b);
    r.append(c);
    r
}

/// The concatenation of two texts.
pub fn concat2(a: &str, b: &str) -> (r: String)
    ensures
        r@ == a@ + b@,
{
    let mut r = a.to_owned();
    r.append(b);
    r
}

pub fn split_text(text: &str, sep: char) -> (parts: Vec<String>)
    ensures
        views(parts@) == split(text@, sep),
{
    let mut parts: Vec<String> = Vec::new();
    let mut rest = text.to_owned();
    loop
        invariant
            split(text@, sep) == views(parts@) + split(rest@, sep),
        ensures
            split(text@, sep) == views(parts@) + seq![rest@],
        decreases rest@.len(),
    {
        match find_char_text(rest.as_str(), sep, 0) {
            Some(at) => {
                let ghost before = parts@;
                let piece = head_text(rest.as_str(), at);
                let next = tail_text(rest.as_str(), at + 1);
                proof {
                    assert(views(parts@) + split(rest@, sep) =~= views(parts@).push(piece@)
                        + split(next@, sep));
                }
                parts.push(piece);
                assert(views(parts@) =~= views(before).push(piece@));
                rest = next;
            },
            None => {
                break;
            },
        }
    }
    let ghost before = parts@;
    parts.push(rest);
    assert(views(parts@) =~= views(before).push(rest@));
    assert(views(before).push(rest@) =~= views(before) + seq![rest@]);
    parts
}

pub fn lines_text(text: &str) -> (parts: Vec<String>)
    ensures
        views(parts@) == lines(text@),
{
    let mut parts: Vec<String> = Vec::new();
    let mut rest = text.to_owned();
    while !rest.as_str().is_empty()
        invariant
            lines(text@) == views(parts@) + lines(rest@),
        decreases rest@.len(),
    {
        match find_char_text(rest.as_str(), '\n', 0) {
            Some(at) => {
                let ghost before = parts@;
                let line = head_text(rest.as_str(), at);
                let ghost whole = line@;
                let line = if ends_with_char(line.as_str(), '\r') {
                    let n = char_count(line.as_str());
                    head_text(line.as_str(), n - 1)
                } else {
                    line
                };
                assert(line@ =~= strip_cr(whole));
                let next = tail_text(rest.as_str(), at + 1);
                assert(views(parts@) + lines(rest@) =~= views(parts@).push(line@) + lines(next@));
                parts.push(line);
                assert(views(parts@) =~= views(before).push(line@));
                rest = next;
            },
            None => {
                let ghost before = parts@;
                parts.push(rest);
                assert(views(parts@) =~= views(before) + lines(rest@));
                rest = String::new();
            },
        }
    }
    assert(views(parts@) + lines(rest@) =~= views(parts@));
    parts
}

pub fn ends_with_char(text: &str, c: char) -> (b: bool)
    ensures
        b == (text@.len() > 0 && text@.last() == c),
{
    let n = char_count(text);
    n > 0 && text.get_char(n - 1) == c
}

pub fn join_text(parts: &Vec<String>, sep: &str) -> (r: String)
    ensures
        r@ == join(views(parts@), sep@),
{
    let mut r = String::new();
    let mut i: usize = 0;
    while i < parts.len()
        invariant
            i <= parts.len(),
            r@ == join(views(parts@).take(i as int), sep@),
        decreases parts.len() - i,
    {
        if i > 0 {
            r.append(sep);
        }
        r.append(parts[i].as_str());
        proof {
            let whole = views(parts@);
            assert(whole.take(i + 1).drop_last() =~= whole.take(i as int));
            assert(whole.take(i + 1).last() == parts@[i as int]@);
            if i == 0 {
                assert(r@ =~= parts@[0]@);
            }
        }
        i += 1;
    }
    assert(views(parts@).take(i as int) =~= views(parts@));
    r
}

fn digit_char(n: u64) -> (c: char)
    requires
        n < 10,
    ensures
        c == digit(n as nat),
{
    (48u8 + n as u8) as char
}

pub fn decimal_text(n: u64) -> (r: String)
    ensures
        r@ == decimal(n as nat),
    decreases n,
{
    if n < 10 {
        let mut r = String::new();
        r.push(digit_char(n));
        assert(r@ =~= seq![digit(n as nat)]);
        r
    } else {
        let mut r = decimal_text(n / 10);
        r.push(digit_char(n % 10));
        r
    }
}

pub fn signed_decimal_text(n: i64) -> (r: String)
    ensures
        r@ == signed_decimal(n as int),
{
    if n < 0 {
        let size = (-(n as i128)) as u64;
        concat2("-", decimal_text(size).as_str())
    } else {
        decimal_text(n as u64)
    }
}

/// Tests whether `a` comes before `b` in a dictionary, or is the same.
pub fn text_not_after(a: &str, b: &str) -> (r: bool)
    ensures
        r == text_le(a@, b@),
{
    let left = to_chars(a);
    let right = to_chars(b);
    let mut i: usize = 0;
    assert(left@.skip(0) =~= left@);
    assert(right@.skip(0) =~= right@);
    while i < left.len()
        invariant
            i <= left.len(),
            i <= right.len(),
            left@ == a@,
            right@ == b@,
            text_le(a@, b@) == text_le(left@.skip(i as int), right@.skip(i as int)),
        decreases left.len() - i,
    {
        let ghost l = left@.skip(i as int);
        let ghost r = right@.skip(i as int);
        if i >= right.len() {
            return false;
        }
        if left[i] != right[i] {
            return left[i] < right[i];
        }
        assert(l.drop_first() =~= left@.skip(i + 1));
        assert(r.drop_first() =~= right@.skip(i + 1));
        i += 1;
    }
    true
}

/// The order of texts is total and transitive.
pub proof fn lemma_text_le_total(a: Seq<char>, b: Seq<char>)
    ensures
        text_le(a, b) || text_le(b, a),
    decreases a.len(),
{
    if a.len() > 0 && b.len() > 0 && a[0] == b[0] {
        lemma_text_le_total(a.drop_first(), b.drop_first());
    }
}

/// The order of texts is transitive.
pub proof fn lemma_text_le_transitive(a: Seq<char>, b: Seq<char>, c: Seq<char>)
    requires
        text_le(a, b),
        text_le(b, c),
    ensures
        text_le(a, c),
    decreases a.len(),
{
    if a.len() > 0 && b.len() > 0 && c.len() > 0 && a[0] == b[0] && b[0] == c[0] {
        lemma_text_le_transitive(a.drop_first(), b.drop_first(), c.drop_first());
    }
}

/// A copy of an optional text.
pub fn copy_opt(text: &Option<String>) -> (r: Option<String>)
    ensures
        opt_view(r) == opt_view(*text),
{
    match text {
        Some(s) => Some(s.clone()),
        None => None,
    }
}

/// A copy of a list of texts.
pub fn copy_texts(texts: &Vec<String>) -> (r: Vec<String>)
    ensures
        views(r@) == views(texts@),
{
    let mut r: Vec<String> = Vec::new();
    let mut i: usize = 0;
    while i < texts.len()
        invariant
            i <= texts.len(),
            views(r@) == views(texts@).take(i as int),
        decreases texts.len() - i,
    {
        let ghost before = r@;
        r.push(texts[i].clone());
        assert(views(r@) =~= views(before).push(texts@[i as int]@));
        assert(views(texts@).take(i + 1) =~= views(texts@).take(i as int).push(
            texts@[i as int]@,
        ));
        i += 1;
    }
    assert(views(texts@).take(i as int) =~= views(texts@));
    r
}

/// Tests whether `texts` holds `wanted`.
pub fn contains_entry(texts: &Vec<String>, wanted: &str) -> (b: bool)
    ensures
        b == views(texts@).contains(wanted@),
{
    let mut i: usize = 0;
    while i < texts.len()
        invariant
            i <= texts.len(),
            forall|k: int| 0 <= k < i ==> texts@[k]@ != wanted@,
        decreases texts.len() - i,
    {
        if same_text(texts[i].as_str(), wanted) {
            assert(views(texts@)[i as int] == wanted@);
            return true;
        }
        i += 1;
    }
    assert(forall|k: int| 0 <= k < texts@.len() ==> views(texts@)[k] == texts@[k]@);
    false
}

} // verus!
