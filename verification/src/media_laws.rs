//! What the names and types of media tell, whatever they are.

use vstd::prelude::*;
use crate::media;
use crate::text;
use crate::text_laws;

verus! {

broadcast use vstd::string::group_string_axioms;

/// A name with an ending in any case.
proof fn lemma_ending(stem: Seq<char>, ending: Seq<char>, pat: Seq<char>)
    requires
        pat.len() > 0,
        ending.len() > 0,
    ensures
        text::lower(ending) == pat ==> text::ends_with(text::lower(stem + ending), pat),
        text::lower(ending).last() != pat.last() ==> !text::ends_with(
            text::lower(stem + ending),
            pat,
        ),
        ending.len() >= pat.len() && text::lower(ending).skip(ending.len() - pat.len()) != pat
            ==> !text::ends_with(text::lower(stem + ending), pat),
{
    text_laws::lemma_lower(stem, ending);
    let s = text::lower(stem + ending);
    let e = text::lower(ending);
    let n = pat.len() as int;
    text_laws::lemma_where_it_stands(text::lower(stem), e, s, pat);
    if text::ends_with(s, pat) {
        assert(s.last() == e.last());
        assert(s.subrange(s.len() - n, s.len() as int)[n - 1] == s.last());
        if ending.len() >= n {
            assert(e.skip(e.len() - n) =~= s.subrange(s.len() - n, s.len() as int));
        }
    }
}

proof fn lemma_endings()
    ensures
        ".png"@ == seq!['.', 'p', 'n', 'g'],
        ".jpg"@ == seq!['.', 'j', 'p', 'g'],
        ".jpeg"@ == seq!['.', 'j', 'p', 'e', 'g'],
        ".webp"@ == seq!['.', 'w', 'e', 'b', 'p'],
        ".gif"@ == seq!['.', 'g', 'i', 'f'],
{
    reveal_strlit(".png");
    reveal_strlit(".jpg");
    reveal_strlit(".jpeg");
    reveal_strlit(".webp");
    reveal_strlit(".gif");
    assert(".png"@ =~= seq!['.', 'p', 'n', 'g']);
    assert(".jpg"@ =~= seq!['.', 'j', 'p', 'g']);
    assert(".jpeg"@ =~= seq!['.', 'j', 'p', 'e', 'g']);
    assert(".webp"@ =~= seq!['.', 'w', 'e', 'b', 'p']);
    assert(".gif"@ =~= seq!['.', 'g', 'i', 'f']);
}

/// The ending of a name, in any case, tells the type of an image; a name that tells
/// nothing is taken for a JPEG.
pub proof fn lemma_image_mime(stem: Seq<char>, ending: Seq<char>)
    ensures
        text::lower(ending) == ".png"@ ==> media::image_mime(stem + ending) == "image/png"@,
        text::lower(ending) == ".webp"@ ==> media::image_mime(stem + ending) == "image/webp"@,
        text::lower(ending) == ".gif"@ ==> media::image_mime(stem + ending) == "image/gif"@,
        text::lower(ending) == ".jpg"@ ==> media::image_mime(stem + ending) == "image/jpeg"@,
        text::lower(ending) == ".jpeg"@ ==> media::image_mime(stem + ending) == "image/jpeg"@,
        ending.len() > 0 && text::lower(ending).last() != 'g' && text::lower(ending).last() != 'p'
            && text::lower(ending).last() != 'f' ==> media::image_mime(stem + ending)
            == "image/jpeg"@,
{
    lemma_endings();
    text_laws::lemma_lower(ending, stem);
    if ending.len() > 0 {
        lemma_ending(stem, ending, ".png"@);
        lemma_ending(stem, ending, ".webp"@);
        lemma_ending(stem, ending, ".gif"@);
        let e = text::lower(ending);
        if e == ".jpg"@ {
            assert(e.skip(0)[1] == 'j');
        }
        if e == ".jpeg"@ {
            assert(e.skip(1)[0] == 'j');
        }
    }
}

/// A file is an image by its type, whatever its name, or by the ending of its name,
/// whatever its type.
pub proof fn lemma_image_media(
    rest: Seq<char>,
    stem: Seq<char>,
    ending: Seq<char>,
    name: Option<Seq<char>>,
    kind: Option<Seq<char>>,
)
    requires
        rest.len() > 0,
        !rest.contains(';'),
        !text::white(rest.last()),
    ensures
        media::image_media(Some("image/"@ + rest), name),
        text::lower(ending) == ".png"@ || text::lower(ending) == ".jpg"@ || text::lower(ending)
            == ".jpeg"@ || text::lower(ending) == ".webp"@ || text::lower(ending) == ".gif"@
            ==> media::image_media(kind, Some(stem + ending)),
        !media::image_media(None, None),
{
    lemma_endings();
    lemma_typed("image/"@, rest);
    text_laws::lemma_lower(ending, stem);
    if ending.len() > 0 {
        lemma_ending(stem, ending, ".png"@);
        lemma_ending(stem, ending, ".jpg"@);
        lemma_ending(stem, ending, ".jpeg"@);
        lemma_ending(stem, ending, ".webp"@);
        lemma_ending(stem, ending, ".gif"@);
    }
    reveal_strlit("image/");
}

proof fn lemma_typed(kind: Seq<char>, rest: Seq<char>)
    requires
        rest.len() > 0,
        !rest.contains(';'),
        !text::white(rest.last()),
    ensures
        kind.len() > 0 && !text::white(kind[0]) && !kind.contains(';') ==> text::starts_with(
            media::clean_mime(kind + rest),
            kind,
        ),
{
    if kind.len() > 0 && !text::white(kind[0]) && !kind.contains(';') {
        let s = kind + rest;
        assert forall|k: int| 0 <= k < s.len() implies #[trigger] s[k] != ';' by {
            if k < kind.len() {
                assert(kind.contains(kind[k]));
            } else {
                assert(rest.contains(rest[k - kind.len()]));
            }
        }
        text_laws::lemma_find_char_absent(s, ';', 0);
        assert(s[0] == kind[0] && s.last() == rest.last());
        text::lemma_trim_fixed(s);
        text_laws::lemma_where_it_stands(kind, rest, s, kind);
    }
}

/// A file is audio by its type, whatever its name, or by the ending of its name,
/// whatever its type.
pub proof fn lemma_audio_media(
    rest: Seq<char>,
    stem: Seq<char>,
    ending: Seq<char>,
    name: Option<Seq<char>>,
    kind: Option<Seq<char>>,
)
    requires
        rest.len() > 0,
        !rest.contains(';'),
        !text::white(rest.last()),
        ending.len() > 0,
    ensures
        media::audio_media(Some("audio/"@ + rest), name),
        text::lower(ending) == ".ogg"@ || text::lower(ending) == ".opus"@ || text::lower(ending)
            == ".mp3"@ || text::lower(ending) == ".wav"@ || text::lower(ending) == ".webm"@
            || text::lower(ending) == ".m4a"@ || text::lower(ending) == ".mp4"@
            ==> media::audio_media(kind, Some(stem + ending)),
        !media::audio_media(None, None),
{
    reveal_strlit("audio/");
    reveal_strlit(".ogg");
    reveal_strlit(".opus");
    reveal_strlit(".mp3");
    reveal_strlit(".wav");
    reveal_strlit(".webm");
    reveal_strlit(".m4a");
    reveal_strlit(".mp4");
    lemma_typed("audio/"@, rest);
    lemma_ending(stem, ending, ".ogg"@);
    lemma_ending(stem, ending, ".opus"@);
    lemma_ending(stem, ending, ".mp3"@);
    lemma_ending(stem, ending, ".wav"@);
    lemma_ending(stem, ending, ".webm"@);
    lemma_ending(stem, ending, ".m4a"@);
    lemma_ending(stem, ending, ".mp4"@);
}

/// The format of audio is the first one that its type or name speaks of, in any case;
/// where it speaks of none, it is Ogg.
pub proof fn lemma_audio_format(hint: Seq<char>)
    ensures
        ({
            let h = text::lower(hint);
            let ogg = !text_laws::absent(h, "ogg"@) || !text_laws::absent(h, "opus"@);
            let mp3 = !text_laws::absent(h, "mpeg"@) || !text_laws::absent(h, "mp3"@);
            let wav = !text_laws::absent(h, "wav"@);
            let webm = !text_laws::absent(h, "webm"@);
            let m4a = !text_laws::absent(h, "mp4"@) || !text_laws::absent(h, "m4a"@);
            &&& ogg ==> media::audio_format(hint) == "ogg"@
            &&& !ogg && mp3 ==> media::audio_format(hint) == "mp3"@
            &&& !ogg && !mp3 && wav ==> media::audio_format(hint) == "wav"@
            &&& !ogg && !mp3 && !wav && webm ==> media::audio_format(hint) == "webm"@
            &&& !ogg && !mp3 && !wav && !webm && m4a ==> media::audio_format(hint) == "m4a"@
            &&& !ogg && !mp3 && !wav && !webm && !m4a ==> media::audio_format(hint) == "ogg"@
        }),
{
    let h = text::lower(hint);
    text_laws::lemma_where_it_stands(h, h, h, "ogg"@);
    text_laws::lemma_where_it_stands(h, h, h, "opus"@);
    text_laws::lemma_where_it_stands(h, h, h, "mpeg"@);
    text_laws::lemma_where_it_stands(h, h, h, "mp3"@);
    text_laws::lemma_where_it_stands(h, h, h, "wav"@);
    text_laws::lemma_where_it_stands(h, h, h, "webm"@);
    text_laws::lemma_where_it_stands(h, h, h, "mp4"@);
    text_laws::lemma_where_it_stands(h, h, h, "m4a"@);
}

/// The type comes before the name.
pub proof fn lemma_media_hint(kind: Seq<char>, name: Seq<char>)
    ensures
        media::media_hint(Some(kind), Some(name)) == kind,
        media::media_hint(Some(kind), None) == kind,
        media::media_hint(None, Some(name)) == name,
        media::media_hint(None, None) == Seq::<char>::empty(),
{
}

} // verus!
