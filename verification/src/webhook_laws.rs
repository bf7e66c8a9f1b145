//! What holds of webhook requests, and of the media in them, whatever they hold.

use vstd::prelude::*;
use vstd::utf8::*;
use crate::encoding;
use crate::media;
use crate::text;
use crate::text_laws;
use crate::webhook;
use crate::webhook::{
    GenericWebhookMessage, HttpError, ParsedGenericWebhookPayload, PayloadView,
};

verus! {

broadcast use vstd::string::group_string_axioms;

/// All images that a request gives: `image`, those in `images`, `image_base64`.
pub open spec fn given_images(request: GenericWebhookMessage) -> Seq<Seq<char>> {
    let first = match request.image {
        Some(image) => seq![image@],
        None => Seq::<Seq<char>>::empty(),
    };
    let listed = match request.images {
        Some(images) => Seq::new(images@.len(), |i: int| images@[i]@),
        None => Seq::<Seq<char>>::empty(),
    };
    let last = match request.image_base64 {
        Some(image) => seq![image@],
        None => Seq::<Seq<char>>::empty(),
    };
    first + listed + last
}

/// The media type that a request gives for bare images.
pub open spec fn given_type(request: GenericWebhookMessage) -> Seq<char> {
    match request.image_mime_type {
        Some(mime_type) => mime_type@,
        None => "image/jpeg"@,
    }
}

proof fn lemma_given_images(request: GenericWebhookMessage)
    ensures
        webhook::image_references(request) == given_images(request),
        webhook::image_type(request) == given_type(request),
{
    assert(webhook::image_references(request) =~= given_images(request)) by {
        if let Some(images) = request.images {
            assert(text::views(images@) =~= Seq::new(images@.len(), |i: int| images@[i]@));
        }
    }
}

/// A request is faultless just where each of its images is; else the first that is
/// not gives the fault.
pub proof fn lemma_first_fault(references: Seq<Seq<char>>)
    ensures
        webhook::references_fault(references) is None <==> forall|i: int|
            0 <= i < references.len() ==> media::image_reference_fault(#[trigger] references[i]) is None,
        forall|k: int|
            0 <= k < references.len() && (forall|i: int|
                0 <= i < k ==> media::image_reference_fault(#[trigger] references[i]) is None)
                && media::image_reference_fault(#[trigger] references[k]) is Some
                ==> webhook::references_fault(references) == media::image_reference_fault(
                references[k],
            ),
    decreases references.len(),
{
    if references.len() > 0 {
        let before = references.drop_last();
        lemma_first_fault(before);
        assert forall|i: int| 0 <= i < before.len() implies #[trigger] references[i]
            == before[i] by {}
        let n = before.len() as int;
        if webhook::references_fault(references) is None {
            assert forall|i: int| 0 <= i < references.len() implies media::image_reference_fault(
                #[trigger] references[i],
            ) is None by {
                if i < n {
                    assert(media::image_reference_fault(before[i]) is None);
                }
            }
        }
        if forall|i: int|
            0 <= i < references.len() ==> media::image_reference_fault(#[trigger] references[i]) is None {
            assert forall|i: int| 0 <= i < before.len() implies media::image_reference_fault(
                #[trigger] before[i],
            ) is None by {
                assert(media::image_reference_fault(references[i]) is None);
            }
            assert(media::image_reference_fault(references[n]) is None);
        }
        assert forall|k: int|
            0 <= k < references.len() && (forall|i: int|
                0 <= i < k ==> media::image_reference_fault(#[trigger] references[i]) is None)
                && media::image_reference_fault(#[trigger] references[k]) is Some implies webhook::references_fault(
            references,
        ) == media::image_reference_fault(references[k]) by {
            assert forall|i: int| 0 <= i < k && i < n implies media::image_reference_fault(
                #[trigger] before[i],
            ) is None by {
                assert(media::image_reference_fault(references[i]) is None);
            }
            if k < n {
                assert(media::image_reference_fault(before[k]) is Some);
            }
        }
    }
}

/// Images that are not blank become one URL each, in their order.
pub proof fn lemma_urls_of_images(references: Seq<Seq<char>>, mime_type: Seq<char>)
    requires
        forall|i: int| 0 <= i < references.len() ==> text::trim(#[trigger] references[i]).len() > 0,
    ensures
        webhook::image_urls(references, mime_type).len() == references.len(),
        forall|i: int|
            0 <= i < references.len() ==> media::image_reference(
                #[trigger] references[i],
                mime_type,
            ) == Some(webhook::image_urls(references, mime_type)[i]),
    decreases references.len(),
{
    if references.len() > 0 {
        let before = references.drop_last();
        assert forall|i: int| 0 <= i < before.len() implies text::trim(
            #[trigger] before[i],
        ).len() > 0 by {
            assert(before[i] == references[i]);
        }
        lemma_urls_of_images(before, mime_type);
        assert(text::trim(references[references.len() - 1]).len() > 0);
        assert forall|i: int| 0 <= i < references.len() implies media::image_reference(
            #[trigger] references[i],
            mime_type,
        ) == Some(webhook::image_urls(references, mime_type)[i]) by {
            if i < before.len() {
                assert(before[i] == references[i]);
            }
        }
    }
}

/// Every image of a request that is let in is in its payload: one URL for each, in
/// the order `image`, `images`, `image_base64`, and no others; and none of them is
/// faulty.
pub proof fn lemma_all_images_arrive(request: GenericWebhookMessage, payload: PayloadView)
    requires
        webhook::payload_of(request) == Ok::<PayloadView, Seq<char>>(payload),
    ensures
        payload.images.len() == given_images(request).len(),
        forall|i: int|
            0 <= i < given_images(request).len() ==> media::image_reference_fault(
                #[trigger] given_images(request)[i],
            ) is None && media::image_reference(given_images(request)[i], given_type(request))
                == Some(payload.images[i]),
{
    let all = given_images(request);
    lemma_given_images(request);
    lemma_first_fault(all);
    assert forall|i: int| 0 <= i < all.len() implies text::trim(#[trigger] all[i]).len() > 0 by {
        assert(media::image_reference_fault(all[i]) is None);
    }
    lemma_urls_of_images(all, given_type(request));
}

/// A request with a faulty image is refused, with the fault of the first one.
pub proof fn lemma_faulty_image_refused(request: GenericWebhookMessage, k: int)
    requires
        0 <= k < given_images(request).len(),
        media::image_reference_fault(given_images(request)[k]) is Some,
        forall|i: int|
            0 <= i < k ==> media::image_reference_fault(#[trigger] given_images(request)[i]) is None,
    ensures
        webhook::payload_of(request) matches Err(error) && Some(error)
            == media::image_reference_fault(given_images(request)[k]),
{
    lemma_given_images(request);
    lemma_first_fault(given_images(request));
}

/// A request whose only content is one good image is let in with that image, and
/// says that it was sent.
pub proof fn lemma_image_alone(request: GenericWebhookMessage)
    requires
        request.image matches Some(image) && media::image_reference_fault(image@) is None,
        request.images is None,
        request.image_base64 is None,
        request.audio_base64 is None,
        request.text is None,
        request.message is None,
    ensures
        webhook::payload_of(request) matches Ok(payload) && {
            &&& payload.images.len() == 1
            &&& media::image_reference(request.image->0@, given_type(request)) == Some(
                payload.images[0],
            )
            &&& payload.text == "The user sent an image:"@
            &&& payload.audio is None
        },
{
    let all = given_images(request);
    assert(all =~= seq![request.image->0@]);
    lemma_given_images(request);
    lemma_first_fault(all);
    lemma_urls_of_images(all, given_type(request));
    text_laws::lemma_trim_core(Seq::empty(), Seq::empty(), Seq::empty());
    assert(Seq::<char>::empty() + Seq::<char>::empty() + Seq::<char>::empty() =~= Seq::empty());
}

/// A request without images is let in just where it has text or audio that can be
/// read; the text is `text` where that is given, else `message`, trimmed.
pub proof fn lemma_request_without_images(request: GenericWebhookMessage)
    requires
        given_images(request).len() == 0,
    ensures
        ({
            let said = match (request.text, request.message) {
                (Some(t), _) => text::trim(t@),
                (None, Some(m)) => text::trim(m@),
                (None, None) => Seq::empty(),
            };
            match request.audio_base64 {
                None => if said.len() == 0 {
                    webhook::payload_of(request) == Err::<PayloadView, Seq<char>>(
                        "Missing text or media"@,
                    )
                } else {
                    webhook::payload_of(request) matches Ok(payload) && payload.text == said
                        && payload.images.len() == 0 && payload.audio is None
                        && payload.audio_format is None
                },
                Some(audio) => match media::payload_bytes(audio@) {
                    Err(error) => webhook::payload_of(request) == Err::<PayloadView, Seq<char>>(
                        error,
                    ),
                    Ok(bytes) => webhook::payload_of(request) matches Ok(payload) && payload.text
                        == said && payload.images.len() == 0 && payload.audio == Some(bytes),
                },
            }
        }),
{
    lemma_given_images(request);
    text_laws::lemma_trim_core(Seq::empty(), Seq::empty(), Seq::empty());
    assert(Seq::<char>::empty() + Seq::<char>::empty() + Seq::<char>::empty() =~= Seq::empty());
}

/// What a request says beside its media reaches its payload: the text, where there
/// is any, the audio, the character and the conversation.
pub proof fn lemma_payload_fields(request: GenericWebhookMessage, payload: PayloadView)
    requires
        webhook::payload_of(request) == Ok::<PayloadView, Seq<char>>(payload),
    ensures
        request.text matches Some(t) ==> text::trim(t@).len() > 0 ==> payload.text == text::trim(
            t@,
        ),
        request.text is None ==> (request.message matches Some(m) ==> text::trim(m@).len() > 0
            ==> payload.text == text::trim(m@)),
        payload.audio is Some <==> request.audio_base64 is Some,
        request.audio_base64 matches Some(a) ==> media::payload_bytes(a@) == Ok::<
            Seq<u8>,
            Seq<char>,
        >(payload.audio->0),
        payload.audio_format is Some <==> payload.audio is Some,
        payload.audio is Some ==> (request.audio_format matches Some(f) ==> text::trim(f@).len() > 0
            ==> payload.audio_format == Some(text::trim(f@))),
        payload.audio is Some && request.audio_format is None ==> payload.audio_format == Some(
            "ogg"@,
        ),
        request.character_id matches Some(c) ==> text::trim(c@).len() > 0 ==> payload.character_id
            == Some(text::trim(c@)),
        request.character_id is None ==> payload.character_id is None,
        payload.conversation_key == webhook::conversation_key(
            text::opt_view(request.conversation_type),
            text::opt_view(request.conversation_id),
            text::opt_view(request.user_id),
            text::opt_view(request.source),
        ),
{
    reveal_with_fuel(webhook::first_given, 2);
}

/// The first of some values that is not blank is taken, trimmed.
pub proof fn lemma_first_given(values: Seq<Option<Seq<char>>>, k: int)
    requires
        0 <= k < values.len(),
        values[k] matches Some(v) && text::trim(v).len() > 0,
        forall|i: int|
            0 <= i < k ==> ((#[trigger] values[i]) matches Some(v) ==> text::trim(v).len() == 0),
    ensures
        webhook::first_given(values) == Some(text::trim(values[k]->0)),
    decreases k,
{
    if k > 0 {
        let rest = values.drop_first();
        assert(values[0] matches Some(v) ==> text::trim(v).len() == 0);
        assert forall|i: int| 0 <= i < k - 1 implies ((#[trigger] rest[i]) matches Some(v)
            ==> text::trim(v).len() == 0) by {
            assert(rest[i] == values[i + 1]);
        }
        lemma_first_given(rest, k - 1);
    }
}

/// Where all values are blank or missing, none is taken.
pub proof fn lemma_none_given(values: Seq<Option<Seq<char>>>)
    requires
        forall|i: int|
            0 <= i < values.len() ==> ((#[trigger] values[i]) matches Some(v) ==> text::trim(v).len()
                == 0),
    ensures
        webhook::first_given(values) is None,
    decreases values.len(),
{
    if values.len() > 0 {
        let rest = values.drop_first();
        assert(values[0] matches Some(v) ==> text::trim(v).len() == 0);
        assert forall|i: int| 0 <= i < rest.len() implies ((#[trigger] rest[i]) matches Some(v)
            ==> text::trim(v).len() == 0) by {
            assert(rest[i] == values[i + 1]);
        }
        lemma_none_given(rest);
    }
}

/// The character of a request comes before the configured one, that before the
/// active one; where all are blank, it is the default one.
pub proof fn lemma_webhook_character(a: Seq<char>, b: Option<Seq<char>>, c: Option<Seq<char>>)
    requires
        text::trim(a).len() > 0,
    ensures
        webhook::webhook_character(Some(a), b, c) == text::trim(a),
        webhook::webhook_character(None, Some(a), c) == text::trim(a),
        webhook::webhook_character(None, None, Some(a)) == text::trim(a),
        webhook::webhook_character(None, None, None) == "default"@,
        b matches Some(blank) ==> text::trim(blank).len() == 0 ==> webhook::webhook_character(
            b,
            Some(a),
            c,
        ) == text::trim(a),
{
    lemma_first_given(seq![Some(a), b, c], 0);
    lemma_first_given(seq![None, Some(a), c], 1);
    lemma_first_given(seq![None, None, Some(a)], 2);
    lemma_none_given(seq![None, None, None]);
    if let Some(blank) = b {
        if text::trim(blank).len() == 0 {
            lemma_first_given(seq![b, Some(a), c], 1);
        }
    }
}

/// A group goes by its own id, a user in private by theirs.
pub proof fn lemma_conversation_key(
    kind: Option<Seq<char>>,
    id: Seq<char>,
    a: Option<Seq<char>>,
    b: Option<Seq<char>>,
)
    requires
        text::trim(id).len() > 0,
    ensures
        webhook::is_group(kind) ==> webhook::conversation_key(kind, Some(id), a, b) == Some(
            "group:"@ + text::trim(id),
        ),
        webhook::is_group(kind) ==> webhook::conversation_key(kind, None, a, Some(id)) == Some(
            "group:"@ + text::trim(id),
        ),
        !webhook::is_group(kind) ==> webhook::conversation_key(kind, a, Some(id), b) == Some(
            "private:"@ + text::trim(id),
        ),
        !webhook::is_group(kind) ==> webhook::conversation_key(kind, Some(id), None, b) == Some(
            "private:"@ + text::trim(id),
        ),
        webhook::conversation_key(kind, None, None, None) is None,
        !webhook::is_group(None),
        webhook::scoped_key(id, a) == text::trim(id) + ":"@ + (match a {
            Some(k) => if text::trim(k).len() > 0 {
                text::trim(k)
            } else {
                "webhook"@
            },
            None => "webhook"@,
        }),
{
    lemma_first_given(seq![Some(id), b, a], 0);
    lemma_first_given(seq![None, Some(id), a], 1);
    lemma_first_given(seq![Some(id), a, b], 0);
    lemma_first_given(seq![None, Some(id), b], 1);
    lemma_none_given(seq![None, None, None]);
    reveal_with_fuel(webhook::first_given, 2);
}

/// A token is asked for just where one is configured, and only the header that
/// carries it is let in: the word `Bearer` in any case, white space, the token.
pub proof fn lemma_bearer(
    scheme: Seq<char>,
    gap: Seq<char>,
    sent: Seq<char>,
    token: Seq<char>,
)
    requires
        scheme.len() > 0,
        forall|i: int| 0 <= i < scheme.len() ==> !text::white(#[trigger] scheme[i]),
        gap.len() > 0,
        text_laws::all_white(gap),
        sent.len() > 0,
        !text::white(sent[0]),
        !text::white(sent.last()),
        text::trim(token).len() > 0,
    ensures
        webhook::bearer_fault(None, Some(token)) == Some("Missing Authorization header"@),
        webhook::bearer_fault(Some(scheme + gap + sent), Some(token)) is None <==> text::lower(
            scheme,
        ) == "bearer"@ && sent == token,
        webhook::bearer_fault(Some(scheme), Some(token)) == Some("Invalid bearer token"@),
        webhook::bearer_fault(Some(sent), None) is None,
        webhook::bearer_fault(None, None) is None,
{
    let header = scheme + gap + sent;
    assert(!text::white(scheme[0]) && !text::white(scheme[scheme.len() - 1]));
    assert(header[0] == scheme[0]);
    assert(header.last() == sent.last());
    text::lemma_trim_fixed(header);
    text::lemma_trim_fixed(scheme);
    let at = scheme.len() as int;
    assert(header[at] == gap[0]);
    assert(text::white(gap[0]));
    lemma_find_white(header, 0, at);
    assert(header.take(at) =~= scheme);
    let behind = header.skip(at + 1);
    assert(behind =~= gap.drop_first() + sent + Seq::<char>::empty());
    assert(text_laws::all_white(gap.drop_first())) by {
        assert forall|k: int| 0 <= k < gap.drop_first().len() implies text::white(
            #[trigger] gap.drop_first()[k],
        ) by {
            assert(gap.drop_first()[k] == gap[k + 1]);
        }
    }
    text_laws::lemma_trim_core(gap.drop_first(), sent, Seq::empty());
    lemma_no_white(scheme, 0);
}

/// A blank token is as good as none: nothing is asked for.
pub proof fn lemma_blank_token(header: Option<Seq<char>>, token: Seq<char>)
    requires
        text_laws::all_white(token),
    ensures
        webhook::bearer_fault(header, Some(token)) is None,
        webhook::bearer_fault(header, None) is None,
{
    text_laws::lemma_blank_is_white(token);
}

proof fn lemma_find_white(s: Seq<char>, from: int, at: int)
    requires
        0 <= from <= at < s.len(),
        text::white(s[at]),
        forall|i: int| from <= i < at ==> !text::white(#[trigger] s[i]),
    ensures
        webhook::find_white(s, from) == Some(at),
    decreases at - from,
{
    if from < at {
        assert(!text::white(s[from]));
        lemma_find_white(s, from + 1, at);
    }
}

proof fn lemma_no_white(s: Seq<char>, from: int)
    requires
        0 <= from <= s.len(),
        forall|i: int| from <= i < s.len() ==> !text::white(#[trigger] s[i]),
    ensures
        webhook::find_white(s, from) is None,
    decreases s.len() - from,
{
    if from < s.len() {
        assert(!text::white(s[from]));
        lemma_no_white(s, from + 1);
    }
}

/// A blank path is the root; any other keeps its text, with a slash put in front
/// where there is none.
pub proof fn lemma_path(path: Seq<char>)
    ensures
        text::trim(path).len() == 0 ==> webhook::normalized_path(path) == seq!['/'],
        text::trim(path).len() > 0 && text::trim(path)[0] == '/' ==> webhook::normalized_path(path)
            == text::trim(path),
        text::trim(path).len() > 0 && text::trim(path)[0] != '/' ==> webhook::normalized_path(path)
            == seq!['/'] + text::trim(path),
{
    reveal_strlit("/");
    assert("/"@ =~= seq!['/']);
}

/// An image that is a web address or an image data URL is taken as it is, trimmed;
/// any other text is taken as the data of an image of the given type; nothing is
/// taken of a blank one.
pub proof fn lemma_image_reference(value: Seq<char>, rest: Seq<char>, mime_type: Seq<char>)
    ensures
        text::trim(value) == "http://"@ + rest ==> media::image_reference(value, mime_type) == Some(
            text::trim(value),
        ) && media::image_reference_fault(value) is None,
        text::trim(value) == "https://"@ + rest ==> media::image_reference(value, mime_type)
            == Some(text::trim(value)) && media::image_reference_fault(value) is None,
        text::trim(value) == "data:image/"@ + rest ==> media::image_reference(value, mime_type)
            == Some(text::trim(value)),
        text::trim(value).len() == 0 ==> media::image_reference(value, mime_type) is None
            && media::image_reference_fault(value) == Some("Invalid image base64: empty payload"@),
        media::image_reference(value, mime_type) matches Some(url) ==> url == text::trim(value)
            || url == "data:"@ + mime_type + ";base64,"@ + text::trim(value),
        text::trim(value).len() > 0 && text::trim(value)[0] != 'h' && text::trim(value)[0] != 'd'
            ==> media::image_reference(value, mime_type) == Some(
            "data:"@ + mime_type + ";base64,"@ + text::trim(value),
        ),
{
    reveal_strlit("http://");
    reveal_strlit("https://");
    reveal_strlit("data:image/");
    let v = text::trim(value);
    lemma_begins("http://"@, rest);
    lemma_begins("https://"@, rest);
    lemma_begins("data:image/"@, rest);
    if v.len() > 0 && v[0] != 'h' && v[0] != 'd' {
        if text::starts_with(v, "http://"@) {
            assert(v.subrange(0, "http://"@.len() as int)[0] == v[0]);
        }
        if text::starts_with(v, "https://"@) {
            assert(v.subrange(0, "https://"@.len() as int)[0] == v[0]);
        }
        if text::starts_with(v, "data:image/"@) {
            assert(v.subrange(0, "data:image/"@.len() as int)[0] == v[0]);
        }
    }
}

proof fn lemma_begins(pat: Seq<char>, rest: Seq<char>)
    ensures
        text::starts_with(pat + rest, pat),
{
    assert((pat + rest).subrange(0, pat.len() as int) =~= pat);
}

/// A bare image is refused just where it is not base64; one with a comma just where
/// what stands before it is not the header of an image data URL, or what stands
/// behind it is not base64.
pub proof fn lemma_image_data(head: Seq<char>, data: Seq<char>)
    requires
        head.len() > 0,
        !text::white(head[0]),
        !head.contains(','),
        !media::web_url(head.push(',') + data),
        data.len() > 0,
        !text::white(data.last()),
    ensures
        media::image_reference_fault(head.push(',') + data) is None <==> text::starts_with(
            head,
            "data:image/"@,
        ) && text::contains(head, ";base64"@) && encoding::base64_decoded(data) is Ok,
        !media::web_url(head) && !text::white(head.last()) ==> (media::image_reference_fault(
            head,
        ) is None <==> encoding::base64_decoded(head) is Ok),
        media::payload_bytes(head.push(',') + data) matches Ok(bytes) ==> encoding::base64_decoded(
            data,
        ) == Ok::<Seq<u8>, Seq<char>>(bytes),
        !text::white(head.last()) ==> (media::payload_bytes(head) is Ok
            <==> encoding::base64_decoded(head) is Ok),
{
    let v = head.push(',') + data;
    assert(v[0] == head[0] && v.last() == data.last());
    text::lemma_trim_fixed(v);
    assert forall|k: int| 0 <= k < head.len() implies #[trigger] head[k] != ',' by {
        assert(head.contains(head[k]));
    }
    text_laws::lemma_find_char_first(head, ',', data, 0);
    assert(v.take(head.len() as int) =~= head);
    assert(v.skip(head.len() as int + 1) =~= data);
    text::lemma_find_char_contains(head, ',');
    if !text::white(head.last()) {
        text::lemma_trim_fixed(head);
    }
}

/// What was said in a voice message goes behind the text, or in its place where
/// there is none; where nothing was heard, the text stays.
pub proof fn lemma_transcribed(s: Seq<char>, heard: Seq<char>)
    ensures
        media::transcribed(s, None) == s,
        text::trim(heard).len() == 0 ==> media::transcribed(s, Some(heard)) == s,
        text::trim(heard).len() > 0 && text::trim(s).len() == 0 ==> media::transcribed(
            s,
            Some(heard),
        ) == heard,
        text::trim(heard).len() > 0 && text::trim(s).len() > 0 ==> media::transcribed(s, Some(heard))
            == s + "\n\nVoice message transcript: "@ + heard,
{
}

/// A text that fits a platform stays; one that does not keeps its beginning.
pub proof fn lemma_truncated(s: Seq<char>, max_chars: int)
    requires
        max_chars >= 0,
    ensures
        s.len() <= max_chars ==> media::truncated(s, max_chars) == s,
        s.len() > max_chars ==> media::truncated(s, max_chars) == s.subrange(0, max_chars) + seq![
            '.',
            '.',
            '.',
        ],
{
    reveal_strlit("...");
    assert("..."@ =~= seq!['.', '.', '.']);
    if s.len() > max_chars {
        assert(s.take(max_chars) =~= s.subrange(0, max_chars));
    }
}

/// A media type is what stands before its first semicolon, trimmed.
pub proof fn lemma_clean_mime(mime_type: Seq<char>, parameters: Seq<char>)
    requires
        !mime_type.contains(';'),
    ensures
        media::clean_mime(mime_type) == text::trim(mime_type),
        media::clean_mime(mime_type.push(';') + parameters) == text::trim(mime_type),
{
    text::lemma_find_char_contains(mime_type, ';');
    assert forall|k: int| 0 <= k < mime_type.len() implies #[trigger] mime_type[k] != ';' by {
        assert(mime_type.contains(mime_type[k]));
    }
    text_laws::lemma_find_char_first(mime_type, ';', parameters, 0);
    assert((mime_type.push(';') + parameters).take(mime_type.len() as int) =~= mime_type);
}

/// The stored conversation of a webhook is named by the digest of the character and
/// the key of the conversation.
pub proof fn lemma_stored_conversation(character: Seq<char>, key: Seq<char>)
    requires
        text::trim(key).len() > 0,
    ensures
        webhook::stored_conversation(character, Some(key)) == "webhook-"@ + encoding::hex(
            encoding::sha256_digest(
                encode_utf8(text::trim(character) + ":"@ + text::trim(key)),
            ),
        ),
        webhook::stored_conversation(character, None) == "webhook-"@ + encoding::hex(
            encoding::sha256_digest(encode_utf8(text::trim(character) + ":"@ + "webhook"@)),
        ),
{
    lemma_conversation_key(None, key, Some(key), None);
    lemma_conversation_key(None, key, None, None);
    lemma_scoped(character, Some(key));
    lemma_scoped(character, None);
}

proof fn lemma_scoped(character: Seq<char>, key: Option<Seq<char>>)
    ensures
        webhook::scoped_key(character, key) == text::trim(character) + ":"@ + (match key {
            Some(k) => if text::trim(k).len() > 0 {
                text::trim(k)
            } else {
                "webhook"@
            },
            None => "webhook"@,
        }),
{
    reveal_with_fuel(webhook::first_given, 2);
}

/// The answer to a refused request has the status and the words that it was made
/// with, and a request of up to four mebibytes is read.
pub proof fn lemma_refusal(error: HttpError, status: u16, words: Seq<char>)
    ensures
        webhook::is_error(error, status, words) <==> error.status == status && error.message@
            == words,
        webhook::MAX_GENERIC_WEBHOOK_BODY_BYTES == 4 * 1024 * 1024,
{
}

/// What a request is worked on as is what was read of it, part by part.
pub proof fn lemma_payload_parts(payload: ParsedGenericWebhookPayload)
    ensures
        payload@.text == payload.text@,
        payload@.images.len() == payload.images@.len(),
        forall|i: int|
            0 <= i < payload.images@.len() ==> #[trigger] payload@.images[i] == payload.images@[i]@,
        payload.audio matches Some(bytes) ==> payload@.audio == Some(bytes@),
        payload.audio is None ==> payload@.audio is None,
        payload@.audio_format == text::opt_view(payload.audio_format),
        payload@.character_id == text::opt_view(payload.character_id),
        payload@.conversation_key == text::opt_view(payload.conversation_key),
        webhook::payload_view(Ok(payload)) == Ok::<PayloadView, Seq<char>>(payload@),
{
}

} // verus!
