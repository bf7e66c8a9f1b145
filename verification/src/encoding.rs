//! Base64, message digests and their printed forms.

use base64::Engine;
use hmac::Mac;
use sha2::Digest;
use vstd::prelude::*;
use vstd::utf8::*;

verus! {

broadcast use vstd::string::group_string_axioms;

/// A name for what `base64` makes of bytes.
pub uninterp spec fn base64_encoded(bytes: Seq<u8>) -> Seq<char>;

/// A name for what `base64` reads from a text: the bytes, or the words of its
/// error.
pub uninterp spec fn base64_decoded(text: Seq<char>) -> Result<Seq<u8>, Seq<char>>;

/// A name for the HMAC-SHA256 code of a message under a key.
pub uninterp spec fn hmac_sha256_code(key: Seq<u8>, message: Seq<u8>) -> Seq<u8>;

/// A name for the SHA-256 digest of a message.
pub uninterp spec fn sha256_digest(message: Seq<u8>) -> Seq<u8>;

/// The symbols of padded base64 in the standard alphabet.
pub open spec fn base64_symbol(c: char) -> bool {
    'A' <= c <= 'Z' || 'a' <= c <= 'z' || '0' <= c <= '9' || c == '+' || c == '/' || c == '='
}

/// A text of such symbols.
pub open spec fn base64_text(s: Seq<char>) -> bool {
    forall|i: int| 0 <= i < s.len() ==> base64_symbol(#[trigger] s[i])
}

/// `Engine::encode` of `base64`'s engine `STANDARD`. Its result is named
/// `base64_encoded`. It consists of symbols of the standard alphabet and the
/// padding `=`.
#[verifier::external_body]
pub(crate) fn base64_encode(bytes: &[u8]) -> (encoded: String)
    ensures
        encoded@ == base64_encoded(bytes@),
        base64_text(encoded@),
{
    base64::engine::general_purpose::STANDARD.encode(bytes)
}

/// The view of decoded bytes, or of the words of an error.
pub open spec fn bytes_view(decoded: Result<Vec<u8>, String>) -> Result<Seq<u8>, Seq<char>> {
    match decoded {
        Ok(bytes) => Ok(bytes@),
        Err(error) => Err(error@),
    }
}

/// The bytes were decoded, and they are `bytes`.
pub open spec fn decodes_to(decoded: Result<Vec<u8>, String>, bytes: Seq<u8>) -> bool {
    match decoded {
        Ok(found) => found@ == bytes,
        Err(_) => false,
    }
}

/// `Engine::decode` of `base64`'s engine `STANDARD`. Its result is named
/// `base64_decoded`; an error is given by its `Display` text. What the same
/// engine encoded is decoded to the bytes that it came from.
#[verifier::external_body]
pub(crate) fn base64_decode(encoded: &str) -> (decoded: Result<Vec<u8>, String>)
    ensures
        bytes_view(decoded) == base64_decoded(encoded@),
        forall|bytes: Seq<u8>|
            encoded@ == #[trigger] base64_encoded(bytes) ==> decodes_to(decoded, bytes),
{
    match base64::engine::general_purpose::STANDARD.decode(encoded) {
        Ok(bytes) => Ok(bytes),
        Err(error) => Err(error.to_string()),
    }
}

/// `Hmac<Sha256>` of `hmac` and `sha2`: keyed by `new_from_slice`, fed once,
/// finished. The code is named `hmac_sha256_code`; it has 32 bytes. A key of any
/// length is taken, so there always is a code.
#[verifier::external_body]
pub(crate) fn hmac_sha256(key: &[u8], message: &[u8]) -> (code: Option<Vec<u8>>)
    ensures
        match code {
            Some(bytes) => bytes@ == hmac_sha256_code(key@, message@) && bytes@.len() == 32,
            None => false,
        },
{
    match hmac::Hmac::<sha2::Sha256>::new_from_slice(key) {
        Ok(mut mac) => {
            mac.update(message);
            Some(mac.finalize().into_bytes().to_vec())
        },
        Err(_) => None,
    }
}

/// `Digest::digest` of `sha2`'s `Sha256`. The digest is named `sha256_digest`;
/// it has 32 bytes.
#[verifier::external_body]
pub(crate) fn sha256(message: &[u8]) -> (digest: Vec<u8>)
    ensures
        digest@ == sha256_digest(message@),
        digest@.len() == 32,
{
    sha2::Sha256::digest(message).to_vec()
}

/// The hexadecimal digit of a number below 16.
pub open spec fn hex_digit(n: int) -> char {
    if n == 0 {
        '0'
    } else if n == 1 {
        '1'
    } else if n == 2 {
        '2'
    } else if n == 3 {
        '3'
    } else if n == 4 {
        '4'
    } else if n == 5 {
        '5'
    } else if n == 6 {
        '6'
    } else if n == 7 {
        '7'
    } else if n == 8 {
        '8'
    } else if n == 9 {
        '9'
    } else if n == 10 {
        'a'
    } else if n == 11 {
        'b'
    } else if n == 12 {
        'c'
    } else if n == 13 {
        'd'
    } else if n == 14 {
        'e'
    } else {
        'f'
    }
}

/// Two lower case hexadecimal digits for each byte.
pub open spec fn hex(bytes: Seq<u8>) -> Seq<char> {
    Seq::new(
        2 * bytes.len(),
        |i: int|
            if i % 2 == 0 {
                hex_digit(bytes[i / 2] as int / 16)
            } else {
                hex_digit(bytes[i / 2] as int % 16)
            },
    )
}

fn hex_char(n: u8) -> (c: char)
    requires
        n < 16,
    ensures
        c == hex_digit(n as int),
{
    match n {
        0 => '0',
        1 => '1',
        2 => '2',
        3 => '3',
        4 => '4',
        5 => '5',
        6 => '6',
        7 => '7',
        8 => '8',
        9 => '9',
        10 => 'a',
        11 => 'b',
        12 => 'c',
        13 => 'd',
        14 => 'e',
        _ => 'f',
    }
}

pub fn hex_digest(bytes: &[u8]) -> (text: String)
    ensures
        text@ == hex(bytes@),
{
    let mut text = String::new();
    let mut i: usize = 0;
    while i < bytes.len()
        invariant
            i <= bytes@.len(),
            text@ == hex(bytes@.take(i as int)),
        decreases bytes.len() - i,
    {
        let byte = bytes[i];
        let ghost before = text@;
        text.push(hex_char(byte / 16));
        text.push(hex_char(byte % 16));
        assert(text@ =~= hex(bytes@.take(i + 1))) by {
            let next = bytes@.take(i + 1);
            assert forall|k: int| 0 <= k < 2 * (i + 1) implies text@[k] == hex(next)[k] by {
                if k < 2 * i {
                    assert(before[k] == hex(bytes@.take(i as int))[k]);
                    assert(next[k / 2] == bytes@.take(i as int)[k / 2]);
                } else {
                    assert(k / 2 == i);
                    assert(next[i as int] == byte);
                }
            }
        }
        i += 1;
    }
    assert(bytes@.take(i as int) =~= bytes@);
    text
}

/// Two byte sequences that print alike are the same.
pub proof fn lemma_hex_injective(a: Seq<u8>, b: Seq<u8>)
    requires
        hex(a) == hex(b),
    ensures
        a == b,
{
    assert(hex(a).len() == 2 * a.len());
    assert(hex(b).len() == 2 * b.len());
    assert forall|i: int| 0 <= i < a.len() implies a[i] == b[i] by {
        assert(hex(a)[2 * i] == hex(b)[2 * i]);
        assert(hex(a)[2 * i + 1] == hex(b)[2 * i + 1]);
        assert((2 * i) / 2 == i && (2 * i + 1) / 2 == i);
        assert((2 * i) % 2 == 0 && (2 * i + 1) % 2 == 1);
        assert(hex(a)[2 * i] == hex_digit(a[(2 * i) / 2] as int / 16));
        assert(hex(b)[2 * i] == hex_digit(b[(2 * i) / 2] as int / 16));
        assert(hex(a)[2 * i + 1] == hex_digit(a[(2 * i + 1) / 2] as int % 16));
        assert(hex(b)[2 * i + 1] == hex_digit(b[(2 * i + 1) / 2] as int % 16));
        lemma_hex_digit_injective(a[i] as int / 16, b[i] as int / 16);
        lemma_hex_digit_injective(a[i] as int % 16, b[i] as int % 16);
    }
    assert(a =~= b);
}

proof fn lemma_hex_digit_injective(m: int, n: int)
    requires
        0 <= m < 16,
        0 <= n < 16,
        hex_digit(m) == hex_digit(n),
    ensures
        m == n,
{
}

} // verus!
