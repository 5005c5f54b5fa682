use vstd::prelude::*;

use base64::Engine;
use sha2::Digest;
use vstd::utf8::encode_utf8;

use crate::text::join;

verus! {

// ---------------------------------------------------------------------------
// Percent-encoding
// ---------------------------------------------------------------------------

/// The uppercase hexadecimal digit of `d` (for `d < 16`).
pub open spec fn hex_upper(d: u8) -> char {
    if d < 10 {
        (('0' as u8) + d) as char
    } else {
        (('A' as u8) + d - 10) as char
    }
}

/// `%XX` with the byte's uppercase hexadecimal digits.
pub open spec fn percent_byte(b: u8) -> Seq<char> {
    seq!['%', hex_upper(b / 16), hex_upper(b % 16)]
}

pub open spec fn ascii_alnum_byte(b: u8) -> bool {
    (48 <= b <= 57) || (65 <= b <= 90) || (97 <= b <= 122)
}

/// The bytes that `urlencoding::encode` leaves as they are: ASCII letters and
/// digits, `-`, `.`, `_` and `~`.
pub open spec fn url_unreserved(b: u8) -> bool {
    ascii_alnum_byte(b) || b == 45 || b == 46 || b == 95 || b == 126
}

/// What `urlencoding::encode` makes of a byte sequence: unreserved bytes as
/// they are, every other byte as `%XX`.
pub open spec fn percent_encoded(bytes: Seq<u8>) -> Seq<char>
    decreases bytes.len(),
{
    if bytes.len() == 0 {
        Seq::empty()
    } else {
        let b = bytes[0];
        (if url_unreserved(b) {
            seq![b as char]
        } else {
            percent_byte(b)
        }) + percent_encoded(bytes.drop_first())
    }
}

/// The bytes that `application/x-www-form-urlencoded` leaves as they are:
/// ASCII letters and digits, `*`, `-`, `.` and `_`.
pub open spec fn form_unchanged(b: u8) -> bool {
    ascii_alnum_byte(b) || b == 42 || b == 45 || b == 46 || b == 95
}

/// `application/x-www-form-urlencoded` byte serialization (`form_urlencoded::byte_serialize`):
/// unchanged bytes as they are, the space as `+`, every other byte as `%XX`.
pub open spec fn form_encoded(bytes: Seq<u8>) -> Seq<char>
    decreases bytes.len(),
{
    if bytes.len() == 0 {
        Seq::empty()
    } else {
        let b = bytes[0];
        (if form_unchanged(b) {
            seq![b as char]
        } else if b == 32 {
            seq!['+']
        } else {
            percent_byte(b)
        }) + form_encoded(bytes.drop_first())
    }
}

pub open spec fn form_pair(k: Seq<char>, v: Seq<char>) -> Seq<char> {
    form_encoded(encode_utf8(k)) + "="@ + form_encoded(encode_utf8(v))
}

pub open spec fn form_pairs_view(pairs: Seq<(Seq<char>, Seq<char>)>) -> Seq<Seq<char>> {
    Seq::new(pairs.len(), |i: int| form_pair(pairs[i].0, pairs[i].1))
}

/// A form-encoded query string: each pair as `name=value`, joined by `&`.
pub open spec fn form_query(pairs: Seq<(Seq<char>, Seq<char>)>) -> Seq<char> {
    join(form_pairs_view(pairs), "&"@)
}

// ---------------------------------------------------------------------------
// Base64 (RFC 4648)
// ---------------------------------------------------------------------------

/// The base64 digit of a 6-bit value, in the standard alphabet (`+`, `/`) or
/// the URL-safe one (`-`, `_`).
pub open spec fn b64_digit(v: int, url_safe: bool) -> char {
    if v < 26 {
        (('A' as int) + v) as char
    } else if v < 52 {
        (('a' as int) + v - 26) as char
    } else if v < 62 {
        (('0' as int) + v - 52) as char
    } else if v == 62 {
        if url_safe {
            '-'
        } else {
            '+'
        }
    } else {
        if url_safe {
            '_'
        } else {
            '/'
        }
    }
}

/// Base64 of a byte sequence: four digits for each three bytes; a last group
/// of one or two bytes gives two or three digits, padded with `=` to four
/// when `pad` holds.
pub open spec fn base64_of(bytes: Seq<u8>, url_safe: bool, pad: bool) -> Seq<char>
    decreases bytes.len(),
{
    if bytes.len() >= 3 {
        let b0 = bytes[0] as int;
        let b1 = bytes[1] as int;
        let b2 = bytes[2] as int;
        seq![
            b64_digit(b0 / 4, url_safe),
            b64_digit((b0 % 4) * 16 + b1 / 16, url_safe),
            b64_digit((b1 % 16) * 4 + b2 / 64, url_safe),
            b64_digit(b2 % 64, url_safe),
        ] + base64_of(bytes.skip(3), url_safe, pad)
    } else if bytes.len() == 2 {
        let b0 = bytes[0] as int;
        let b1 = bytes[1] as int;
        seq![
            b64_digit(b0 / 4, url_safe),
            b64_digit((b0 % 4) * 16 + b1 / 16, url_safe),
            b64_digit((b1 % 16) * 4, url_safe),
        ] + (if pad {
            seq!['=']
        } else {
            Seq::empty()
        })
    } else if bytes.len() == 1 {
        let b0 = bytes[0] as int;
        seq![b64_digit(b0 / 4, url_safe), b64_digit((b0 % 4) * 16, url_safe)] + (if pad {
            seq!['=', '=']
        } else {
            Seq::empty()
        })
    } else {
        Seq::empty()
    }
}

/// What SHA-256 computes for a byte sequence.
pub uninterp spec fn sha256(bytes: Seq<u8>) -> Seq<u8>;

// ---------------------------------------------------------------------------
// Trusted items
// ---------------------------------------------------------------------------

/// `urlencoding::encode`: percent-encodes every byte of the UTF-8 text except
/// ASCII letters, digits, `-`, `.`, `_` and `~`, with uppercase hex digits.
#[verifier::external_body]
pub(crate) fn url_encode(s: &str) -> (r: String)
    ensures
        r@ == percent_encoded(encode_utf8(s@)),
{
    urlencoding::encode(s).into_owned()
}

/// `serde_urlencoded::to_string` on a list of string pairs: each pair as
/// `name=value` in `application/x-www-form-urlencoded` byte serialization,
/// joined by `&`. Its serializer reports an error only for keys or values that
/// are not strings, numbers or unit values, which string pairs never are; that
/// arm yields an empty string and is never taken.
#[verifier::external_body]
pub(crate) fn form_urlencode_pairs(pairs: &Vec<(String, String)>) -> (r: String)
    ensures
        r@ == form_query(crate::text::pairs_view(pairs@)),
{
    match serde_urlencoded::to_string(pairs) {
        Ok(s) => s,
        Err(_) => String::new(),
    }
}

/// `base64::engine::general_purpose::STANDARD.encode`: base64 with the
/// standard alphabet and `=` padding.
#[verifier::external_body]
pub(crate) fn base64_standard_encode(bytes: &[u8]) -> (r: String)
    ensures
        r@ == base64_of(bytes@, false, true),
{
    base64::engine::general_purpose::STANDARD.encode(bytes)
}

/// `base64::engine::general_purpose::URL_SAFE_NO_PAD.encode`: base64 with the
/// URL-safe alphabet and no padding.
#[verifier::external_body]
pub(crate) fn base64_url_no_pad_encode(bytes: &[u8]) -> (r: String)
    ensures
        r@ == base64_of(bytes@, true, false),
{
    base64::engine::general_purpose::URL_SAFE_NO_PAD.encode(bytes)
}

/// `sha2::Sha256::digest`: the result is named by `sha256` applied to the bytes;
/// a digest has 32 bytes.
#[verifier::external_body]
pub(crate) fn sha256_digest(bytes: &[u8]) -> (r: Vec<u8>)
    ensures
        r@ == sha256(bytes@),
        r@.len() == 32,
{
    sha2::Sha256::digest(bytes).to_vec()
}

} // verus!
