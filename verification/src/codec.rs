//! Calls into the encoding, hashing and randomness crates this library uses.
//! Every item here is trusted: its contract restates what the called crate
//! documents (or what its source shows) and is not proved.

use base64::Engine;
use chrono::Datelike;
use hmac::Mac;
use rand::RngCore;
use subtle::ConstantTimeEq;
use vstd::prelude::*;
use vstd::utf8::{decode_utf8, encode_utf8, valid_utf8};

verus! {

// ---------------------------------------------------------------- percent-encoding

/// Value of an ASCII hex digit byte (either case), if it is one.
pub open spec fn hex_digit_value(b: u8) -> Option<u8> {
    if 48 <= b <= 57 {
        Some((b - 48) as u8)
    } else if 65 <= b <= 70 {
        Some((b - 55) as u8)
    } else if 97 <= b <= 102 {
        Some((b - 87) as u8)
    } else {
        None
    }
}

/// Byte-level percent-decoding: each `%` followed by two hex digits becomes
/// the byte they spell; every other byte is kept as it is (`+` included).
pub open spec fn percent_decode_bytes(b: Seq<u8>) -> Seq<u8>
    decreases b.len(),
{
    if b.len() == 0 {
        seq![]
    } else if b[0] == 37 && b.len() >= 3 && hex_digit_value(b[1]) is Some && hex_digit_value(
        b[2],
    ) is Some {
        seq![(hex_digit_value(b[1])->0 * 16 + hex_digit_value(b[2])->0) as u8]
            + percent_decode_bytes(b.subrange(3, b.len() as int))
    } else {
        seq![b[0]] + percent_decode_bytes(b.drop_first())
    }
}

/// Percent-decoding of a string: `None` when the decoded bytes are not UTF-8.
pub open spec fn spec_url_decode(s: Seq<char>) -> Option<Seq<char>> {
    let b = percent_decode_bytes(encode_utf8(s));
    if valid_utf8(b) {
        Some(decode_utf8(b))
    } else {
        None
    }
}

/// Whether a byte is left unescaped by URL encoding: ASCII alphanumerics and `-._~`.
pub open spec fn url_safe_byte(b: u8) -> bool {
    (48 <= b <= 57) || (65 <= b <= 90) || (97 <= b <= 122) || b == 45 || b == 46 || b == 95
        || b == 126
}

/// Uppercase hex digit character of a nibble.
pub open spec fn hex_upper_char(n: u8) -> char {
    if n < 10 {
        (n + 48) as char
    } else {
        (n + 55) as char
    }
}

/// Uppercase percent-encoding of a byte sequence.
pub open spec fn percent_encode_bytes(b: Seq<u8>) -> Seq<char>
    decreases b.len(),
{
    if b.len() == 0 {
        seq![]
    } else {
        (if url_safe_byte(b[0]) {
            seq![b[0] as char]
        } else {
            seq!['%', hex_upper_char(b[0] / 16), hex_upper_char(b[0] % 16)]
        }) + percent_encode_bytes(b.drop_first())
    }
}

/// The rendered `FromUtf8Error` that `urlencoding::decode` reports for `s`.
pub uninterp spec fn url_decode_error_text(s: Seq<char>) -> Seq<char>;

/// `urlencoding::decode`: percent-decodes `s` and requires the result to be
/// UTF-8. The error is the rendered `FromUtf8Error`.
#[verifier::external_body]
pub(crate) fn url_decode(s: &str) -> (r: Result<String, String>)
    ensures
        match r {
            Ok(t) => spec_url_decode(s@) == Some(t@),
            Err(e) => spec_url_decode(s@) is None && e@ == url_decode_error_text(s@),
        },
{
    urlencoding::decode(s).map(|c| c.into_owned()).map_err(|e| e.to_string())
}

/// `urlencoding::encode`: escapes every UTF-8 byte of `s` except ASCII
/// alphanumerics and `-._~` as `%HH` (uppercase hex).
#[verifier::external_body]
pub(crate) fn url_encode(s: &str) -> (r: String)
    ensures
        r@ == percent_encode_bytes(encode_utf8(s@)),
{
    urlencoding::encode(s).into_owned()
}

// ---------------------------------------------------------------- UTF-8

/// `std::str::from_utf8`: the text the bytes encode, when they are UTF-8.
#[verifier::external_body]
pub(crate) fn string_from_utf8(b: &[u8]) -> (r: Option<String>)
    ensures
        r is Some <==> valid_utf8(b@),
        r matches Some(s) ==> s@ == decode_utf8(b@),
{
    std::str::from_utf8(b).ok().map(|s| s.to_string())
}

/// What `String::from_utf8_lossy` returns for the given bytes.
pub uninterp spec fn utf8_lossy_text(b: Seq<u8>) -> Seq<char>;

/// `String::from_utf8_lossy`: decodes the bytes, replacing invalid
/// sequences with U+FFFD. On valid UTF-8 it is the plain decoding.
#[verifier::external_body]
pub(crate) fn string_from_utf8_lossy(b: &[u8]) -> (r: String)
    ensures
        r@ == utf8_lossy_text(b@),
        valid_utf8(b@) ==> r@ == decode_utf8(b@),
{
    String::from_utf8_lossy(b).into_owned()
}

// ---------------------------------------------------------------- base64

/// Whether `c` belongs to the URL-safe base64 alphabet (`A-Z a-z 0-9 - _`).
pub open spec fn is_b64url_char(c: char) -> bool {
    ('A' <= c <= 'Z') || ('a' <= c <= 'z') || ('0' <= c <= '9') || c == '-' || c == '_'
}

/// What `URL_SAFE_NO_PAD.encode` returns for the given bytes.
pub uninterp spec fn b64url_encoding(b: Seq<u8>) -> Seq<char>;

/// What `URL_SAFE_NO_PAD.decode` returns for the given text (`None` on error).
pub uninterp spec fn b64url_decoding(s: Seq<char>) -> Option<Seq<u8>>;

/// What `STANDARD.decode` returns for the given text (`None` on error).
pub uninterp spec fn b64std_decoding(s: Seq<char>) -> Option<Seq<u8>>;

/// `base64` URL-safe encoding without padding. Its output only uses the
/// URL-safe alphabet, and decoding it gives back the input.
#[verifier::external_body]
pub(crate) fn b64url_encode(b: &[u8]) -> (r: String)
    ensures
        r@ == b64url_encoding(b@),
        forall|i: int| 0 <= i < r@.len() ==> is_b64url_char(#[trigger] r@[i]),
        b64url_decoding(r@) == Some(b@),
{
    base64::engine::general_purpose::URL_SAFE_NO_PAD.encode(b)
}

/// `base64` URL-safe decoding without padding.
#[verifier::external_body]
pub(crate) fn b64url_decode(s: &str) -> (r: Option<Vec<u8>>)
    ensures
        match r {
            Some(v) => b64url_decoding(s@) == Some(v@),
            None => b64url_decoding(s@) is None,
        },
{
    base64::engine::general_purpose::URL_SAFE_NO_PAD.decode(s).ok()
}

/// What `STANDARD_NO_PAD.encode` returns for the given bytes.
pub uninterp spec fn b64nopad_encoding(b: Seq<u8>) -> Seq<char>;

/// What `STANDARD_NO_PAD.decode` returns for the given text (`None` on error).
pub uninterp spec fn b64nopad_decoding(s: Seq<char>) -> Option<Seq<u8>>;

/// `base64` standard-alphabet encoding without padding; decoding it
/// without padding gives back the input.
#[verifier::external_body]
pub(crate) fn b64nopad_encode(b: &[u8]) -> (r: String)
    ensures
        r@ == b64nopad_encoding(b@),
        b64nopad_decoding(r@) == Some(b@),
{
    base64::engine::general_purpose::STANDARD_NO_PAD.encode(b)
}

/// `base64` standard-alphabet decoding without padding.
#[verifier::external_body]
pub(crate) fn b64nopad_decode(s: &str) -> (r: Option<Vec<u8>>)
    ensures
        match r {
            Some(v) => b64nopad_decoding(s@) == Some(v@),
            None => b64nopad_decoding(s@) is None,
        },
{
    base64::engine::general_purpose::STANDARD_NO_PAD.decode(s).ok()
}

/// `base64` standard-alphabet decoding with padding.
#[verifier::external_body]
pub(crate) fn b64std_decode(s: &str) -> (r: Option<Vec<u8>>)
    ensures
        match r {
            Some(v) => b64std_decoding(s@) == Some(v@),
            None => b64std_decoding(s@) is None,
        },
{
    base64::engine::general_purpose::STANDARD.decode(s).ok()
}

// ---------------------------------------------------------------- HMAC / comparison

/// The HMAC-SHA256 tag of `msg` under `key`.
pub uninterp spec fn hmac_sha256_tag(key: Seq<u8>, msg: Seq<u8>) -> Seq<u8>;

/// `Hmac::<Sha256>` over `msg` keyed by `key` (any key length is accepted);
/// the tag is 32 bytes long.
#[verifier::external_body]
pub(crate) fn hmac_sha256(key: &[u8], msg: &[u8]) -> (r: Vec<u8>)
    ensures
        r@ == hmac_sha256_tag(key@, msg@),
        r@.len() == 32,
{
    let mut mac = hmac::Hmac::<sha2::Sha256>::new_from_slice(key).expect("any key length");
    mac.update(msg);
    mac.finalize().into_bytes().to_vec()
}

/// `subtle::ConstantTimeEq` on byte slices: true exactly when both slices
/// have the same length and the same bytes.
#[verifier::external_body]
pub(crate) fn ct_eq(a: &[u8], b: &[u8]) -> (r: bool)
    ensures
        r == (a@ == b@),
{
    a.ct_eq(b).into()
}

// ---------------------------------------------------------------- hex / randomness / time

/// Lowercase hex digit character of a nibble.
pub open spec fn hex_lower_char(n: u8) -> char {
    if n < 10 {
        (n + 48) as char
    } else {
        (n + 87) as char
    }
}

/// Lowercase hex rendering of bytes, two characters per byte.
pub open spec fn hex_lower(b: Seq<u8>) -> Seq<char>
    decreases b.len(),
{
    if b.len() == 0 {
        seq![]
    } else {
        seq![hex_lower_char(b[0] / 16), hex_lower_char(b[0] % 16)] + hex_lower(b.drop_first())
    }
}

/// `hex::encode`: lowercase hex, two characters per byte.
#[verifier::external_body]
pub(crate) fn hex_encode(b: &[u8]) -> (r: String)
    ensures
        r@ == hex_lower(b@),
{
    hex::encode(b)
}

/// 32 bytes from `rand::thread_rng()`; nothing is known of their values.
#[verifier::external_body]
pub(crate) fn random_bytes_32() -> (r: Vec<u8>)
    ensures
        r@.len() == 32,
{
    let mut buf = [0u8; 32];
    rand::thread_rng().fill_bytes(&mut buf);
    buf.to_vec()
}

/// Seconds since the Unix epoch from the system clock (0 if the clock is
/// before the epoch). Nothing is known of the value.
#[verifier::external_body]
pub(crate) fn unix_now_secs() -> (r: u64) {
    std::time::SystemTime::now()
        .duration_since(std::time::UNIX_EPOCH)
        .map(|d| d.as_secs())
        .unwrap_or(0)
}

/// What `httpdate::fmt_http_date` renders for the instant `secs` after the epoch.
pub uninterp spec fn http_date_text(secs: u64) -> Seq<char>;

/// Upper bound (exclusive) on the instants `httpdate` can render: year 9999.
pub open spec fn http_date_limit() -> u64 {
    253402300800
}

/// `httpdate::fmt_http_date` of `UNIX_EPOCH + secs`; the crate panics from
/// year 9999 on, so `secs` stays below that.
#[verifier::external_body]
pub(crate) fn http_date(secs: u64) -> (r: String)
    requires
        secs < http_date_limit(),
    ensures
        r@ == http_date_text(secs),
{
    httpdate::fmt_http_date(std::time::UNIX_EPOCH + std::time::Duration::from_secs(secs))
}

// ---------------------------------------------------------------- bcrypt

/// What `bcrypt::verify` returns for a password and a stored hash
/// (`None` when the hash cannot be parsed).
pub uninterp spec fn bcrypt_outcome(password: Seq<char>, hash: Seq<char>) -> Option<bool>;

/// The rendered `BcryptError` for a hash `bcrypt::verify` cannot use.
pub uninterp spec fn bcrypt_error_text(password: Seq<char>, hash: Seq<char>) -> Seq<char>;

/// `bcrypt::verify`; its error (a malformed hash) is rendered.
#[verifier::external_body]
pub(crate) fn bcrypt_verify(password: &str, hash: &str) -> (r: Result<bool, String>)
    ensures
        match r {
            Ok(b) => bcrypt_outcome(password@, hash@) == Some(b),
            Err(e) => bcrypt_outcome(password@, hash@) is None && e@ == bcrypt_error_text(
                password@,
                hash@,
            ),
        },
{
    bcrypt::verify(password, hash).map_err(|e| e.to_string())
}


// ---------------------------------------------------------------- header values

/// Whether a character may stand in an HTTP header value: every byte of
/// its UTF-8 encoding is a tab or at least 32 and not DEL, which holds of
/// every non-ASCII character and of the ASCII ones that are not controls.
pub open spec fn header_value_char_ok(c: char) -> bool {
    (c as u32 >= 32 && c as u32 != 127) || c == '\t'
}

/// Whether a string is a valid HTTP header value.
pub open spec fn spec_header_value_ok(s: Seq<char>) -> bool {
    forall|i: int| 0 <= i < s.len() ==> header_value_char_ok(#[trigger] s[i])
}

/// `http::HeaderValue::from_str` succeeds: it refuses a value exactly when
/// one of its bytes is a control other than tab (below 32, or 127).
#[verifier::external_body]
pub(crate) fn header_value_ok(s: &str) -> (r: bool)
    ensures
        r == spec_header_value_ok(s@),
{
    http::HeaderValue::from_str(s).is_ok()
}


// ---------------------------------------------------------------- paths

/// Whether a path terminates in the parent-directory component `..`: it
/// is `..` or ends with `/..` (`/` separates components on every platform).
pub open spec fn ends_in_parent(s: Seq<char>) -> bool {
    s == ".."@ || (s.len() >= 3 && s.subrange(s.len() - 3, s.len() as int) == "/.."@)
}

/// What `std::path::Path::file_name` gives for a path written as text:
/// the final component, if there is one, read with the path syntax of the
/// target the library is built for.
pub uninterp spec fn path_file_name_of(s: Seq<char>) -> Option<Seq<char>>;

/// A name that is one plain path component on every platform: not empty,
/// not `.` or `..`, and free of `/`, `\\` and `:` (separators and drive
/// prefixes).
pub open spec fn is_bare_name(s: Seq<char>) -> bool {
    &&& s.len() > 0
    &&& s != "."@
    &&& s != ".."@
    &&& !crate::text::has_char(s, '/')
    &&& !crate::text::has_char(s, '\\')
    &&& !crate::text::has_char(s, ':')
}

/// `std::path::Path::file_name` of a path given as text, as text (a path
/// made from a `&str` is always valid UTF-8). As its documentation says,
/// there is no final component when the path terminates in `..`, and the
/// final component of a path that is a single plain name is that name.
#[verifier::external_body]
pub(crate) fn path_file_name(s: &str) -> (r: Option<String>)
    ensures
        r is None <==> path_file_name_of(s@) is None,
        (r matches Some(n) ==> path_file_name_of(s@) == Some(n@)),
        ends_in_parent(s@) ==> r is None,
        is_bare_name(s@) ==> r is Some && r.unwrap()@ == s@,
{
    std::path::Path::new(s).file_name().and_then(|n| n.to_str()).map(|n| n.to_string())
}


// ---------------------------------------------------------------- uuid

/// Whether a character is a lowercase hex digit.
pub open spec fn is_lower_hex_char(c: char) -> bool {
    ('0' <= c <= '9') || ('a' <= c <= 'f')
}

/// The hyphenated lowercase form of a UUID: 36 characters, `-` at 8, 13,
/// 18 and 23, lowercase hex digits elsewhere.
pub open spec fn is_hyphenated_uuid(s: Seq<char>) -> bool {
    &&& s.len() == 36
    &&& forall|i: int|
        0 <= i < 36 ==> if i == 8 || i == 13 || i == 18 || i == 23 {
            #[trigger] s[i] == '-'
        } else {
            is_lower_hex_char(s[i])
        }
}

/// `uuid::Uuid::new_v4().to_string()`: a random UUID in its hyphenated
/// lowercase form; nothing is known of its digits.
#[verifier::external_body]
pub(crate) fn uuid_v4_text() -> (r: String)
    ensures
        is_hyphenated_uuid(r@),
{
    uuid::Uuid::new_v4().to_string()
}


// ---------------------------------------------------------------- calendar dates

/// What `chrono::NaiveDate::parse_from_str(s, "%Y-%m-%d")` gives for a
/// text, as (year, month, day); `None` when it is not such a date.
pub uninterp spec fn ymd_date(s: Seq<char>) -> Option<(i32, u32, u32)>;

/// `chrono::NaiveDate::parse_from_str(s, "%Y-%m-%d")`, read back as (year,
/// month, day).
#[verifier::external_body]
pub(crate) fn parse_ymd(s: &str) -> (r: Option<(i32, u32, u32)>)
    ensures
        r == ymd_date(s@),
{
    chrono::NaiveDate::parse_from_str(s, "%Y-%m-%d").ok().map(|d| (d.year(), d.month(), d.day()))
}

} // verus!
