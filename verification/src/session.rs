//! Session machinery: the signed cookie codec, the per-session data, the
//! cache key of a session blob, the `Set-Cookie` values and the decision of
//! where a session blob is saved once a response is done.

use crate::codec::{b64url_decode, b64url_decoding, b64url_encode, b64url_encoding, ct_eq, hex_encode, hex_lower, hmac_sha256, hmac_sha256_tag, is_b64url_char, random_bytes_32, string_from_utf8, unix_now_secs};
use crate::text::{chars_of, find, has_char, index_of, lemma_index_of_is, push_char, push_str, slice_chars, string_from, to_owned};
use vstd::prelude::*;
use vstd::utf8::{decode_utf8, encode_utf8, encode_utf8_decode_utf8, encode_utf8_valid_utf8, valid_utf8};

verus! {

// ---------------------------------------------------------------- signed cookie

/// Errors produced while decoding a signed session cookie.
#[derive(Debug, PartialEq, Eq, Structural)]
pub enum CookieError {
    /// The cookie value did not match the expected `<payload>.<sig>` shape.
    Malformed,
    /// The HMAC over the payload did not verify against the configured secret.
    BadSignature,
}

/// The signed cookie value for `payload`:
/// `<base64url(payload bytes)>.<base64url(hmac(secret, payload bytes))>`.
pub open spec fn spec_encode_cookie(payload: Seq<char>, secret: Seq<u8>) -> Seq<char> {
    b64url_encoding(encode_utf8(payload)) + seq!['.'] + b64url_encoding(
        hmac_sha256_tag(secret, encode_utf8(payload)),
    )
}

/// What decoding a cookie value gives: split at the first `.`, base64url-decode
/// both halves, check the HMAC of the payload, and read the payload as UTF-8.
pub open spec fn spec_decode_cookie(raw: Seq<char>, secret: Seq<u8>) -> Result<Seq<char>, CookieError> {
    match index_of(raw, '.') {
        None => Err(CookieError::Malformed),
        Some(i) => {
            match b64url_decoding(raw.subrange(0, i)) {
                None => Err(CookieError::Malformed),
                Some(payload) => match b64url_decoding(raw.subrange(i + 1, raw.len() as int)) {
                    None => Err(CookieError::Malformed),
                    Some(sig) => if hmac_sha256_tag(secret, payload) == sig {
                        if valid_utf8(payload) {
                            Ok(decode_utf8(payload))
                        } else {
                            Err(CookieError::Malformed)
                        }
                    } else {
                        Err(CookieError::BadSignature)
                    },
                },
            }
        },
    }
}

/// Encode an opaque payload into the signed cookie value
/// `<base64url(payload)>.<base64url(hmac)>`. Decoding the value with the same
/// secret gives the payload back.
pub fn encode_cookie(payload: &str, secret: &[u8]) -> (r: String)
    ensures
        r@ == spec_encode_cookie(payload@, secret@),
        spec_decode_cookie(r@, secret@) == Ok::<Seq<char>, CookieError>(payload@),
{
    let bytes = payload.as_bytes();
    let sig = hmac_sha256(secret, bytes);
    let p = b64url_encode(bytes);
    let s = b64url_encode(sig.as_slice());
    let mut r = to_owned(p.as_str());
    push_char(&mut r, '.');
    push_str(&mut r, s.as_str());
    proof {
        let pb = encode_utf8(payload@);
        let e1 = b64url_encoding(pb);
        let e2 = b64url_encoding(hmac_sha256_tag(secret@, pb));
        assert(r@ == e1 + seq!['.'] + e2);
        assert(r@.subrange(0, e1.len() as int) =~= e1);
        assert(r@.subrange(e1.len() as int + 1, r@.len() as int) =~= e2);
        assert(!has_char(r@.subrange(0, e1.len() as int), '.')) by {
            assert forall|k: int| 0 <= k < e1.len() implies #[trigger] e1[k] != '.' by {
                assert(is_b64url_char(p@[k]));
            }
        }
        assert(r@[e1.len() as int] == '.');
        lemma_index_of_is(r@, '.', e1.len() as int);
        encode_utf8_valid_utf8(payload@);
        encode_utf8_decode_utf8(payload@);
    }
    r
}

/// Verify and decode a signed cookie produced by [`encode_cookie`]. Returns
/// the opaque payload as a UTF-8 string on success.
pub fn decode_cookie(raw: &str, secret: &[u8]) -> (r: Result<String, CookieError>)
    ensures
        match r {
            Ok(s) => spec_decode_cookie(raw@, secret@) == Ok::<Seq<char>, CookieError>(s@),
            Err(e) => spec_decode_cookie(raw@, secret@) == Err::<Seq<char>, CookieError>(e),
        },
{
    let cs = chars_of(raw);
    let dot = match find(&cs, '.') {
        Some(i) => i,
        None => return Err(CookieError::Malformed),
    };
    assert(dot < cs.len());
    let payload_b64 = string_from(&slice_chars(&cs, 0, dot));
    let sig_b64 = string_from(&slice_chars(&cs, dot + 1, cs.len()));
    let payload = match b64url_decode(payload_b64.as_str()) {
        Some(p) => p,
        None => return Err(CookieError::Malformed),
    };
    let sig = match b64url_decode(sig_b64.as_str()) {
        Some(s) => s,
        None => return Err(CookieError::Malformed),
    };
    let expected = hmac_sha256(secret, payload.as_slice());
    if ct_eq(expected.as_slice(), sig.as_slice()) {
        match string_from_utf8(payload.as_slice()) {
            Some(s) => Ok(s),
            None => Err(CookieError::Malformed),
        }
    } else {
        Err(CookieError::BadSignature)
    }
}

// ---------------------------------------------------------------- session data

/// Whether `s` is `n` lowercase hex characters.
pub open spec fn is_lower_hex_of_len(s: Seq<char>, n: nat) -> bool {
    s.len() == n && forall|i: int| 0 <= i < s.len() ==> (('0' <= #[trigger] s[i] <= '9') || ('a'
        <= s[i] <= 'f'))
}

proof fn lemma_hex_lower_shape(b: Seq<u8>)
    ensures
        is_lower_hex_of_len(crate::codec::hex_lower(b), 2 * b.len()),
    decreases b.len(),
{
    if b.len() > 0 {
        lemma_hex_lower_shape(b.drop_first());
        let h = crate::codec::hex_lower(b);
        let t = crate::codec::hex_lower(b.drop_first());
        assert forall|i: int| 0 <= i < h.len() implies (('0' <= #[trigger] h[i] <= '9') || ('a'
            <= h[i] <= 'f')) by {
            if i >= 2 {
                assert(h[i] == t[i - 2]);
            }
        }
    }
}

/// 32 random bytes, hex-encoded: 64 lowercase hex characters.
fn random_token() -> (r: String)
    ensures
        is_lower_hex_of_len(r@, 64),
{
    let b = random_bytes_32();
    let r = hex_encode(b.as_slice());
    proof {
        lemma_hex_lower_shape(b@);
    }
    r
}

/// Opaque session ID. 32 random bytes, hex-encoded for storage.
#[derive(Debug, Clone, PartialEq, Eq)]
pub struct SessionId(pub String);

impl SessionId {
    /// Generate a fresh random session id (32 bytes, hex-encoded).
    pub fn new_random() -> (r: SessionId)
        ensures
            is_lower_hex_of_len(r.0@, 64),
    {
        SessionId(random_token())
    }

    /// Hex string form of the session id, used for cookies + cache keys.
    pub fn as_str(&self) -> (r: &str)
        ensures
            r@ == self.0@,
    {
        self.0.as_str()
    }
}

/// Server-side session data. Persisted in cache keyed by the token row id.
#[derive(Debug, Clone)]
pub struct Session {
    /// Authenticated user ID, if any.
    pub user_id: Option<String>,
    /// CSRF request token. Rotated at login/logout.
    pub csrf_token: String,
    /// Last access timestamp (seconds since epoch). Used for sliding TTL.
    pub last_activity: u64,
    /// True once the user has cleared 2FA for this session.
    pub two_factor_passed: bool,
}

/// The current time in seconds since the Unix epoch, from the system clock
/// (0 when the clock reads before the epoch).
pub fn now_secs() -> (r: u64) {
    unix_now_secs()
}

impl Session {
    /// A fresh session as of the clock reading `now` (seconds since the
    /// epoch): a random CSRF token (64 lowercase hex characters, never
    /// empty), no user, 2FA not passed, and `last_activity == now`.
    pub fn new_at(now: u64) -> (r: Session)
        ensures
            r.user_id is None,
            is_lower_hex_of_len(r.csrf_token@, 64),
            !r.two_factor_passed,
            r.last_activity == now,
    {
        Session { user_id: None, csrf_token: random_token(), last_activity: now, two_factor_passed: false }
    }

    /// Create a fresh session with a random CSRF token (64 lowercase hex
    /// characters, never empty), no user, 2FA not passed, and
    /// `last_activity` set to the current time (`new_at` of the clock).
    pub fn new() -> (r: Session)
        ensures
            r.user_id is None,
            is_lower_hex_of_len(r.csrf_token@, 64),
            !r.two_factor_passed,
    {
        Session::new_at(now_secs())
    }

    /// Replace the CSRF token with a fresh random value; nothing else changes.
    pub fn rotate_csrf(&mut self)
        ensures
            is_lower_hex_of_len(final(self).csrf_token@, 64),
            final(self).user_id == old(self).user_id,
            final(self).last_activity == old(self).last_activity,
            final(self).two_factor_passed == old(self).two_factor_passed,
    {
        self.csrf_token = random_token();
    }
}

impl Default for Session {
    /// Same as [`Session::new`]: a defaulted session has a fresh random CSRF
    /// token, never the empty string.
    fn default() -> (r: Session)
        ensures
            r.user_id is None,
            is_lower_hex_of_len(r.csrf_token@, 64),
            !r.two_factor_passed,
    {
        Session::new()
    }
}

} // verus!
