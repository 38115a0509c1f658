//! The DAV trashbin surface: trash entry names (`<basename>.d<secs>[_<n>]`),
//! percent-encoded href segments, and the restore `Destination`.

use crate::codec::{
    hex_upper_char, percent_encode_bytes, spec_url_decode, url_decode, url_decode_error_text,
    url_safe_byte,
};
use crate::dav_error::DavError;
use crate::headers::{destination_path, destination_path_exec};
use crate::text::{
    all_digits, chars_of, concat, extend_chars, is_digit, push_char, push_chars, push_str,
    slice_chars, split_once, split_once_chars, string_from, strip_prefix, strip_prefix_chars,
    to_owned, trim_start_char, trim_start_chars,
};
use vstd::prelude::*;
use vstd::utf8::{encode_scalar, encode_utf8};

verus! {
// ---------------------------------------------------------------- trash names

/// Position of the last `.d` pair starting in `s[..k]`.
pub open spec fn last_dot_d(s: Seq<char>, k: int) -> Option<int>
    decreases k,
{
    if k <= 0 {
        None
    } else if s[k - 1] == '.' && k < s.len() && s[k] == 'd' {
        Some(k - 1)
    } else {
        last_dot_d(s, k - 1)
    }
}

/// Whether a trash suffix tail (what follows the `d`) is `<digits>` or
/// `<digits>_<digits>`, with no part empty.
pub open spec fn valid_suffix_tail(rest: Seq<char>) -> bool {
    rest.len() > 0 && match split_once(rest, '_') {
        Some((a, b)) => a.len() > 0 && b.len() > 0 && all_digits(a) && all_digits(b),
        None => all_digits(rest),
    }
}

/// `<basename>.<suffix>` split at the last `.d`, where the suffix is
/// `d<digits>` or `d<digits>_<digits>` and the basename is not empty.
pub open spec fn spec_split_basename_and_suffix(s: Seq<char>) -> Option<(Seq<char>, Seq<char>)> {
    match last_dot_d(s, s.len() as int) {
        None => None,
        Some(i) => {
            let basename = s.subrange(0, i);
            let suffix = s.subrange(i + 1, s.len() as int);
            if basename.len() > 0 && valid_suffix_tail(suffix.drop_first()) {
                Some((basename, suffix))
            } else {
                None
            }
        },
    }
}

proof fn lemma_last_dot_d_range(s: Seq<char>, k: int)
    requires
        k <= s.len(),
    ensures
        last_dot_d(s, k) matches Some(i) ==> 0 <= i < k && i + 1 < s.len() && s[i] == '.' && s[i
            + 1] == 'd',
    decreases k,
{
    if k > 0 && !(s[k - 1] == '.' && k < s.len() && s[k] == 'd') {
        lemma_last_dot_d_range(s, k - 1);
    }
}

fn all_digit_chars(s: &[char]) -> (r: bool)
    ensures
        r == all_digits(s@),
{
    let mut i: usize = 0;
    while i < s.len()
        invariant
            i <= s@.len(),
            forall|k: int| 0 <= k < i ==> is_digit(#[trigger] s@[k]),
        decreases s@.len() - i,
    {
        if !(s[i] >= '0' && s[i] <= '9') {
            assert(!is_digit(s@[i as int]));
            return false;
        }
        i = i + 1;
    }
    true
}

fn find_last_dot_d(s: &[char]) -> (r: Option<usize>)
    ensures
        match r {
            Some(i) => last_dot_d(s@, s@.len() as int) == Some(i as int),
            None => last_dot_d(s@, s@.len() as int) is None,
        },
{
    let n: usize = s.len();
    let mut k: usize = n;
    while k > 0
        invariant
            k <= n,
            n == s@.len(),
            last_dot_d(s@, n as int) == last_dot_d(s@, k as int),
        decreases k,
    {
        if s[k - 1] == '.' && k < n && s[k] == 'd' {
            return Some(k - 1);
        }
        k = k - 1;
    }
    None
}

/// Split `<basename>.<suffix>` where `suffix` is `d<digits>` or
/// `d<digits>_<digits>`. Returns `None` if the input isn't a valid
/// trash-encoded filename. Finds the last `.d` boundary so basenames
/// containing dots (e.g. `archive.tar.gz`) still split correctly.
pub fn split_basename_and_suffix(name: &str) -> (r: Option<(String, String)>)
    ensures
        match r {
            Some((b, s)) => spec_split_basename_and_suffix(name@) == Some((b@, s@)),
            None => spec_split_basename_and_suffix(name@) is None,
        },
{
    let s = chars_of(name);
    let n: usize = s.len();
    let dot = match find_last_dot_d(&s) {
        Some(i) => i,
        None => return None,
    };
    proof {
        lemma_last_dot_d_range(s@, n as int);
    }
    if dot == 0 {
        return None;
    }
    let basename = slice_chars(&s, 0, dot);
    let suffix = slice_chars(&s, dot + 1, n);
    let rest = slice_chars(&suffix, 1, suffix.len());
    assert(rest@ =~= suffix@.drop_first());
    if rest.len() == 0 {
        return None;
    }
    let valid = match split_once_chars(&rest, '_') {
        Some((a, b)) => a.len() > 0 && b.len() > 0 && all_digit_chars(&a) && all_digit_chars(&b),
        None => all_digit_chars(&rest),
    };
    if !valid {
        return None;
    }
    Some((string_from(&basename), string_from(&suffix)))
}

// ---------------------------------------------------------------- href segments

/// The UTF-8 bytes of one character.
pub fn encode_char_utf8(c: char) -> (r: Vec<u8>)
    ensures
        r@ == encode_scalar(c as u32),
{
    let v: u32 = c as u32;
    let mut r: Vec<u8> = Vec::new();
    if v <= 0x7F {
        r.push((v & 0x7F) as u8);
    } else if v <= 0x7FF {
        r.push(0xC0 | ((v >> 6) & 0x1F) as u8);
        r.push(0x80 | (v & 0x3F) as u8);
    } else if v <= 0xFFFF {
        r.push(0xE0 | ((v >> 12) & 0x0F) as u8);
        r.push(0x80 | ((v >> 6) & 0x3F) as u8);
        r.push(0x80 | (v & 0x3F) as u8);
    } else {
        r.push(0xF0 | ((v >> 18) & 0x7) as u8);
        r.push(0x80 | ((v >> 12) & 0x3F) as u8);
        r.push(0x80 | ((v >> 6) & 0x3F) as u8);
        r.push(0x80 | (v & 0x3F) as u8);
    }
    proof {
        vstd::utf8::char_is_scalar(c);
    }
    r
}

/// Encoding a sequence with one more character appends that character's bytes.
pub proof fn lemma_encode_utf8_push(s: Seq<char>, c: char)
    ensures
        encode_utf8(s.push(c)) == encode_utf8(s) + encode_scalar(c as u32),
    decreases s.len(),
{
    if s.len() == 0 {
        assert(s.push(c).drop_first() =~= Seq::<char>::empty());
        assert(encode_utf8(Seq::<char>::empty()) =~= Seq::<u8>::empty());
        assert(encode_utf8(s.push(c)) =~= encode_scalar(c as u32));
    } else {
        lemma_encode_utf8_push(s.drop_first(), c);
        assert(s.push(c).drop_first() =~= s.drop_first().push(c));
        assert(encode_utf8(s.push(c)) =~= encode_scalar(s[0] as u32) + (encode_utf8(s.drop_first())
            + encode_scalar(c as u32)));
    }
}

/// Percent-encoding distributes over concatenation.
pub proof fn lemma_percent_encode_append(a: Seq<u8>, b: Seq<u8>)
    ensures
        percent_encode_bytes(a + b) == percent_encode_bytes(a) + percent_encode_bytes(b),
    decreases a.len(),
{
    if a.len() == 0 {
        assert(a + b =~= b);
        assert(percent_encode_bytes(a) =~= Seq::<char>::empty());
        assert(percent_encode_bytes(a) + percent_encode_bytes(b) =~= percent_encode_bytes(b));
    } else {
        lemma_percent_encode_append(a.drop_first(), b);
        assert((a + b).drop_first() =~= a.drop_first() + b);
        assert((a + b)[0] == a[0]);
    }
}

fn hex_upper(n: u8) -> (r: char)
    requires
        n < 16,
    ensures
        r == hex_upper_char(n),
{
    if n < 10 {
        (n + 48) as char
    } else {
        (n + 55) as char
    }
}

fn is_url_safe(b: u8) -> (r: bool)
    ensures
        r == url_safe_byte(b),
{
    (48 <= b && b <= 57) || (65 <= b && b <= 90) || (97 <= b && b <= 122) || b == 45 || b == 46
        || b == 95 || b == 126
}

/// Percent-encode a path segment for href emission. Leaves ASCII
/// alphanumerics and `-._~` alone; encodes every other UTF-8 byte as
/// `%HH` (uppercase hex) per RFC 3986.
pub fn encode_segment(s: &str) -> (r: String)
    ensures
        r@ == percent_encode_bytes(encode_utf8(s@)),
{
    let cs = chars_of(s);
    let mut out = String::new();
    let mut i: usize = 0;
    assert(cs@.subrange(0, 0) =~= Seq::<char>::empty());
    assert(encode_utf8(Seq::<char>::empty()) =~= Seq::<u8>::empty());
    assert(percent_encode_bytes(Seq::<u8>::empty()) =~= Seq::<char>::empty());
    while i < cs.len()
        invariant
            i <= cs@.len(),
            cs@ == s@,
            out@ == percent_encode_bytes(encode_utf8(cs@.subrange(0, i as int))),
        decreases cs@.len() - i,
    {
        let c = cs[i];
        let bytes = encode_char_utf8(c);
        let ghost before = out@;
        let mut j: usize = 0;
        assert(bytes@.subrange(0, 0) =~= Seq::<u8>::empty());
        assert(before + percent_encode_bytes(Seq::<u8>::empty()) =~= before);
        while j < bytes.len()
            invariant
                j <= bytes@.len(),
                out@ == before + percent_encode_bytes(bytes@.subrange(0, j as int)),
            decreases bytes@.len() - j,
        {
            let b = bytes[j];
            proof {
                reveal_with_fuel(percent_encode_bytes, 2);
                lemma_percent_encode_append(bytes@.subrange(0, j as int), seq![b]);
                assert(bytes@.subrange(0, j as int) + seq![b] =~= bytes@.subrange(0, j + 1));
                assert(seq![b].drop_first() =~= Seq::<u8>::empty());
            }
            if is_url_safe(b) {
                push_char(&mut out, b as char);
                assert(percent_encode_bytes(seq![b]) =~= seq![b as char]);
            } else {
                push_char(&mut out, '%');
                push_char(&mut out, hex_upper(b / 16));
                push_char(&mut out, hex_upper(b % 16));
                assert(percent_encode_bytes(seq![b]) =~= seq!['%', hex_upper_char(b / 16),
                    hex_upper_char(b % 16)]);
            }
            j = j + 1;
            assert(out@ =~= before + percent_encode_bytes(bytes@.subrange(0, j as int)));
        }
        proof {
            assert(bytes@.subrange(0, bytes@.len() as int) =~= bytes@);
            lemma_encode_utf8_push(cs@.subrange(0, i as int), c);
            assert(cs@.subrange(0, i as int).push(c) =~= cs@.subrange(0, i + 1));
            lemma_percent_encode_append(encode_utf8(cs@.subrange(0, i as int)), bytes@);
        }
        i = i + 1;
    }
    assert(cs@.subrange(0, cs@.len() as int) =~= cs@);
    out
}

} // verus!

verus! {

/// What a restore `Destination` resolves to for user `uid`: the
/// user-relative path (with one leading `/`) under `/remote.php/dav/files/<uid>/`
/// or `/dav/files/<uid>/`, after percent-decoding. Errors carry the message.
pub open spec fn spec_parse_destination(dest: Seq<char>, uid: Seq<char>) -> Result<
    Seq<char>,
    Seq<char>,
> {
    match destination_path(dest) {
        None => Err("Destination missing path"@),
        Some(path) => match spec_url_decode(path) {
            None => Err("invalid url encoding: "@ + url_decode_error_text(path)),
            Some(decoded) => files_relative(decoded, dest, uid),
        },
    }
}

/// The user-relative path of a decoded destination path, shared by the
/// trashbin and versions surfaces.
pub open spec fn files_relative(decoded: Seq<char>, dest: Seq<char>, uid: Seq<char>) -> Result<
    Seq<char>,
    Seq<char>,
> {
    match strip_prefix(decoded, "/remote.php/dav/files/"@ + uid + "/"@) {
        Some(rest) => Ok(seq!['/'] + trim_start_char(rest, '/')),
        None => match strip_prefix(decoded, "/dav/files/"@ + uid + "/"@) {
            Some(rest) => Ok(seq!['/'] + trim_start_char(rest, '/')),
            None => Err("Destination not under /dav/files/"@ + uid + "/: "@ + dest),
        },
    }
}

/// Exec `files_relative`.
pub fn files_relative_exec(decoded: &str, dest: &str, uid: &str) -> (r: Result<String, DavError>)
    ensures
        match r {
            Ok(p) => files_relative(decoded@, dest@, uid@) == Ok::<Seq<char>, Seq<char>>(p@),
            Err(e) => e matches DavError::BadRequest(m) && files_relative(decoded@, dest@, uid@)
                == Err::<Seq<char>, Seq<char>>(m@),
        },
{
    let dc = chars_of(decoded);
    let mut legacy = chars_of("/remote.php/dav/files/");
    extend_chars(&mut legacy, &chars_of(uid));
    legacy.push('/');
    let mut modern = chars_of("/dav/files/");
    extend_chars(&mut modern, &chars_of(uid));
    modern.push('/');
    proof {
        reveal_strlit("/");
        assert(legacy@ =~= "/remote.php/dav/files/"@ + uid@ + "/"@);
        assert(modern@ =~= "/dav/files/"@ + uid@ + "/"@);
    }
    let rest = match strip_prefix_chars(&dc, &legacy) {
        Some(r) => r,
        None => match strip_prefix_chars(&dc, &modern) {
            Some(r) => r,
            None => {
                let mut m = to_owned("Destination not under /dav/files/");
                push_str(&mut m, uid);
                push_str(&mut m, "/: ");
                push_str(&mut m, dest);
                return Err(DavError::BadRequest(m));
            },
        },
    };
    let t = trim_start_chars(&rest, '/');
    let mut out = String::new();
    push_char(&mut out, '/');
    push_chars(&mut out, &t);
    assert(out@ =~= seq!['/'] + t@);
    Ok(out)
}

/// Strip the surface prefix and the `/files/<uid>/` segment from a
/// `Destination` header; return the user-relative path (with a leading
/// `/`). Rejects destinations outside the authed user's files namespace.
pub fn parse_destination(dest: &str, uid: &str) -> (r: Result<String, DavError>)
    ensures
        match r {
            Ok(p) => spec_parse_destination(dest@, uid@) == Ok::<Seq<char>, Seq<char>>(p@),
            Err(e) => e matches DavError::BadRequest(m) && spec_parse_destination(dest@, uid@)
                == Err::<Seq<char>, Seq<char>>(m@),
        },
{
    let dc = chars_of(dest);
    let path = match destination_path_exec(&dc) {
        Some(p) => string_from(&p),
        None => return Err(DavError::BadRequest(to_owned("Destination missing path"))),
    };
    match url_decode(path.as_str()) {
        Ok(decoded) => files_relative_exec(decoded.as_str(), dest, uid),
        Err(e) => Err(DavError::BadRequest(concat("invalid url encoding: ", e.as_str()))),
    }
}


// ---------------------------------------------------------------- trash errors

/// What went wrong in the trash store.
#[derive(Debug, Clone, Copy, PartialEq, Eq, Structural)]
pub enum TrashErrorKind {
    NotFound,
    WrongUser,
    RestoreCollision,
    SourceMissing,
    /// Any other failure (I/O, database, ...).
    Other,
}

/// An error of the trash store, with its rendered message.
#[derive(Debug, Clone)]
pub struct TrashError {
    pub kind: TrashErrorKind,
    pub message: String,
}

/// The DAV error of a trash failure: a missing entry or source is 404, a
/// foreign entry 403, a restore over an existing file 409, anything else an
/// internal error `trash: <message>`.
pub fn trash_err(e: &TrashError) -> (r: DavError)
    ensures
        match e.kind {
            TrashErrorKind::NotFound | TrashErrorKind::SourceMissing => r == DavError::NotFound,
            TrashErrorKind::WrongUser => r == DavError::Forbidden,
            TrashErrorKind::RestoreCollision => r == DavError::Conflict,
            TrashErrorKind::Other => r matches DavError::Internal(m) && m@ == "trash: "@
                + e.message@,
        },
{
    match e.kind {
        TrashErrorKind::NotFound | TrashErrorKind::SourceMissing => DavError::NotFound,
        TrashErrorKind::WrongUser => DavError::Forbidden,
        TrashErrorKind::RestoreCollision => DavError::Conflict,
        TrashErrorKind::Other => DavError::Internal(concat("trash: ", e.message.as_str())),
    }
}

/// The OCS status code and message of a trash failure.
pub open spec fn spec_ocs_trash_error(e: TrashErrorKind, message: Seq<char>) -> (u16, Seq<char>) {
    match e {
        TrashErrorKind::NotFound => (404, "not found"@),
        TrashErrorKind::WrongUser => (403, "forbidden"@),
        TrashErrorKind::RestoreCollision => (409, "restore collision"@),
        TrashErrorKind::SourceMissing => (404, "source missing"@),
        TrashErrorKind::Other => (500, message),
    }
}

/// The OCS status code and message of a trash failure (the OCS trash-bin
/// endpoints wrap them in the envelope).
pub fn from_trash_error(e: &TrashError) -> (r: (u16, String))
    ensures
        r.0 == spec_ocs_trash_error(e.kind, e.message@).0,
        r.1@ == spec_ocs_trash_error(e.kind, e.message@).1,
{
    proof {
        reveal_strlit("not found");
        reveal_strlit("forbidden");
        reveal_strlit("restore collision");
        reveal_strlit("source missing");
    }
    match e.kind {
        TrashErrorKind::NotFound => (404, to_owned("not found")),
        TrashErrorKind::WrongUser => (403, to_owned("forbidden")),
        TrashErrorKind::RestoreCollision => (409, to_owned("restore collision")),
        TrashErrorKind::SourceMissing => (404, to_owned("source missing")),
        TrashErrorKind::Other => (500, to_owned(e.message.as_str())),
    }
}

} // verus!
