//! The DAV versions surface: the numeric ids of version hrefs and the
//! restore `Destination`.

use crate::dav_error::DavError;
use crate::codec::{spec_url_decode, url_decode, url_decode_error_text};
use crate::headers::{
    destination_path, destination_path_exec, header_lookup, lemma_lower_literal, HeaderMap,
};
use crate::text::{
    before_char, before_char_chars, chars_of, concat, parse_i64, push_str, spec_parse_i64, str_eq,
    string_from, to_owned,
};
use crate::trashbin::{files_relative, files_relative_exec};
use vstd::prelude::*;

verus! {
// ---------------------------------------------------------------- numeric ids

/// A non-negative `i64` written in decimal (Rust `str::parse` syntax).
pub open spec fn spec_parse_nonneg_id(s: Seq<char>) -> Option<i64> {
    match spec_parse_i64(s) {
        Some(n) => if n >= 0 { Some(n) } else { None },
        None => None,
    }
}

/// Parse the `{fileid}` URL segment of a versions href: a non-negative
/// integer, anything else is `NotFound`.
pub fn parse_fileid(s: &str) -> (r: Result<i64, DavError>)
    ensures
        match r {
            Ok(n) => spec_parse_nonneg_id(s@) == Some(n),
            Err(e) => spec_parse_nonneg_id(s@) is None && e == DavError::NotFound,
        },
{
    let cs = chars_of(s);
    match parse_i64(&cs) {
        Some(n) => if n >= 0 {
            Ok(n)
        } else {
            Err(DavError::NotFound)
        },
        None => Err(DavError::NotFound),
    }
}

/// Parse the `{version_mtime}` URL segment of a versions href: a
/// non-negative integer, anything else is `NotFound`.
pub fn parse_version_mtime(s: &str) -> (r: Result<i64, DavError>)
    ensures
        match r {
            Ok(n) => spec_parse_nonneg_id(s@) == Some(n),
            Err(e) => spec_parse_nonneg_id(s@) is None && e == DavError::NotFound,
        },
{
    parse_fileid(s)
}

} // verus!

verus! {

/// What a version-restore `Destination` resolves to for user `uid`: like the
/// trashbin destination, but the path stops at the first `?` and then at the
/// first `#` before it is percent-decoded.
pub open spec fn spec_parse_destination(dest: Seq<char>, uid: Seq<char>) -> Result<
    Seq<char>,
    Seq<char>,
> {
    match destination_path(dest) {
        None => Err("Destination missing path"@),
        Some(full) => {
            let path = before_char(before_char(full, '?'), '#');
            match spec_url_decode(path) {
                None => Err("invalid url encoding: "@ + url_decode_error_text(path)),
                Some(decoded) => files_relative(decoded, dest, uid),
            }
        },
    }
}

/// Strip the surface prefix and the `/files/<uid>/` segment from a
/// `Destination` header (query and fragment dropped); return the
/// user-relative path with a leading `/`.
pub fn parse_destination(dest: &str, uid: &str) -> (r: Result<String, DavError>)
    ensures
        match r {
            Ok(p) => spec_parse_destination(dest@, uid@) == Ok::<Seq<char>, Seq<char>>(p@),
            Err(e) => e matches DavError::BadRequest(m) && spec_parse_destination(dest@, uid@)
                == Err::<Seq<char>, Seq<char>>(m@),
        },
{
    let dc = chars_of(dest);
    let full = match destination_path_exec(&dc) {
        Some(p) => p,
        None => return Err(DavError::BadRequest(to_owned("Destination missing path"))),
    };
    let q = before_char_chars(&full, '?');
    let h = before_char_chars(&q, '#');
    let path = string_from(&h);
    match url_decode(path.as_str()) {
        Ok(decoded) => files_relative_exec(decoded.as_str(), dest, uid),
        Err(e) => Err(DavError::BadRequest(concat("invalid url encoding: ", e.as_str()))),
    }
}


// ---------------------------------------------------------------- version errors

/// What went wrong in the versions store.
#[derive(Debug, Clone)]
pub enum VersionsErrorKind {
    NotFound,
    SourceMissing,
    WrongUser,
    DuplicateSnapshot,
    /// An I/O failure, rendered.
    Io(String),
    /// A database failure, rendered.
    Db(String),
}

/// An error of the versions store, with its rendered message.
#[derive(Debug, Clone)]
pub struct VersionsError {
    pub kind: VersionsErrorKind,
    pub message: String,
}

/// The DAV error of a versions failure: missing version or source 404,
/// foreign version 403, duplicate snapshot 409, I/O and database failures
/// internal errors naming their cause.
pub fn versions_err(e: &VersionsError) -> (r: DavError)
    ensures
        match e.kind {
            VersionsErrorKind::NotFound | VersionsErrorKind::SourceMissing => r == DavError::NotFound,
            VersionsErrorKind::WrongUser => r == DavError::Forbidden,
            VersionsErrorKind::DuplicateSnapshot => r == DavError::Conflict,
            VersionsErrorKind::Io(x) => r matches DavError::Internal(m) && m@ == "versions io: "@ + x@,
            VersionsErrorKind::Db(x) => r matches DavError::Internal(m) && m@ == "versions db: "@ + x@,
        },
{
    match &e.kind {
        VersionsErrorKind::NotFound | VersionsErrorKind::SourceMissing => DavError::NotFound,
        VersionsErrorKind::WrongUser => DavError::Forbidden,
        VersionsErrorKind::DuplicateSnapshot => DavError::Conflict,
        VersionsErrorKind::Io(x) => DavError::Internal(concat("versions io: ", x.as_str())),
        VersionsErrorKind::Db(x) => DavError::Internal(concat("versions db: ", x.as_str())),
    }
}

/// The OCS status code and message of a versions failure.
pub open spec fn spec_ocs_versions_error(e: VersionsError) -> (u16, Seq<char>) {
    match e.kind {
        VersionsErrorKind::NotFound | VersionsErrorKind::SourceMissing => (404, "not found"@),
        VersionsErrorKind::WrongUser => (403, "forbidden"@),
        _ => (500, e.message@),
    }
}

/// The OCS status code and message of a versions failure (the OCS versions
/// endpoints wrap them in the envelope).
pub fn from_versions_error(e: &VersionsError) -> (r: (u16, String))
    ensures
        r.0 == spec_ocs_versions_error(*e).0,
        r.1@ == spec_ocs_versions_error(*e).1,
{
    proof {
        reveal_strlit("not found");
        reveal_strlit("forbidden");
    }
    match e.kind {
        VersionsErrorKind::NotFound | VersionsErrorKind::SourceMissing => (404, to_owned("not found")),
        VersionsErrorKind::WrongUser => (403, to_owned("forbidden")),
        _ => (500, to_owned(e.message.as_str())),
    }
}

/// Whether a version may be restored by the signed-in user: only its
/// owner's (else the request is refused as a foreign version).
pub fn restore_owner_check(entry_user: &str, uid: &str) -> (r: Result<(), VersionsErrorKind>)
    ensures
        entry_user@ == uid@ ==> r is Ok,
        entry_user@ != uid@ ==> (r matches Err(k) && k is WrongUser),
{
    if str_eq(entry_user, uid) {
        Ok(())
    } else {
        Err(VersionsErrorKind::WrongUser)
    }
}


/// The destination of a version restore (`COPY`): the `Destination` header
/// is required (400 `Destination header required`) and resolved for `uid`.
pub fn restore_destination(headers: &HeaderMap, uid: &str) -> (r: Result<String, DavError>)
    ensures
        match header_lookup(headers@, "destination"@) {
            None => r matches Err(DavError::BadRequest(m)) && m@ == "Destination header required"@,
            Some(d) => match spec_parse_destination(d, uid@) {
                Ok(p) => r matches Ok(x) && x@ == p,
                Err(m) => r matches Err(DavError::BadRequest(n)) && n@ == m,
            },
        },
{
    proof {
        reveal_strlit("destination");
        lemma_lower_literal("destination"@);
    }
    match headers.get("destination") {
        None => Err(DavError::BadRequest(to_owned("Destination header required"))),
        Some(d) => parse_destination(d, uid),
    }
}

/// A version is restored in place: the destination must be the file's
/// current path (else 400 naming that path).
pub fn restore_target_check(destination: &str, entry_path: &str) -> (r: Result<(), DavError>)
    ensures
        destination@ == entry_path@ ==> r is Ok,
        destination@ != entry_path@ ==> (r matches Err(DavError::BadRequest(m)) && m@
            == "Destination must match the file's current path ("@ + entry_path@ + ")"@),
{
    if str_eq(destination, entry_path) {
        return Ok(());
    }
    let mut m = to_owned("Destination must match the file's current path (");
    push_str(&mut m, entry_path);
    push_str(&mut m, ")");
    proof {
        reveal_strlit("Destination must match the file's current path (");
        reveal_strlit(")");
    }
    Err(DavError::BadRequest(m))
}

} // verus!
