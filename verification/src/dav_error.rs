//! `DavError` — the protocol-aware error of the DAV surfaces and the HTTP
//! reply (status, headers, small body) each error turns into.
//!
//! The storage, file-cache and view errors of the storage layer reach this
//! crate as plain values: their variant (`kind`) and their rendered message.

use crate::codec::spec_header_value_ok;
use crate::text::{decimal, fmt_u64, push_chars, push_str, to_owned};
use vstd::prelude::*;

verus! {

/// Variants of a storage-layer error that the reply mapping tells apart.
#[derive(Debug, Clone, PartialEq, Eq)]
pub enum StorageErrorKind {
    NotFound,
    AlreadyExists,
    NotEmpty,
    PermissionDenied,
    InvalidPath(String),
    Other,
}

/// A storage-layer error: its variant and its rendered message.
#[derive(Debug, Clone, PartialEq, Eq)]
pub struct StorageError {
    pub kind: StorageErrorKind,
    pub message: String,
}

/// Variants of a file-cache error that the reply mapping tells apart.
#[derive(Debug, Clone, PartialEq, Eq)]
pub enum FileCacheErrorKind {
    NotFound,
    Storage(StorageErrorKind),
    Other,
}

/// A file-cache error: its variant and its rendered message.
#[derive(Debug, Clone, PartialEq, Eq)]
pub struct FileCacheError {
    pub kind: FileCacheErrorKind,
    pub message: String,
}

/// Variants of a view (filesystem) error that the reply mappings tell apart.
#[derive(Debug, Clone, PartialEq, Eq)]
pub enum FsErrorKind {
    NotFound,
    InvalidPath(String),
    CrossMount,
    MountNotFound,
    Storage(StorageError),
    FileCache(FileCacheError),
    Upload(String),
    Forbidden,
    Conflict,
    Unsupported,
    CrossStorage,
    Trash(String),
}

/// A view (filesystem) error: its variant and its rendered message.
#[derive(Debug, Clone)]
pub struct FsError {
    pub kind: FsErrorKind,
    pub message: String,
}

/// Errors of the DAV handlers.
#[derive(Debug, Clone)]
pub enum DavError {
    NotFound,
    Forbidden,
    Conflict,
    PreconditionFailed,
    Locked,
    RangeNotSatisfiable { file_size: u64 },
    PropfindFiniteDepth,
    BadRequest(String),
    Internal(String),
    Storage(StorageError),
    FileCache(FileCacheError),
    Fs(FsError),
}

/// An HTTP reply: status code, headers in order, and body text.
#[derive(Debug, Clone)]
pub struct Reply {
    pub status: u16,
    pub headers: Vec<(String, String)>,
    pub body: String,
}

/// The view of a reply header list.
pub open spec fn headers_view(h: Seq<(String, String)>) -> Seq<(Seq<char>, Seq<char>)> {
    h.map_values(|p: (String, String)| (p.0@, p.1@))
}

/// A header that is set only when its value is a valid header value.
pub open spec fn header_if_valid(name: Seq<char>, value: Seq<char>) -> Seq<(Seq<char>, Seq<char>)> {
    if spec_header_value_ok(value) {
        seq![(name, value)]
    } else {
        seq![]
    }
}

/// The `207 Multi-Status` body of `PropfindFiniteDepth`.
pub open spec fn finite_depth_body() -> Seq<char> {
    "<?xml version=\"1.0\" encoding=\"utf-8\"?><d:error xmlns:d=\"DAV:\"><d:propfind-finite-depth/></d:error>"@
}

/// Status code of the reply for a DAV error.
pub open spec fn dav_error_status(e: DavError) -> u16 {
    match e {
        DavError::NotFound => 404,
        DavError::Forbidden => 403,
        DavError::Conflict => 409,
        DavError::PreconditionFailed => 412,
        DavError::Locked => 423,
        DavError::RangeNotSatisfiable { .. } => 416,
        DavError::PropfindFiniteDepth => 403,
        DavError::BadRequest(_) => 400,
        DavError::Internal(_) => 500,
        DavError::Storage(s) => match s.kind {
            StorageErrorKind::NotFound => 404,
            StorageErrorKind::AlreadyExists => 405,
            StorageErrorKind::NotEmpty => 409,
            StorageErrorKind::PermissionDenied => 403,
            StorageErrorKind::InvalidPath(_) => 400,
            StorageErrorKind::Other => 500,
        },
        DavError::FileCache(f) => match f.kind {
            FileCacheErrorKind::NotFound => 404,
            FileCacheErrorKind::Storage(StorageErrorKind::NotFound) => 404,
            _ => 500,
        },
        DavError::Fs(f) => match f.kind {
            FsErrorKind::NotFound => 404,
            FsErrorKind::InvalidPath(_) => 400,
            FsErrorKind::CrossMount => 502,
            FsErrorKind::Storage(StorageError { kind: StorageErrorKind::NotFound, .. }) => 404,
            FsErrorKind::Storage(StorageError { kind: StorageErrorKind::PermissionDenied, .. }) => 403,
            FsErrorKind::FileCache(FileCacheError { kind: FileCacheErrorKind::NotFound, .. }) => 404,
            _ => 500,
        },
    }
}

/// Body text of the reply for a DAV error.
pub open spec fn dav_error_body(e: DavError) -> Seq<char> {
    match e {
        DavError::PropfindFiniteDepth => finite_depth_body(),
        DavError::BadRequest(m) => m@,
        DavError::Internal(m) => m@,
        DavError::Storage(s) => match s.kind {
            StorageErrorKind::InvalidPath(m) => m@,
            StorageErrorKind::Other => "storage error: "@ + s.message@,
            _ => seq![],
        },
        DavError::FileCache(f) => match f.kind {
            FileCacheErrorKind::NotFound => seq![],
            FileCacheErrorKind::Storage(StorageErrorKind::NotFound) => seq![],
            _ => "filecache error: "@ + f.message@,
        },
        DavError::Fs(f) => match f.kind {
            FsErrorKind::NotFound => seq![],
            FsErrorKind::InvalidPath(m) => m@,
            FsErrorKind::CrossMount => seq![],
            FsErrorKind::Storage(StorageError { kind: StorageErrorKind::NotFound, .. }) => seq![],
            FsErrorKind::Storage(StorageError { kind: StorageErrorKind::PermissionDenied, .. }) => seq![],
            FsErrorKind::FileCache(FileCacheError { kind: FileCacheErrorKind::NotFound, .. }) => seq![],
            _ => "fs error: "@ + f.message@,
        },
        _ => seq![],
    }
}

/// The header every plain-text reply carries.
pub open spec fn text_plain() -> Seq<(Seq<char>, Seq<char>)> {
    seq![("content-type"@, "text/plain; charset=utf-8"@)]
}

/// Headers of the reply for a DAV error: plain text, with the unsatisfied
/// range for a 416; the XML body of `PropfindFiniteDepth` is typed as XML.
pub open spec fn dav_error_headers(e: DavError) -> Seq<(Seq<char>, Seq<char>)> {
    match e {
        DavError::RangeNotSatisfiable { file_size } => text_plain() + seq![
            ("content-range"@, "bytes */"@ + decimal(file_size as nat)),
        ],
        DavError::PropfindFiniteDepth => seq![
            ("content-type"@, "application/xml; charset=utf-8"@),
        ],
        _ => text_plain(),
    }
}

/// A plain-text reply: the status, the body, and its text content type.
pub fn text_reply(status: u16, body: String) -> (r: Reply)
    ensures
        r.status == status,
        r.body@ == body@,
        headers_view(r.headers@) == text_plain(),
{
    let mut headers: Vec<(String, String)> = Vec::new();
    headers.push((to_owned("content-type"), to_owned("text/plain; charset=utf-8")));
    let r = Reply { status, headers, body };
    proof {
        reveal_strlit("content-type");
        reveal_strlit("text/plain; charset=utf-8");
    }
    assert(headers_view(r.headers@) =~= text_plain());
    r
}

/// A plain-text reply with further headers after its content type.
pub fn text_reply_with(status: u16, body: String, extra: Vec<(String, String)>) -> (r: Reply)
    ensures
        r.status == status,
        r.body@ == body@,
        headers_view(r.headers@) == text_plain() + headers_view(extra@),
{
    let mut r = text_reply(status, body);
    let ghost first = r.headers@;
    let mut extra = extra;
    let ghost more = extra@;
    r.headers.append(&mut extra);
    assert(headers_view(r.headers@) =~= headers_view(first) + headers_view(more));
    r
}

fn prefixed(prefix: &str, message: &String) -> (r: String)
    ensures
        r@ == prefix@ + message@,
{
    let mut s = to_owned(prefix);
    push_str(&mut s, message.as_str());
    s
}

impl DavError {
    /// The HTTP reply for this error.
    pub fn into_reply(self) -> (r: Reply)
        ensures
            r.status == dav_error_status(self),
            r.body@ == dav_error_body(self),
            headers_view(r.headers@) == dav_error_headers(self),
    {
        proof {
            reveal_strlit("storage error: ");
            reveal_strlit("filecache error: ");
            reveal_strlit("fs error: ");
            reveal_strlit("content-range");
            reveal_strlit("bytes */");
            reveal_strlit("content-type");
            reveal_strlit("application/xml; charset=utf-8");
            reveal_strlit(
                "<?xml version=\"1.0\" encoding=\"utf-8\"?><d:error xmlns:d=\"DAV:\"><d:propfind-finite-depth/></d:error>",
            );
        }
        match self {
            DavError::NotFound => text_reply(404, String::new()),
            DavError::Forbidden => text_reply(403, String::new()),
            DavError::Conflict => text_reply(409, String::new()),
            DavError::PreconditionFailed => text_reply(412, String::new()),
            DavError::Locked => text_reply(423, String::new()),
            DavError::RangeNotSatisfiable { file_size } => {
                let mut v = to_owned("bytes */");
                let digits = fmt_u64(file_size);
                push_chars(&mut v, &digits);
                let mut headers: Vec<(String, String)> = Vec::new();
                headers.push((to_owned("content-range"), v));
                let ghost hv = headers@;
                let r = text_reply_with(416, String::new(), headers);
                assert(headers_view(hv) =~= seq![("content-range"@, "bytes */"@ + decimal(file_size as nat))]);
                r
            },
            DavError::PropfindFiniteDepth => {
                let mut headers: Vec<(String, String)> = Vec::new();
                headers.push(
                    (to_owned("content-type"), to_owned("application/xml; charset=utf-8")),
                );
                let r = Reply {
                    status: 403,
                    headers,
                    body: to_owned(
                        "<?xml version=\"1.0\" encoding=\"utf-8\"?><d:error xmlns:d=\"DAV:\"><d:propfind-finite-depth/></d:error>",
                    ),
                };
                assert(headers_view(r.headers@) =~= dav_error_headers(self));
                r
            },
            DavError::BadRequest(m) => text_reply(400, m),
            DavError::Internal(m) => text_reply(500, m),
            DavError::Storage(s) => match s.kind {
                StorageErrorKind::NotFound => text_reply(404, String::new()),
                StorageErrorKind::AlreadyExists => text_reply(405, String::new()),
                StorageErrorKind::NotEmpty => text_reply(409, String::new()),
                StorageErrorKind::PermissionDenied => text_reply(403, String::new()),
                StorageErrorKind::InvalidPath(m) => text_reply(400, m),
                StorageErrorKind::Other => text_reply(500, prefixed("storage error: ", &s.message)),
            },
            DavError::FileCache(f) => match f.kind {
                FileCacheErrorKind::NotFound => text_reply(404, String::new()),
                FileCacheErrorKind::Storage(StorageErrorKind::NotFound) => text_reply(
                    404,
                    String::new(),
                ),
                _ => text_reply(500, prefixed("filecache error: ", &f.message)),
            },
            DavError::Fs(f) => match f.kind {
                FsErrorKind::NotFound => text_reply(404, String::new()),
                FsErrorKind::InvalidPath(m) => text_reply(400, m),
                FsErrorKind::CrossMount => text_reply(502, String::new()),
                FsErrorKind::Storage(StorageError { kind: StorageErrorKind::NotFound, .. }) => text_reply(404, String::new()),
                FsErrorKind::Storage(StorageError { kind: StorageErrorKind::PermissionDenied, .. }) => text_reply(
                    403,
                    String::new(),
                ),
                FsErrorKind::FileCache(FileCacheError { kind: FileCacheErrorKind::NotFound, .. }) => text_reply(
                    404,
                    String::new(),
                ),
                _ => text_reply(500, prefixed("fs error: ", &f.message)),
            },
        }
    }
}

} // verus!
