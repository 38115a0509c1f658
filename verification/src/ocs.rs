//! The OCS surface (`/ocs/v2.php/...`): every payload is wrapped in
//! `{ ocs: { meta, data } }` (or the XML equivalent) carrying both an HTTP
//! status and an OCS `statuscode`. This module holds the core errors the
//! handlers produce, the OCS status each maps to, and the HTTP code of a
//! wrapped reply. Rendering the envelope itself is the OCS renderer's work.

use crate::text::to_owned;
use vstd::prelude::*;

verus! {

/// The application's core error.
#[derive(Debug, Clone, PartialEq, Eq)]
pub enum CoreError {
    NotFound,
    Unauthorized,
    Forbidden,
    BadRequest(String),
    Conflict(String),
    Locked,
    /// A raw OCS failure; the code is already in the message.
    Ocs { code: u32, message: String },
    Config(String),
    ConfigValidation(String),
    Db(String),
    Cache(String),
    Internal(String),
    /// An error of the user store, rendered.
    Users(String),
}

/// Nextcloud's OCS status palette.
#[derive(Debug, Clone, Copy, PartialEq, Eq, Structural)]
pub enum OcsStatus {
    Success,
    Created,
    BadRequest,
    Unauthorized,
    Forbidden,
    NotFound,
    ServerError,
    UnknownError,
}

/// OCS protocol version.
#[derive(Debug, Clone, Copy, PartialEq, Eq, Structural)]
pub enum OcsVersion {
    V1,
    V2,
}

/// OCS output format (XML by default, JSON on request).
#[derive(Debug, Clone, Copy, PartialEq, Eq, Structural)]
pub enum OcsFormat {
    Xml,
    Json,
}

/// Plain HTTP error reply (`{"error": "..."}` JSON) around a core error.
#[derive(Debug, Clone)]
pub struct ApiError(pub CoreError);

/// OCS-envelope error reply around a core error.
#[derive(Debug, Clone)]
pub struct OcsError {
    /// Underlying core error.
    pub error: CoreError,
    /// OCS protocol version to use when rendering.
    pub version: OcsVersion,
    /// Output format (XML/JSON).
    pub format: OcsFormat,
}

/// The OCS status of a core error. OCS has no 409 (conflicts are bad
/// requests) and no 423 (locks are server errors); a raw OCS failure keeps
/// its code in the message and is an unknown error here.
pub open spec fn spec_ocs_status(e: CoreError) -> OcsStatus {
    match e {
        CoreError::NotFound => OcsStatus::NotFound,
        CoreError::Unauthorized => OcsStatus::Unauthorized,
        CoreError::Forbidden => OcsStatus::Forbidden,
        CoreError::BadRequest(_) => OcsStatus::BadRequest,
        CoreError::Conflict(_) => OcsStatus::BadRequest,
        CoreError::Locked => OcsStatus::ServerError,
        CoreError::Ocs { .. } => OcsStatus::UnknownError,
        CoreError::Users(_) => OcsStatus::ServerError,
        _ => OcsStatus::ServerError,
    }
}

impl OcsError {
    /// Build an `OcsError` wrapping `error` with the requested version + format.
    pub fn new(error: CoreError, version: OcsVersion, format: OcsFormat) -> (r: OcsError)
        ensures
            r.error == error,
            r.version == version,
            r.format == format,
    {
        OcsError { error, version, format }
    }

    /// The OCS status carried in the envelope.
    pub fn ocs_status(&self) -> (r: OcsStatus)
        ensures
            r == spec_ocs_status(self.error),
    {
        match self.error {
            CoreError::NotFound => OcsStatus::NotFound,
            CoreError::Unauthorized => OcsStatus::Unauthorized,
            CoreError::Forbidden => OcsStatus::Forbidden,
            CoreError::BadRequest(_) => OcsStatus::BadRequest,
            CoreError::Conflict(_) => OcsStatus::BadRequest,
            CoreError::Locked => OcsStatus::ServerError,
            CoreError::Ocs { .. } => OcsStatus::UnknownError,
            CoreError::Users(_) => OcsStatus::ServerError,
            _ => OcsStatus::ServerError,
        }
    }
}

/// `StatusCode::from_u16` with a 500 fallback: codes 100 to 999 are kept.
pub open spec fn spec_http_status_from(code: u16) -> u16 {
    if 100 <= code && code < 1000 {
        code
    } else {
        500
    }
}

/// The HTTP status of a reply with the given code (500 when it is not a
/// valid status code).
pub fn http_status_from(code: u16) -> (r: u16)
    ensures
        r == spec_http_status_from(code),
{
    if 100 <= code && code < 1000 {
        code
    } else {
        500
    }
}

/// The OCS status mirroring an HTTP code. Codes without a dedicated OCS
/// status (501, other 5xx, anything custom) are unknown errors; the HTTP
/// code itself stays distinct on the response line.
pub open spec fn spec_ocs_status_for_http(code: u16) -> OcsStatus {
    if code == 200 {
        OcsStatus::Success
    } else if code == 201 {
        OcsStatus::Created
    } else if code == 400 {
        OcsStatus::BadRequest
    } else if code == 401 {
        OcsStatus::Unauthorized
    } else if code == 403 {
        OcsStatus::Forbidden
    } else if code == 404 {
        OcsStatus::NotFound
    } else {
        OcsStatus::UnknownError
    }
}

/// HTTP code → Nextcloud OCS status.
pub fn ocs_status_for_http(code: u16) -> (r: OcsStatus)
    ensures
        r == spec_ocs_status_for_http(code),
{
    match code {
        200 => OcsStatus::Success,
        201 => OcsStatus::Created,
        400 => OcsStatus::BadRequest,
        401 => OcsStatus::Unauthorized,
        403 => OcsStatus::Forbidden,
        404 => OcsStatus::NotFound,
        _ => OcsStatus::UnknownError,
    }
}

/// The HTTP status code an OCS status is named after: each of the six
/// statuses that mirror an HTTP answer (200 OK, 201 Created, 400 Bad
/// Request, 401 Unauthorized, 403 Forbidden, 404 Not Found) has its code;
/// `ServerError` and `UnknownError` mirror none.
pub open spec fn mirrored_http_code(s: OcsStatus) -> Option<u16> {
    match s {
        OcsStatus::Success => Some(200u16),
        OcsStatus::Created => Some(201u16),
        OcsStatus::BadRequest => Some(400u16),
        OcsStatus::Unauthorized => Some(401u16),
        OcsStatus::Forbidden => Some(403u16),
        OcsStatus::NotFound => Some(404u16),
        OcsStatus::ServerError => None,
        OcsStatus::UnknownError => None,
    }
}

/// The OCS status of an envelope mirrors its HTTP code: for a code that an
/// OCS status is named after, it is that status, so it gives the code
/// back; every other code (5xx, 501, anything custom) is `UnknownError`.
pub proof fn lemma_ocs_status_mirrors_http(code: u16)
    ensures
        forall|s: OcsStatus| #[trigger] mirrored_http_code(s) == Some(code) ==> spec_ocs_status_for_http(code) == s,
        (forall|s: OcsStatus| #[trigger] mirrored_http_code(s) != Some(code))
            ==> spec_ocs_status_for_http(code) == OcsStatus::UnknownError,
        spec_ocs_status_for_http(code) == OcsStatus::UnknownError || mirrored_http_code(
            spec_ocs_status_for_http(code),
        ) == Some(code),
{
    assert(mirrored_http_code(OcsStatus::Success) == Some(200u16));
    assert(mirrored_http_code(OcsStatus::Created) == Some(201u16));
    assert(mirrored_http_code(OcsStatus::BadRequest) == Some(400u16));
    assert(mirrored_http_code(OcsStatus::Unauthorized) == Some(401u16));
    assert(mirrored_http_code(OcsStatus::Forbidden) == Some(403u16));
    assert(mirrored_http_code(OcsStatus::NotFound) == Some(404u16));
}

/// What the envelope of a wrapped reply carries besides the payload.
#[derive(Debug, Clone)]
pub struct OcsMeta {
    pub http_status: u16,
    pub status: OcsStatus,
    pub message: String,
    pub version: OcsVersion,
}

/// The meta of `ocs_envelope(code, message, ..)`: HTTP status from the
/// code, OCS status mirroring it, protocol version 2.
pub fn ocs_envelope_meta(code: u16, message: &str) -> (r: OcsMeta)
    ensures
        r.http_status == spec_http_status_from(code),
        r.status == spec_ocs_status_for_http(code),
        r.message@ == message@,
        r.version == OcsVersion::V2,
{
    OcsMeta {
        http_status: http_status_from(code),
        status: ocs_status_for_http(code),
        message: to_owned(message),
        version: OcsVersion::V2,
    }
}

} // verus!
