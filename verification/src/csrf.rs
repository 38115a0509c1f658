//! CSRF protection matching Nextcloud's request-token scheme: the token
//! comes in the `requesttoken` header and is compared against the
//! session's `csrf_token`. The check is bypassed for safe methods, for
//! `OCS-APIRequest: true`, for anonymous requests, and for Bearer / Basic
//! authentication.

use crate::auth::AuthMethod;
use crate::dav_error::Reply;
use crate::headers::{header_lookup, lemma_lower_literal, HeaderMap};
use crate::text::{chars_of, str_eq, to_owned};
use vstd::prelude::*;

verus! {

/// Whether the HTTP method is one the check never applies to.
pub open spec fn is_safe_method(method: Seq<char>) -> bool {
    method == "GET"@ || method == "HEAD"@ || method == "OPTIONS"@
}

/// Whether an unsafe request may proceed: safe methods, `OCS-APIRequest:
/// true`, anonymous requests and Bearer / Basic requests always do; a
/// session-authenticated request needs a non-empty `requesttoken` equal to
/// the session's non-empty token (`expected` is empty when the request has
/// no session).
pub open spec fn spec_csrf_allows(
    method: Seq<char>,
    h: Seq<(Seq<char>, Seq<char>)>,
    auth: Option<AuthMethod>,
    expected: Seq<char>,
) -> bool {
    if is_safe_method(method) {
        true
    } else if header_lookup(h, "ocs-apirequest"@) == Some("true"@) {
        true
    } else {
        match auth {
            None => true,
            Some(AuthMethod::Bearer) => true,
            Some(AuthMethod::Basic) => true,
            Some(AuthMethod::Session) => expected.len() > 0 && match header_lookup(
                h,
                "requesttoken"@,
            ) {
                Some(s) => s.len() > 0 && s == expected,
                None => false,
            },
        }
    }
}

/// `tower` layer that enforces Nextcloud-style CSRF tokens on unsafe methods.
#[derive(Debug, Clone, Copy, Default)]
pub struct CsrfLayer;

impl CsrfLayer {
    /// Construct the layer with default behavior.
    pub fn new() -> (r: CsrfLayer)
        ensures
            r == CsrfLayer,
    {
        CsrfLayer
    }

    /// Wrap an inner service.
    pub fn layer<S>(&self, inner: S) -> (r: CsrfMiddleware<S>)
        ensures
            r.inner == inner,
    {
        CsrfMiddleware { inner }
    }
}

/// The service produced by [`CsrfLayer`].
#[derive(Debug, Clone)]
pub struct CsrfMiddleware<S> {
    pub inner: S,
}

/// Decide whether a request passes the CSRF check.
pub fn csrf_allows(
    method: &str,
    headers: &HeaderMap,
    auth: Option<AuthMethod>,
    expected: &str,
) -> (r: bool)
    ensures
        r == spec_csrf_allows(method@, headers@, auth, expected@),
{
    proof {
        reveal_strlit("ocs-apirequest");
        reveal_strlit("requesttoken");
        lemma_lower_literal("ocs-apirequest"@);
        lemma_lower_literal("requesttoken"@);
    }
    if str_eq(method, "GET") || str_eq(method, "HEAD") || str_eq(method, "OPTIONS") {
        return true;
    }
    match headers.get("ocs-apirequest") {
        Some(v) => {
            if str_eq(v, "true") {
                return true;
            }
        },
        None => {},
    }
    match auth {
        None => true,
        Some(AuthMethod::Bearer) => true,
        Some(AuthMethod::Basic) => true,
        Some(AuthMethod::Session) => {
            if chars_of(expected).len() == 0 {
                return false;
            }
            match headers.get("requesttoken") {
                Some(s) => chars_of(s).len() > 0 && str_eq(s, expected),
                None => false,
            }
        },
    }
}

/// The 403 reply for a request that fails the check.
pub fn csrf_rejection() -> (r: Reply)
    ensures
        r.status == 403,
        r.body@ == "csrf token missing or mismatched"@,
        crate::dav_error::headers_view(r.headers@) == crate::dav_error::text_plain(),
{
    crate::dav_error::text_reply(403, to_owned("csrf token missing or mismatched"))
}

} // verus!
