//! Security headers set on every response. The content security policy
//! differs between HTML (the UI, which runs WebAssembly and one allow-listed
//! inline hydration script) and everything else (the API, which loads
//! nothing).

use crate::headers::{header_lookup, lemma_lower_literal, HeaderMap};
use crate::text::{chars_of, has_prefix, starts_with};
use vstd::prelude::*;

verus! {

/// The restrictive policy of API responses.
pub open spec fn csp_api() -> Seq<char> {
    "default-src 'none'; frame-ancestors 'self'; base-uri 'self'"@
}

/// The policy of HTML responses.
pub open spec fn csp_ui() -> Seq<char> {
    "default-src 'self'; script-src 'self' 'wasm-unsafe-eval' 'sha256-2Um9bmAkI+7EnHO+y0iR+2Mtb+HfZKZF0ywRt8/LfRI='; style-src 'self' 'unsafe-inline'; img-src 'self' data:; connect-src 'self'; frame-ancestors 'self'; base-uri 'self'"@
}

/// The policy for a response's `Content-Type`: the UI policy for
/// `text/html...`, the API policy otherwise.
pub open spec fn spec_csp_for(ct: Option<Seq<char>>) -> Seq<char> {
    match ct {
        Some(s) => if has_prefix(s, "text/html"@) {
            csp_ui()
        } else {
            csp_api()
        },
        None => csp_api(),
    }
}

/// The content security policy for a response's `Content-Type` value.
pub fn csp_for_content_type(ct: Option<&str>) -> (r: &'static str)
    ensures
        r@ == spec_csp_for(
            match ct {
                Some(s) => Some(s@),
                None => None,
            },
        ),
{
    let ui = "default-src 'self'; script-src 'self' 'wasm-unsafe-eval' 'sha256-2Um9bmAkI+7EnHO+y0iR+2Mtb+HfZKZF0ywRt8/LfRI='; style-src 'self' 'unsafe-inline'; img-src 'self' data:; connect-src 'self'; frame-ancestors 'self'; base-uri 'self'";
    let api = "default-src 'none'; frame-ancestors 'self'; base-uri 'self'";
    match ct {
        Some(s) => {
            let sc = chars_of(s);
            let p = chars_of("text/html");
            if starts_with(&sc, &p) {
                ui
            } else {
                api
            }
        },
        None => api,
    }
}

/// `tower` layer that adds the security headers to every response.
#[derive(Debug, Clone, Copy, Default)]
pub struct SecurityHeadersLayer;

impl SecurityHeadersLayer {
    /// Build the layer with default settings.
    pub fn new() -> (r: SecurityHeadersLayer)
        ensures
            r == SecurityHeadersLayer,
    {
        SecurityHeadersLayer
    }

    /// Wrap an inner service.
    pub fn layer<S>(&self, inner: S) -> (r: SecurityHeaders<S>)
        ensures
            r.inner == inner,
    {
        SecurityHeaders { inner }
    }
}

/// Middleware service produced by [`SecurityHeadersLayer`].
#[derive(Debug, Clone)]
pub struct SecurityHeaders<S> {
    pub inner: S,
}

/// Set the security headers on a response: HSTS, `nosniff`, the referrer
/// policy, `SAMEORIGIN` framing and the content security policy chosen by
/// the response's `Content-Type`. Every other header is left as it was.
pub fn apply_security_headers(headers: &mut HeaderMap)
    ensures
        header_lookup(final(headers)@, "strict-transport-security"@) == Some(
            "max-age=31536000; includeSubDomains"@,
        ),
        header_lookup(final(headers)@, "x-content-type-options"@) == Some("nosniff"@),
        header_lookup(final(headers)@, "referrer-policy"@) == Some(
            "strict-origin-when-cross-origin"@,
        ),
        header_lookup(final(headers)@, "x-frame-options"@) == Some("SAMEORIGIN"@),
        header_lookup(final(headers)@, "content-security-policy"@) == Some(
            spec_csp_for(header_lookup(old(headers)@, "content-type"@)),
        ),
        forall|n: Seq<char>|
            n != "strict-transport-security"@ && n != "x-content-type-options"@ && n
                != "referrer-policy"@ && n != "x-frame-options"@ && n
                != "content-security-policy"@ ==> #[trigger] header_lookup(final(headers)@, n)
                == header_lookup(old(headers)@, n),
{
    proof {
        reveal_strlit("strict-transport-security");
        reveal_strlit("x-content-type-options");
        reveal_strlit("referrer-policy");
        reveal_strlit("x-frame-options");
        reveal_strlit("content-security-policy");
        reveal_strlit("content-type");
        lemma_lower_literal("strict-transport-security"@);
        lemma_lower_literal("x-content-type-options"@);
        lemma_lower_literal("referrer-policy"@);
        lemma_lower_literal("x-frame-options"@);
        lemma_lower_literal("content-security-policy"@);
        lemma_lower_literal("content-type"@);
        assert("referrer-policy"@[0] != "x-frame-options"@[0]);
    }
    headers.insert("strict-transport-security", "max-age=31536000; includeSubDomains");
    headers.insert("x-content-type-options", "nosniff");
    headers.insert("referrer-policy", "strict-origin-when-cross-origin");
    headers.insert("x-frame-options", "SAMEORIGIN");
    let csp = csp_for_content_type(headers.get("content-type"));
    headers.insert("content-security-policy", csp);
}

} // verus!
