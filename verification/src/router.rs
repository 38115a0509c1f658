//! How the HTTP surfaces are put together: the request body limit, the
//! origins CORS admits on the OCS and app surface, and which paths pass
//! through the public-link authentication.
//!
//! The stack itself (routers, layers, their order) is assembled by the
//! server; the decisions it takes from its configuration are here.

use crate::codec::{header_value_ok, spec_header_value_ok};
use crate::text::{chars_of, concat, has_prefix, starts_with};
use vstd::prelude::*;

verus! {

/// Largest request body accepted: 512 MiB.
pub const DEFAULT_BODY_LIMIT_BYTES: usize = 536870912;

/// `[s]` when `s` is a valid header value, else nothing.
pub open spec fn keep_valid(s: Seq<char>) -> Seq<Seq<char>> {
    if spec_header_value_ok(s) {
        seq![s]
    } else {
        seq![]
    }
}

/// The CORS origins of the trusted domains: for each domain, in order,
/// `https://<domain>` then `http://<domain>`, each only when it is a valid
/// header value.
pub open spec fn spec_cors_origins(domains: Seq<Seq<char>>) -> Seq<Seq<char>>
    decreases domains.len(),
{
    if domains.len() == 0 {
        seq![]
    } else {
        let d = domains.last();
        spec_cors_origins(domains.drop_last()) + keep_valid("https://"@ + d) + keep_valid(
            "http://"@ + d,
        )
    }
}

/// The views of a list of strings.
pub open spec fn strings_view(v: Seq<String>) -> Seq<Seq<char>> {
    v.map_values(|s: String| s@)
}

/// The origins CORS admits for the configured trusted domains.
pub fn cors_origins(trusted_domains: &Vec<String>) -> (r: Vec<String>)
    ensures
        strings_view(r@) == spec_cors_origins(strings_view(trusted_domains@)),
{
    let mut out: Vec<String> = Vec::new();
    let mut i: usize = 0;
    while i < trusted_domains.len()
        invariant
            i <= trusted_domains@.len(),
            strings_view(out@) == spec_cors_origins(
                strings_view(trusted_domains@).subrange(0, i as int),
            ),
        decreases trusted_domains@.len() - i,
    {
        let ghost before = out@;
        let d = trusted_domains[i].as_str();
        let secure = concat("https://", d);
        let plain = concat("http://", d);
        let ghost dv = strings_view(trusted_domains@);
        assert(dv.subrange(0, i + 1).drop_last() =~= dv.subrange(0, i as int));
        assert(dv.subrange(0, i + 1).last() == d@);
        if header_value_ok(secure.as_str()) {
            out.push(secure);
        }
        assert(strings_view(out@) =~= strings_view(before) + keep_valid("https://"@ + d@));
        let ghost mid = out@;
        if header_value_ok(plain.as_str()) {
            out.push(plain);
        }
        assert(strings_view(out@) =~= strings_view(mid) + keep_valid("http://"@ + d@));
        i = i + 1;
    }
    assert(strings_view(trusted_domains@).subrange(0, i as int) =~= strings_view(
        trusted_domains@,
    ));
    out
}

/// Whether a request passes through the public-link authentication of the
/// browser surface: exactly the paths under `/s/`.
pub fn public_link_gate(path: &str) -> (r: bool)
    ensures
        r == has_prefix(path@, "/s/"@),
{
    let pc = chars_of(path);
    let pre = chars_of("/s/");
    starts_with(&pc, &pre)
}

/// Whether a request passes through the public-link authentication of the
/// DAV surface (HTTP Basic and a per-token rate limit): exactly the paths
/// under `/public.php/dav/files/`.
pub fn public_dav_gate(path: &str) -> (r: bool)
    ensures
        r == has_prefix(path@, "/public.php/dav/files/"@),
{
    let pc = chars_of(path);
    let pre = chars_of("/public.php/dav/files/");
    starts_with(&pc, &pre)
}

} // verus!
