//! Request headers as plain values, and the DAV header parsers:
//! `Depth`, `Overwrite`, `Destination`, `Range`, `If-Match` and `If-None-Match`.
//!
//! Header names are case-insensitive: they are stored and looked up in
//! ASCII lower case. A header's value is present when it is visible ASCII
//! text; a lookup sees the first value stored under a name.

use crate::dav_error::DavError;
use crate::text::{
    chars_of, concat, find, find_sub, find_sub_chars, index_of, slice_chars,
    spec_parse_u64, parse_u64, split_once, split_once_chars, str_eq, string_from, strip_prefix,
    strip_prefix_chars, to_owned, trim, trim_char, trim_chars, trim_matching_chars, contains,
    contains_chars,
};
use vstd::prelude::*;

verus! {

// ---------------------------------------------------------------- header map

/// ASCII lower-casing of one character.
pub open spec fn ascii_lower(c: char) -> char {
    if 'A' <= c <= 'Z' {
        (((c as u8) + 32) as u8) as char
    } else {
        c
    }
}

/// ASCII lower-casing of a name.
pub open spec fn lower(s: Seq<char>) -> Seq<char> {
    s.map_values(|c: char| ascii_lower(c))
}

/// The first value stored under `name` in a list of `(name, value)` pairs.
pub open spec fn header_lookup(h: Seq<(Seq<char>, Seq<char>)>, name: Seq<char>) -> Option<
    Seq<char>,
>
    decreases h.len(),
{
    if h.len() == 0 {
        None
    } else if h[0].0 == name {
        Some(h[0].1)
    } else {
        header_lookup(h.drop_first(), name)
    }
}

/// Request headers: `(lower-case name, value)` pairs in insertion order.
#[derive(Debug, Clone)]
pub struct HeaderMap {
    entries: Vec<(String, String)>,
}

impl View for HeaderMap {
    type V = Seq<(Seq<char>, Seq<char>)>;

    closed spec fn view(&self) -> Seq<(Seq<char>, Seq<char>)> {
        self.entries@.map_values(|p: (String, String)| (p.0@, p.1@))
    }
}

/// Exec `lower`.
pub fn lower_exec(s: &str) -> (r: String)
    ensures
        r@ == lower(s@),
{
    let cs = chars_of(s);
    let mut out: Vec<char> = Vec::new();
    let mut i: usize = 0;
    while i < cs.len()
        invariant
            i <= cs@.len(),
            out@ == cs@.subrange(0, i as int).map_values(|c: char| ascii_lower(c)),
        decreases cs@.len() - i,
    {
        let c = cs[i];
        let d = if 'A' <= c && c <= 'Z' {
            ((c as u8) + 32) as char
        } else {
            c
        };
        out.push(d);
        i = i + 1;
        assert(out@ =~= cs@.subrange(0, i as int).map_values(|c: char| ascii_lower(c)));
    }
    assert(cs@.subrange(0, cs@.len() as int) =~= cs@);
    string_from(&out)
}

proof fn lemma_lookup_index(h: Seq<(Seq<char>, Seq<char>)>, name: Seq<char>, i: int)
    requires
        0 <= i < h.len(),
        h[i].0 == name,
        forall|k: int| 0 <= k < i ==> h[k].0 != name,
    ensures
        header_lookup(h, name) == Some(h[i].1),
    decreases i,
{
    if i > 0 {
        lemma_lookup_index(h.drop_first(), name, i - 1);
    }
}

proof fn lemma_lookup_none(h: Seq<(Seq<char>, Seq<char>)>, name: Seq<char>)
    requires
        forall|k: int| 0 <= k < h.len() ==> h[k].0 != name,
    ensures
        header_lookup(h, name) is None,
    decreases h.len(),
{
    if h.len() > 0 {
        lemma_lookup_none(h.drop_first(), name);
    }
}

proof fn lemma_lookup_update(
    h: Seq<(Seq<char>, Seq<char>)>,
    name: Seq<char>,
    i: int,
    v: Seq<char>,
    other: Seq<char>,
)
    requires
        0 <= i < h.len(),
        h[i].0 == name,
        forall|k: int| 0 <= k < i ==> h[k].0 != name,
        other != name,
    ensures
        header_lookup(h.update(i, (name, v)), other) == header_lookup(h, other),
    decreases i,
{
    if i > 0 {
        lemma_lookup_update(h.drop_first(), name, i - 1, v, other);
        assert(h.update(i, (name, v)).drop_first() =~= h.drop_first().update(i - 1, (name, v)));
    } else {
        assert(h.update(i, (name, v)).drop_first() =~= h.drop_first());
    }
}

proof fn lemma_lookup_push(h: Seq<(Seq<char>, Seq<char>)>, e: (Seq<char>, Seq<char>), n: Seq<char>)
    ensures
        header_lookup(h.push(e), n) == (match header_lookup(h, n) {
            Some(v) => Some(v),
            None => if e.0 == n {
                Some(e.1)
            } else {
                None
            },
        }),
    decreases h.len(),
{
    let hp = h.push(e);
    if h.len() > 0 {
        lemma_lookup_push(h.drop_first(), e, n);
        assert(hp.drop_first() =~= h.drop_first().push(e));
        assert(hp[0] == h[0]);
        if h[0].0 == n {
            assert(header_lookup(hp, n) == Some(h[0].1));
        } else {
            assert(header_lookup(hp, n) == header_lookup(hp.drop_first(), n));
        }
    } else {
        assert(hp.drop_first() =~= Seq::<(Seq<char>, Seq<char>)>::empty());
        assert(hp[0] == e);
        assert(header_lookup(hp.drop_first(), n) is None);
    }
}

impl HeaderMap {
    /// An empty header map.
    pub fn new() -> (r: HeaderMap)
        ensures
            r@ == Seq::<(Seq<char>, Seq<char>)>::empty(),
    {
        let r = HeaderMap { entries: Vec::new() };
        assert(r@ =~= Seq::<(Seq<char>, Seq<char>)>::empty());
        r
    }

    /// Store `value` under `name` (case-insensitive), replacing the value
    /// a lookup of that name saw before. Lookups of other names are unchanged.
    pub fn insert(&mut self, name: &str, value: &str)
        ensures
            forall|n: Seq<char>|
                #![trigger header_lookup(final(self)@, n)]
                header_lookup(final(self)@, n) == if n == lower(name@) {
                    Some(value@)
                } else {
                    header_lookup(old(self)@, n)
                },
    {
        let key = lower_exec(name);
        let mut i: usize = 0;
        while i < self.entries.len()
            invariant
                i <= self.entries@.len(),
                key@ == lower(name@),
                self@ == old(self)@,
                forall|k: int| 0 <= k < i ==> #[trigger] self@[k].0 != key@,
            decreases self.entries@.len() - i,
        {
            if str_eq(self.entries[i].0.as_str(), key.as_str()) {
                let ghost before = self@;
                let ghost before_e = self.entries@;
                let ghost idx = i as int;
                let ghost kv = key@;
                assert(before[idx] == (before_e[idx].0@, before_e[idx].1@));
                assert(before[idx].0 == key@);
                let v = to_owned(value);
                self.entries.set(i, (key, v));
                proof {
                    assert(self.entries@ == before_e.update(idx, (self.entries@[idx].0, self.entries@[idx].1)));
                    assert forall|k: int| 0 <= k < before.len() implies #[trigger] self@[k]
                        == before.update(idx, (lower(name@), value@))[k] by {
                        assert(self@[k] == (self.entries@[k].0@, self.entries@[k].1@));
                        assert(before[k] == (before_e[k].0@, before_e[k].1@));
                    }
                    assert(self@ =~= before.update(idx, (lower(name@), value@)));
                    assert forall|n: Seq<char>|
                        #![trigger header_lookup(self@, n)]
                        header_lookup(self@, n) == if n == lower(name@) {
                            Some(value@)
                        } else {
                            header_lookup(before, n)
                        } by {
                        if n == lower(name@) {
                            assert forall|k: int| 0 <= k < idx implies #[trigger] self@[k].0
                                != n by {
                                assert(self@[k] == before[k]);
                            }
                            lemma_lookup_index(self@, n, idx);
                        } else {
                            lemma_lookup_update(before, lower(name@), idx, value@, n);
                        }
                    }
                }
                return;
            }
            i = i + 1;
        }
        let ghost before = self@;
        self.entries.push((key, to_owned(value)));
        proof {
            assert(self@ =~= before.push((lower(name@), value@)));
            assert forall|n: Seq<char>|
                #![trigger header_lookup(self@, n)]
                header_lookup(self@, n) == if n == lower(name@) {
                    Some(value@)
                } else {
                    header_lookup(before, n)
                } by {
                lemma_lookup_push(before, (lower(name@), value@), n);
                if n == lower(name@) {
                    lemma_lookup_none(before, n);
                }
            }
        }
    }

    /// The value of header `name` (case-insensitive), if present.
    pub fn get(&self, name: &str) -> (r: Option<&str>)
        ensures
            match r {
                Some(v) => header_lookup(self@, lower(name@)) == Some(v@),
                None => header_lookup(self@, lower(name@)) is None,
            },
    {
        let key = lower_exec(name);
        let mut i: usize = 0;
        while i < self.entries.len()
            invariant
                i <= self.entries@.len(),
                key@ == lower(name@),
                forall|k: int| 0 <= k < i ==> #[trigger] self@[k].0 != key@,
            decreases self.entries@.len() - i,
        {
            if str_eq(self.entries[i].0.as_str(), key.as_str()) {
                proof {
                    assert(self@[i as int] == (self.entries@[i as int].0@, self.entries@[i as int].1@));
                    assert(self@[i as int].0 == key@);
                    lemma_lookup_index(self@, key@, i as int);
                    assert(key@ == lower(name@));
                }
                let v = self.entries[i].1.as_str();
                assert(v@ == self@[i as int].1);
                return Some(v);
            }
            i = i + 1;
        }
        proof {
            lemma_lookup_none(self@, key@);
        }
        None
    }
}

// ---------------------------------------------------------------- Depth / Overwrite

/// Parsed value of the `Depth:` header.
#[derive(Debug, Clone, Copy, PartialEq, Eq, Structural)]
pub enum Depth {
    Zero,
    One,
    Infinity,
}

/// `Depth:` as the handlers read it: absent gives `default`, `0`, `1` and
/// `infinity` their depth, anything else is refused with the message
/// `invalid Depth: <value>`.
pub open spec fn spec_parse_depth(h: Seq<(Seq<char>, Seq<char>)>, default: Depth) -> Result<
    Depth,
    Seq<char>,
> {
    match header_lookup(h, "depth"@) {
        None => Ok(default),
        Some(v) => if v == "0"@ {
            Ok(Depth::Zero)
        } else if v == "1"@ {
            Ok(Depth::One)
        } else if v == "infinity"@ {
            Ok(Depth::Infinity)
        } else {
            Err("invalid Depth: "@ + v)
        },
    }
}

/// The lower-case name `n` looked up through `lower`.
pub proof fn lemma_lower_literal(n: Seq<char>)
    requires
        forall|i: int| 0 <= i < n.len() ==> !('A' <= #[trigger] n[i] <= 'Z'),
    ensures
        lower(n) == n,
{
    assert(lower(n) =~= n);
}

/// Parse the `Depth:` header. Returns one of `0`, `1`, or `infinity`; the
/// default is supplied by the caller, who also decides whether `infinity`
/// is allowed (PROPFIND refuses it with `propfind-finite-depth`).
pub fn parse_depth(headers: &HeaderMap, default: Depth) -> (r: Result<Depth, DavError>)
    ensures
        match r {
            Ok(d) => spec_parse_depth(headers@, default) == Ok::<Depth, Seq<char>>(d),
            Err(e) => e matches DavError::BadRequest(m) && spec_parse_depth(headers@, default)
                == Err::<Depth, Seq<char>>(m@),
        },
{
    proof {
        reveal_strlit("depth");
        lemma_lower_literal("depth"@);
    }
    match headers.get("depth") {
        None => Ok(default),
        Some(v) => {
            if str_eq(v, "0") {
                Ok(Depth::Zero)
            } else if str_eq(v, "1") {
                Ok(Depth::One)
            } else if str_eq(v, "infinity") {
                Ok(Depth::Infinity)
            } else {
                Err(DavError::BadRequest(concat("invalid Depth: ", v)))
            }
        },
    }
}

/// `Overwrite:` as the handlers read it: absent or `T` is true, `F` is
/// false, anything else is refused with `invalid Overwrite: <value>`.
pub open spec fn spec_parse_overwrite(h: Seq<(Seq<char>, Seq<char>)>) -> Result<bool, Seq<char>> {
    match header_lookup(h, "overwrite"@) {
        None => Ok(true),
        Some(v) => if v == "T"@ {
            Ok(true)
        } else if v == "F"@ {
            Ok(false)
        } else {
            Err("invalid Overwrite: "@ + v)
        },
    }
}

/// Parse the `Overwrite:` header. `T` (default) or `F`.
pub fn parse_overwrite(headers: &HeaderMap) -> (r: Result<bool, DavError>)
    ensures
        match r {
            Ok(b) => spec_parse_overwrite(headers@) == Ok::<bool, Seq<char>>(b),
            Err(e) => e matches DavError::BadRequest(m) && spec_parse_overwrite(headers@) == Err::<
                bool,
                Seq<char>,
            >(m@),
        },
{
    proof {
        reveal_strlit("overwrite");
        lemma_lower_literal("overwrite"@);
    }
    match headers.get("overwrite") {
        None => Ok(true),
        Some(v) => {
            if str_eq(v, "T") {
                Ok(true)
            } else if str_eq(v, "F") {
                Ok(false)
            } else {
                Err(DavError::BadRequest(concat("invalid Overwrite: ", v)))
            }
        },
    }
}

// ---------------------------------------------------------------- Destination

/// The path part of a `Destination` value: for an absolute URL
/// (`<scheme>://<host><path>`) the text from the first `/` after `://`;
/// otherwise the value itself. `None` when an absolute URL has no path.
pub open spec fn destination_path(raw: Seq<char>) -> Option<Seq<char>> {
    match find_sub(raw, "://"@) {
        Some(idx) => {
            let after = raw.subrange(idx + 3, raw.len() as int);
            match index_of(after, '/') {
                Some(slash) => Some(after.subrange(slash, after.len() as int)),
                None => None,
            }
        },
        None => Some(raw),
    }
}

/// Exec `destination_path`.
pub fn destination_path_exec(raw: &[char]) -> (r: Option<Vec<char>>)
    ensures
        match r {
            Some(p) => destination_path(raw@) == Some(p@),
            None => destination_path(raw@) is None,
        },
{
    proof {
        reveal_strlit("://");
    }
    let sep = chars_of("://");
    let n: usize = raw.len();
    match find_sub_chars(raw, &sep) {
        Some(idx) => {
            assert(idx + 3 <= n);
            let after = slice_chars(raw, idx + 3, n);
            match find(&after, '/') {
                Some(slash) => Some(slice_chars(&after, slash, after.len())),
                None => None,
            }
        },
        None => Some(slice_chars(raw, 0, raw.len())),
    }
}

/// The text after the `/files/` segment of a `Destination` path. For an
/// absolute URL (`raw` holds `://`) the path is cut up to and including its
/// first `/dav` (which is also the end of a `/remote.php/dav` prefix, with
/// any base path before it), and what remains must start with `/files/`.
/// A path-only value must start with `/remote.php/dav/files/` or
/// `/dav/files/`.
pub open spec fn destination_after_files(raw: Seq<char>, path: Seq<char>) -> Option<Seq<char>> {
    if find_sub(raw, "://"@) is Some {
        match find_sub(path, "/dav"@) {
            Some(i) => strip_prefix(path.subrange(i + 4, path.len() as int), "/files/"@),
            None => None,
        }
    } else {
        match strip_prefix(path, "/remote.php/dav/files/"@) {
            Some(a) => Some(a),
            None => strip_prefix(path, "/dav/files/"@),
        }
    }
}

/// What `parse_destination_files` gives: the `(user, path)` after the
/// `/files/` segment (see `destination_after_files`), split at the first
/// `/` (the path is empty when there is none). Errors carry the message.
pub open spec fn spec_parse_destination_files(h: Seq<(Seq<char>, Seq<char>)>) -> Result<
    (Seq<char>, Seq<char>),
    Seq<char>,
> {
    match header_lookup(h, "destination"@) {
        None => Err("missing Destination header"@),
        Some(raw) => match destination_path(raw) {
            None => Err("Destination missing path"@),
            Some(path) => match destination_after_files(raw, path) {
                None => Err("Destination not under /dav/files/: "@ + raw),
                Some(a) => match index_of(a, '/') {
                    Some(slash) => Ok((a.subrange(0, slash), a.subrange(slash + 1, a.len() as int))),
                    None => Ok((a, seq![])),
                },
            },
        },
    }
}

/// Exec `destination_after_files`.
fn destination_after_files_exec(raw: &[char], path: &[char]) -> (r: Option<Vec<char>>)
    ensures
        match r {
            Some(a) => destination_after_files(raw@, path@) == Some(a@),
            None => destination_after_files(raw@, path@) is None,
        },
{
    proof {
        reveal_strlit("://");
        reveal_strlit("/dav");
    }
    let sep = chars_of("://");
    let dav = chars_of("/dav");
    assert(dav@.len() == 4);
    if find_sub_chars(raw, &sep).is_some() {
        match find_sub_chars(path, &dav) {
            Some(i) => {
                let n: usize = path.len();
                assert(i + 4 <= n);
                let rest = slice_chars(path, i + 4, n);
                strip_prefix_chars(&rest, &chars_of("/files/"))
            },
            None => None,
        }
    } else {
        let legacy = chars_of("/remote.php/dav/files/");
        match strip_prefix_chars(path, &legacy) {
            Some(a) => Some(a),
            None => strip_prefix_chars(path, &chars_of("/dav/files/")),
        }
    }
}

/// Parse the `Destination:` header. Accepts both absolute URLs (cut up to
/// and including the first `/dav` or `/remote.php/dav` after
/// `<scheme>://<host>`) and path-only forms under `/remote.php/dav/files/`
/// or `/dav/files/`. Returns the captured `(user, path)` pair of
/// `/files/{user}/{path}`; the path is still URL-encoded (the handler
/// decodes and validates it).
pub fn parse_destination_files(headers: &HeaderMap) -> (r: Result<(String, String), DavError>)
    ensures
        match r {
            Ok((u, p)) => spec_parse_destination_files(headers@) == Ok::<
                (Seq<char>, Seq<char>),
                Seq<char>,
            >((u@, p@)),
            Err(e) => e matches DavError::BadRequest(m) && spec_parse_destination_files(headers@)
                == Err::<(Seq<char>, Seq<char>), Seq<char>>(m@),
        },
{
    proof {
        reveal_strlit("destination");
        lemma_lower_literal("destination"@);
    }
    let raw = match headers.get("destination") {
        Some(v) => v,
        None => return Err(DavError::BadRequest(to_owned("missing Destination header"))),
    };
    let rc = chars_of(raw);
    let path = match destination_path_exec(&rc) {
        Some(p) => p,
        None => return Err(DavError::BadRequest(to_owned("Destination missing path"))),
    };
    let after = match destination_after_files_exec(&rc, &path) {
        Some(a) => a,
        None => return Err(
            DavError::BadRequest(concat("Destination not under /dav/files/: ", raw)),
        ),
    };
    let m: usize = after.len();
    match find(&after, '/') {
        Some(slash) => {
            assert(slash < m);
            Ok((string_from(&slice_chars(&after, 0, slash)), string_from(&slice_chars(&after, slash + 1, m))))
        },
        None => Ok((string_from(&after), String::new())),
    }
}

// ---------------------------------------------------------------- Range

/// What `parse_range` gives for a file of `size` bytes: `None` when the
/// request is refused as unsatisfiable; `Some(None)` when there is no
/// `Range` header; `Some(Some((start, end)))` for the half-open byte range
/// of a single `bytes=N-M`, `bytes=N-` or `bytes=-N` request.
pub open spec fn spec_parse_range(h: Seq<(Seq<char>, Seq<char>)>, size: u64) -> Option<
    Option<(u64, u64)>,
> {
    match header_lookup(h, "range"@) {
        None => Some(None),
        Some(raw) => match strip_prefix(raw, "bytes="@) {
            None => None,
            Some(rest) => if contains(rest, seq![',']) {
                None
            } else {
                match split_once(rest, '-') {
                    None => None,
                    Some((s, e)) => if s.len() > 0 && e.len() > 0 {
                        match (spec_parse_u64(s), spec_parse_u64(e)) {
                            (Some(a), Some(b)) => if b < a || b >= size {
                                None
                            } else {
                                Some(Some((a, (b + 1) as u64)))
                            },
                            _ => None,
                        }
                    } else if s.len() > 0 {
                        match spec_parse_u64(s) {
                            Some(a) => if a >= size {
                                None
                            } else {
                                Some(Some((a, size)))
                            },
                            None => None,
                        }
                    } else if e.len() > 0 {
                        match spec_parse_u64(e) {
                            Some(n) => if n == 0 || n > size {
                                None
                            } else {
                                Some(Some(((size - n) as u64, size)))
                            },
                            None => None,
                        }
                    } else {
                        None
                    },
                }
            },
        },
    }
}

/// A number written in decimal parses back to itself.
proof fn lemma_parse_decimal(n: u64)
    ensures
        spec_parse_u64(crate::text::decimal(n as nat)) == Some(n),
        crate::text::all_digits(crate::text::decimal(n as nat)),
        crate::text::decimal(n as nat).len() > 0,
{
    crate::ocs_feeds::lemma_decimal_digits(n as nat);
    let d = crate::text::decimal(n as nat);
    assert(crate::text::is_digit(d[0]));
}

/// `p-t` with digit strings `p` and `t` holds no `,` and splits at its `-`
/// into `p` and `t`.
proof fn lemma_split_digits(p: Seq<char>, t: Seq<char>)
    requires
        crate::text::all_digits(p),
        crate::text::all_digits(t),
    ensures
        !contains(p + seq!['-'] + t, seq![',']),
        split_once(p + seq!['-'] + t, '-') == Some((p, t)),
{
    let x = p + seq!['-'] + t;
    assert forall|k: int| 0 <= k < x.len() && k != p.len() implies crate::text::is_digit(
        #[trigger] x[k],
    ) by {
        if k < p.len() {
            assert(x[k] == p[k]);
        } else {
            assert(x[k] == t[k - p.len() - 1]);
        }
    }
    if contains(x, seq![',']) {
        let i = choose|i: int| crate::text::occurs_at(x, seq![','], i);
        assert(x.subrange(i, i + 1)[0] == ',');
        assert(x[i] == ',');
    }
    assert(x[p.len() as int] == '-');
    assert(x.subrange(0, p.len() as int) =~= p);
    assert(!crate::text::has_char(x.subrange(0, p.len() as int), '-'));
    crate::text::lemma_index_of_is(x, '-', p.len() as int);
    assert(x.subrange(p.len() as int + 1, x.len() as int) =~= t);
}

/// `bytes=` followed by `rest` strips to `rest`.
proof fn lemma_strip_bytes(rest: Seq<char>)
    ensures
        strip_prefix("bytes="@ + rest, "bytes="@) == Some(rest),
{
    reveal_strlit("bytes=");
    let raw = "bytes="@ + rest;
    assert(raw.subrange(0, 6) =~= "bytes="@);
    assert(raw.subrange(6, raw.len() as int) =~= rest);
}

/// An open-ended range `bytes=N-` starting inside a file of `size` bytes
/// is the rest of the file, `N..size`; one starting at or past the end is
/// refused as unsatisfiable.
pub proof fn lemma_open_ended_range(h: Seq<(Seq<char>, Seq<char>)>, size: u64, n: u64)
    requires
        header_lookup(h, "range"@) == Some("bytes="@ + crate::text::decimal(n as nat) + seq!['-']),
    ensures
        n < size ==> spec_parse_range(h, size) == Some(Some((n, size))),
        n >= size ==> spec_parse_range(h, size) is None,
{
    let d = crate::text::decimal(n as nat);
    lemma_parse_decimal(n);
    let rest = d + seq!['-'];
    assert("bytes="@ + d + seq!['-'] =~= "bytes="@ + rest);
    lemma_strip_bytes(rest);
    assert(rest =~= d + seq!['-'] + Seq::<char>::empty());
    lemma_split_digits(d, Seq::<char>::empty());
}

/// A closed range `bytes=A-B` with `A <= B` inside a file of `size` bytes
/// is the bytes `A..B+1`; one whose end lies past the file is refused.
pub proof fn lemma_closed_range(h: Seq<(Seq<char>, Seq<char>)>, size: u64, a: u64, b: u64)
    requires
        header_lookup(h, "range"@) == Some(
            "bytes="@ + crate::text::decimal(a as nat) + seq!['-'] + crate::text::decimal(b as nat),
        ),
        a <= b,
    ensures
        b < size ==> spec_parse_range(h, size) == Some(Some((a, (b + 1) as u64))),
        b >= size ==> spec_parse_range(h, size) is None,
{
    let da = crate::text::decimal(a as nat);
    let db = crate::text::decimal(b as nat);
    lemma_parse_decimal(a);
    lemma_parse_decimal(b);
    let rest = da + seq!['-'] + db;
    assert("bytes="@ + da + seq!['-'] + db =~= "bytes="@ + rest);
    lemma_strip_bytes(rest);
    lemma_split_digits(da, db);
}

/// A suffix range `bytes=-N` with `0 < N <= size` is the last `N` bytes,
/// `size-N..size`; `bytes=-0` and a suffix longer than the file are refused.
pub proof fn lemma_suffix_range(h: Seq<(Seq<char>, Seq<char>)>, size: u64, n: u64)
    requires
        header_lookup(h, "range"@) == Some("bytes=-"@ + crate::text::decimal(n as nat)),
    ensures
        0 < n <= size ==> spec_parse_range(h, size) == Some(Some(((size - n) as u64, size))),
        n == 0 || n > size ==> spec_parse_range(h, size) is None,
{
    reveal_strlit("bytes=-");
    reveal_strlit("bytes=");
    let dn = crate::text::decimal(n as nat);
    lemma_parse_decimal(n);
    let rest = seq!['-'] + dn;
    assert("bytes=-"@ + dn =~= "bytes="@ + rest);
    lemma_strip_bytes(rest);
    assert(rest =~= Seq::<char>::empty() + seq!['-'] + dn);
    lemma_split_digits(Seq::<char>::empty(), dn);
}

/// Without a `Range` header the whole file is sent.
pub proof fn lemma_no_range(h: Seq<(Seq<char>, Seq<char>)>, size: u64)
    requires
        header_lookup(h, "range"@) is None,
    ensures
        spec_parse_range(h, size) == Some(None::<(u64, u64)>),
{
}

/// Parse a `Range` header value `bytes=N-M`. Returns the half-open byte
/// range; multi-range (`bytes=0-499,1000-1499`) and out-of-bounds requests
/// are refused as `RangeNotSatisfiable`.
pub fn parse_range(headers: &HeaderMap, file_size: u64) -> (r: Result<
    Option<std::ops::Range<u64>>,
    DavError,
>)
    ensures
        match r {
            Ok(None) => spec_parse_range(headers@, file_size) == Some(None::<(u64, u64)>),
            Ok(Some(g)) => spec_parse_range(headers@, file_size) == Some(Some((g.start, g.end))),
            Err(e) => spec_parse_range(headers@, file_size) is None
                && e == DavError::RangeNotSatisfiable { file_size },
        },
{
    proof {
        reveal_strlit("range");
        lemma_lower_literal("range"@);
    }
    let raw = match headers.get("range") {
        Some(v) => v,
        None => return Ok(None),
    };
    let rc = chars_of(raw);
    let bytes_eq = chars_of("bytes=");
    let rest = match strip_prefix_chars(&rc, &bytes_eq) {
        Some(r) => r,
        None => return Err(DavError::RangeNotSatisfiable { file_size }),
    };
    let mut comma: Vec<char> = Vec::new();
    comma.push(',');
    assert(comma@ =~= seq![',']);
    if contains_chars(&rest, &comma) {
        return Err(DavError::RangeNotSatisfiable { file_size });
    }
    let (s, e) = match split_once_chars(&rest, '-') {
        Some(p) => p,
        None => return Err(DavError::RangeNotSatisfiable { file_size }),
    };
    if s.len() > 0 && e.len() > 0 {
        let a = match parse_u64(&s) {
            Some(a) => a,
            None => return Err(DavError::RangeNotSatisfiable { file_size }),
        };
        let b = match parse_u64(&e) {
            Some(b) => b,
            None => return Err(DavError::RangeNotSatisfiable { file_size }),
        };
        if b < a || b >= file_size {
            return Err(DavError::RangeNotSatisfiable { file_size });
        }
        Ok(Some(std::ops::Range { start: a, end: b + 1 }))
    } else if s.len() > 0 {
        let a = match parse_u64(&s) {
            Some(a) => a,
            None => return Err(DavError::RangeNotSatisfiable { file_size }),
        };
        if a >= file_size {
            return Err(DavError::RangeNotSatisfiable { file_size });
        }
        Ok(Some(std::ops::Range { start: a, end: file_size }))
    } else if e.len() > 0 {
        let n = match parse_u64(&e) {
            Some(n) => n,
            None => return Err(DavError::RangeNotSatisfiable { file_size }),
        };
        if n == 0 || n > file_size {
            return Err(DavError::RangeNotSatisfiable { file_size });
        }
        Ok(Some(std::ops::Range { start: file_size - n, end: file_size }))
    } else {
        Err(DavError::RangeNotSatisfiable { file_size })
    }
}

// ---------------------------------------------------------------- If-Match

/// Parsed `If-Match:` header.
#[derive(Debug, Clone)]
pub enum IfMatch {
    Absent,
    Wildcard,
    Etag(String),
}

/// The view of an `IfMatch` (`None` for absent, `Some(None)` for `*`).
pub open spec fn if_match_view(m: IfMatch) -> Option<Option<Seq<char>>> {
    match m {
        IfMatch::Absent => None,
        IfMatch::Wildcard => Some(None),
        IfMatch::Etag(s) => Some(Some(s@)),
    }
}

/// What `parse_if_match` gives: absent, the wildcard `*`, or the value
/// trimmed of whitespace and then of surrounding `"` characters.
pub open spec fn spec_parse_if_match(h: Seq<(Seq<char>, Seq<char>)>) -> Option<Option<Seq<char>>> {
    match header_lookup(h, "if-match"@) {
        None => None,
        Some(v) => if v == "*"@ {
            Some(None)
        } else {
            Some(Some(trim_char(trim(v), '"')))
        },
    }
}

/// Parse the `If-Match:` header.
pub fn parse_if_match(headers: &HeaderMap) -> (r: IfMatch)
    ensures
        if_match_view(r) == spec_parse_if_match(headers@),
{
    proof {
        reveal_strlit("if-match");
        lemma_lower_literal("if-match"@);
    }
    match headers.get("if-match") {
        None => IfMatch::Absent,
        Some(raw) => {
            if str_eq(raw, "*") {
                IfMatch::Wildcard
            } else {
                let cs = chars_of(raw);
                let t = trim_chars(&cs);
                let u = trim_matching_chars(&t, '"');
                IfMatch::Etag(string_from(&u))
            }
        },
    }
}

/// Whether `If-None-Match:` is `*` (surrounding whitespace ignored).
pub open spec fn spec_if_none_match_wildcard(h: Seq<(Seq<char>, Seq<char>)>) -> bool {
    match header_lookup(h, "if-none-match"@) {
        None => false,
        Some(v) => trim(v) == "*"@,
    }
}

/// Whether the `If-None-Match:` header is the wildcard `*`.
pub fn parse_if_none_match_wildcard(headers: &HeaderMap) -> (r: bool)
    ensures
        r == spec_if_none_match_wildcard(headers@),
{
    proof {
        reveal_strlit("if-none-match");
        lemma_lower_literal("if-none-match"@);
    }
    match headers.get("if-none-match") {
        None => false,
        Some(v) => {
            let cs = chars_of(v);
            let t = trim_chars(&cs);
            let star = chars_of("*");
            crate::text::chars_eq(&t, &star)
        },
    }
}

} // verus!
