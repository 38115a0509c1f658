//! Admin user administration under `/ocs/v2.php/cloud/users`: the request
//! forms, the create-user body parser, and the guards that keep the calling
//! admin from locking themselves out and keep at least one admin.
//!
//! Every handler is admin-only (401 anonymous, 403 non-admin). The user and
//! group stores are consulted between these decisions.

use crate::codec::{hex_digit_value, string_from_utf8_lossy, utf8_lossy_text};
use crate::ocs::CoreError;
use crate::text::{
    chars_of, concat, pieces_view, split_all, split_once, split_once_chars, split_pieces,
    str_eq, string_from, to_owned,
};
use vstd::prelude::*;
use vstd::utf8::{decode_utf8, encode_utf8, valid_utf8};

verus! {

/// Page size when the query gives none.
pub const DEFAULT_LIMIT: u32 = 100;

/// Largest page size.
pub const MAX_LIMIT: u32 = 500;

/// Query of `GET /cloud/users`.
#[derive(Debug, Clone)]
pub struct ListQuery {
    pub search: Option<String>,
    pub limit: u32,
    pub offset: u32,
}

/// The page size used when the query has none.
pub fn default_limit() -> (r: u32)
    ensures
        r == DEFAULT_LIMIT,
{
    DEFAULT_LIMIT
}

/// The page size a listing uses: the requested one clamped to `1..=500`.
pub fn list_limit(limit: u32) -> (r: u32)
    ensures
        r == if limit < 1 {
            1
        } else if limit > MAX_LIMIT {
            MAX_LIMIT
        } else {
            limit
        },
{
    if limit < 1 {
        1
    } else if limit > MAX_LIMIT {
        MAX_LIMIT
    } else {
        limit
    }
}

/// The search filter a listing uses: an empty search is no search.
pub fn search_filter(search: &Option<String>) -> (r: Option<String>)
    ensures
        match search {
            Some(s) => if s@.len() > 0 {
                r matches Some(t) && t@ == s@
            } else {
                r is None
            },
            None => r is None,
        },
{
    match search {
        Some(s) => if chars_of(s.as_str()).len() > 0 {
            Some(to_owned(s.as_str()))
        } else {
            None
        },
        None => None,
    }
}

// ---------------------------------------------------------------- form decoding

/// `application/x-www-form-urlencoded` byte decoding: `+` is a space,
/// `%HH` the byte it spells, everything else is kept.
pub open spec fn form_decode_bytes(b: Seq<u8>) -> Seq<u8>
    decreases b.len(),
{
    if b.len() == 0 {
        seq![]
    } else if b[0] == 43 {
        seq![32u8] + form_decode_bytes(b.drop_first())
    } else if b[0] == 37 && b.len() >= 3 && hex_digit_value(b[1]) is Some && hex_digit_value(
        b[2],
    ) is Some {
        seq![(hex_digit_value(b[1])->0 * 16 + hex_digit_value(b[2])->0) as u8]
            + form_decode_bytes(b.subrange(3, b.len() as int))
    } else {
        seq![b[0]] + form_decode_bytes(b.drop_first())
    }
}

/// The text of a form-encoded string: the decoded bytes read as UTF-8, or,
/// when they are not valid UTF-8, their lossy reading (U+FFFD in place of
/// each invalid sequence).
pub open spec fn spec_pct_decode(s: Seq<char>) -> Seq<char> {
    let b = form_decode_bytes(encode_utf8(s));
    if valid_utf8(b) {
        decode_utf8(b)
    } else {
        utf8_lossy_text(b)
    }
}

fn hex_val(b: u8) -> (r: Option<u8>)
    ensures
        r == hex_digit_value(b),
{
    if 48 <= b && b <= 57 {
        Some(b - 48)
    } else if 65 <= b && b <= 70 {
        Some(b - 55)
    } else if 97 <= b && b <= 102 {
        Some(b - 87)
    } else {
        None
    }
}

/// Minimal `application/x-www-form-urlencoded` percent-decode: `+` to
/// space, `%HH` to the byte, invalid UTF-8 replaced with U+FFFD (the result
/// only needs to be usable as text; bad input is a user error downstream).
pub fn pct_decode(s: &str) -> (r: String)
    ensures
        r@ == spec_pct_decode(s@),
{
    let bytes = s.as_bytes();
    let n: usize = bytes.len();
    let mut out: Vec<u8> = Vec::new();
    let mut i: usize = 0;
    assert(bytes@.subrange(0, n as int) =~= bytes@);
    assert(out@ + form_decode_bytes(bytes@) =~= form_decode_bytes(bytes@));
    while i < n
        invariant
            i <= n,
            n == bytes@.len(),
            bytes@ == encode_utf8(s@),
            out@ + form_decode_bytes(bytes@.subrange(i as int, n as int)) == form_decode_bytes(
                bytes@,
            ),
        decreases n - i,
    {
        let ghost rest = bytes@.subrange(i as int, n as int);
        let b = bytes[i];
        let ghost before = out@;
        if b == 43 {
            out.push(32);
            assert(rest.drop_first() =~= bytes@.subrange(i + 1, n as int));
            i = i + 1;
        } else if b == 37 && n - i > 2 && hex_val(bytes[i + 1]).is_some() && hex_val(
            bytes[i + 2],
        ).is_some() {
            let h = hex_val(bytes[i + 1]).unwrap();
            let l = hex_val(bytes[i + 2]).unwrap();
            out.push(h * 16 + l);
            assert(rest.subrange(3, rest.len() as int) =~= bytes@.subrange(i + 3, n as int));
            assert(rest[1] == bytes@[i + 1]);
            assert(rest[2] == bytes@[i + 2]);
            i = i + 3;
        } else {
            out.push(b);
            assert(rest.drop_first() =~= bytes@.subrange(i + 1, n as int));
            proof {
                if b == 37 && rest.len() >= 3 {
                    assert(rest[1] == bytes@[i + 1]);
                    assert(rest[2] == bytes@[i + 2]);
                }
            }
            i = i + 1;
        }
        assert(out@ + form_decode_bytes(bytes@.subrange(i as int, n as int)) =~= before
            + form_decode_bytes(rest));
    }
    assert(bytes@.subrange(n as int, n as int) =~= Seq::<u8>::empty());
    assert(out@ + Seq::<u8>::empty() =~= out@);
    string_from_utf8_lossy(out.as_slice())
}

// ---------------------------------------------------------------- create-user body

/// The fields of a create-user request.
#[derive(Debug, Clone)]
pub struct CreateUserForm {
    pub userid: String,
    pub password: String,
    pub email: Option<String>,
    pub display_name: Option<String>,
    pub groups: Vec<String>,
}

/// Fields collected while walking a create-user body.
pub struct CreateUserFields {
    pub userid: Option<Seq<char>>,
    pub password: Option<Seq<char>>,
    pub email: Option<Seq<char>>,
    pub display_name: Option<Seq<char>>,
    pub groups: Seq<Seq<char>>,
}

/// Record one `key=value` pair (a pair without `=` has an empty value);
/// later scalar values replace earlier ones, `groups[]` accumulates, other
/// keys are ignored.
pub open spec fn apply_pair(f: CreateUserFields, piece: Seq<char>) -> CreateUserFields {
    let (k, v) = match split_once(piece, '=') {
        Some((k, v)) => (k, v),
        None => (piece, seq![]),
    };
    let k = spec_pct_decode(k);
    let v = spec_pct_decode(v);
    if k == "userid"@ {
        CreateUserFields { userid: Some(v), ..f }
    } else if k == "password"@ {
        CreateUserFields { password: Some(v), ..f }
    } else if k == "email"@ {
        CreateUserFields { email: Some(v), ..f }
    } else if k == "displayName"@ {
        CreateUserFields { display_name: Some(v), ..f }
    } else if k == "groups[]"@ {
        CreateUserFields { groups: f.groups.push(v), ..f }
    } else {
        f
    }
}

/// Walk the `&`-separated pairs in order, skipping empty ones.
pub open spec fn collect_pairs(f: CreateUserFields, pieces: Seq<Seq<char>>) -> CreateUserFields
    decreases pieces.len(),
{
    if pieces.len() == 0 {
        f
    } else {
        let g = if pieces[0].len() == 0 {
            f
        } else {
            apply_pair(f, pieces[0])
        };
        collect_pairs(g, pieces.drop_first())
    }
}

/// What a create-user body parses to: the fields, or the missing one
/// (`userid` checked first).
pub open spec fn spec_parse_create_user_body(body: Seq<char>) -> Result<CreateUserFields, Seq<char>> {
    let f = collect_pairs(
        CreateUserFields { userid: None, password: None, email: None, display_name: None, groups: seq![] },
        split_all(body, '&'),
    );
    if f.userid is None {
        Err("missing userid"@)
    } else if f.password is None {
        Err("missing password"@)
    } else {
        Ok(f)
    }
}

/// The view of an optional string.
pub open spec fn opt_view(o: Option<String>) -> Option<Seq<char>> {
    match o {
        Some(s) => Some(s@),
        None => None,
    }
}

/// The view of a list of strings.
pub open spec fn strings_view(v: Seq<String>) -> Seq<Seq<char>> {
    v.map_values(|s: String| s@)
}

/// Manual decode of the create-user form body, so that repeated
/// `groups[]=<gid>` keys are all kept (Nextcloud's array syntax).
pub fn parse_create_user_body(body: &str) -> (r: Result<CreateUserForm, String>)
    ensures
        match spec_parse_create_user_body(body@) {
            Ok(f) => r matches Ok(form) && Some(form.userid@) == f.userid && Some(form.password@)
                == f.password && opt_view(form.email) == f.email && opt_view(form.display_name)
                == f.display_name && strings_view(form.groups@) == f.groups,
            Err(m) => r matches Err(e) && e@ == m,
        },
{
    let bc = chars_of(body);
    let pieces = split_pieces(&bc, '&');
    let ghost pv = pieces_view(pieces@);
    let mut userid: Option<String> = None;
    let mut password: Option<String> = None;
    let mut email: Option<String> = None;
    let mut display_name: Option<String> = None;
    let mut groups: Vec<String> = Vec::new();
    let ghost init = CreateUserFields {
        userid: None,
        password: None,
        email: None,
        display_name: None,
        groups: seq![],
    };
    let mut i: usize = 0;
    assert(pv.subrange(0, pv.len() as int) =~= pv);
    assert(strings_view(groups@) =~= Seq::<Seq<char>>::empty());
    while i < pieces.len()
        invariant
            i <= pieces@.len(),
            pv == pieces_view(pieces@),
            pv == split_all(body@, '&'),
            collect_pairs(init, pv) == collect_pairs(
                CreateUserFields {
                    userid: opt_view(userid),
                    password: opt_view(password),
                    email: opt_view(email),
                    display_name: opt_view(display_name),
                    groups: strings_view(groups@),
                },
                pv.subrange(i as int, pv.len() as int),
            ),
        decreases pieces@.len() - i,
    {
        let ghost rest = pv.subrange(i as int, pv.len() as int);
        assert(rest.drop_first() =~= pv.subrange(i + 1, pv.len() as int));
        assert(rest[0] == pieces@[i as int]@);
        let piece = &pieces[i];
        if piece.len() > 0 {
            let (k, v) = match split_once_chars(piece, '=') {
                Some((k, v)) => (k, v),
                None => {
                    let e: Vec<char> = Vec::new();
                    assert(e@ =~= Seq::<char>::empty());
                    (slice_all(piece), e)
                },
            };
            let key = pct_decode(string_from(&k).as_str());
            let val = pct_decode(string_from(&v).as_str());
            if str_eq(key.as_str(), "userid") {
                userid = Some(val);
            } else if str_eq(key.as_str(), "password") {
                password = Some(val);
            } else if str_eq(key.as_str(), "email") {
                email = Some(val);
            } else if str_eq(key.as_str(), "displayName") {
                display_name = Some(val);
            } else if str_eq(key.as_str(), "groups[]") {
                let ghost before = groups@;
                groups.push(val);
                assert(strings_view(groups@) =~= strings_view(before).push(groups@.last()@));
            }
        }
        i = i + 1;
    }
    assert(pv.subrange(pv.len() as int, pv.len() as int) =~= Seq::<Seq<char>>::empty());
    let userid = match userid {
        Some(u) => u,
        None => return Err(to_owned("missing userid")),
    };
    let password = match password {
        Some(p) => p,
        None => return Err(to_owned("missing password")),
    };
    Ok(CreateUserForm { userid, password, email, display_name, groups })
}

fn slice_all(s: &Vec<char>) -> (r: Vec<char>)
    ensures
        r@ == s@,
{
    let r = crate::text::slice_chars(s.as_slice(), 0, s.len());
    assert(r@ =~= s@);
    r
}

/// What a new account is created with besides its id and password: the
/// email to validate (an empty one is none) and the display name (the user
/// id when absent or empty).
pub fn new_user_profile(form: &CreateUserForm) -> (r: (Option<String>, String))
    ensures
        match form.email {
            Some(e) => if e@.len() > 0 {
                r.0 matches Some(x) && x@ == e@
            } else {
                r.0 is None
            },
            None => r.0 is None,
        },
        r.1@ == match form.display_name {
            Some(d) => if d@.len() > 0 {
                d@
            } else {
                form.userid@
            },
            None => form.userid@,
        },
{
    let email = match &form.email {
        Some(e) => if chars_of(e.as_str()).len() > 0 {
            Some(to_owned(e.as_str()))
        } else {
            None
        },
        None => None,
    };
    let display = match &form.display_name {
        Some(d) => if chars_of(d.as_str()).len() > 0 {
            to_owned(d.as_str())
        } else {
            to_owned(form.userid.as_str())
        },
        None => to_owned(form.userid.as_str()),
    };
    (email, display)
}

/// The 400 for a group that does not exist: `unknown group: <gid>`.
pub fn unknown_group(raw: &str) -> (r: CoreError)
    ensures
        r matches CoreError::BadRequest(m) && m@ == "unknown group: "@ + raw@,
{
    CoreError::BadRequest(concat("unknown group: ", raw))
}

// ---------------------------------------------------------------- edits and guards

/// Body of `PUT /cloud/users/{uid}`.
#[derive(Debug, Clone)]
pub struct EditUserForm {
    pub key: String,
    pub value: String,
}

/// Body of `POST /cloud/users/{uid}/groups`.
#[derive(Debug, Clone)]
pub struct AddGroupForm {
    pub groupid: String,
}

/// Query of `DELETE /cloud/users/{uid}/groups`.
#[derive(Debug, Clone)]
pub struct RemoveGroupQuery {
    pub groupid: String,
}

/// One change to a user record.
#[derive(Debug, Clone, PartialEq, Eq)]
pub enum UserChange {
    Password(String),
    DisplayName(String),
    /// `None` clears the address.
    Email(Option<String>),
}

/// The view of a user change.
pub enum UserChangeView {
    Password(Seq<char>),
    DisplayName(Seq<char>),
    Email(Option<Seq<char>>),
}

/// The view of a user change.
pub open spec fn change_view(c: UserChange) -> UserChangeView {
    match c {
        UserChange::Password(v) => UserChangeView::Password(v@),
        UserChange::DisplayName(v) => UserChangeView::DisplayName(v@),
        UserChange::Email(e) => UserChangeView::Email(opt_view(e)),
    }
}

/// The change a `key`/`value` pair asks for: `password`, `displayname` or
/// `email` (an empty email clears it); any other key is `unknown key: <key>`.
pub open spec fn spec_user_change(key: Seq<char>, value: Seq<char>) -> Result<UserChangeView, Seq<char>> {
    if key == "password"@ {
        Ok(UserChangeView::Password(value))
    } else if key == "displayname"@ {
        Ok(UserChangeView::DisplayName(value))
    } else if key == "email"@ {
        Ok(UserChangeView::Email(if value.len() == 0 { None } else { Some(value) }))
    } else {
        Err("unknown key: "@ + key)
    }
}

/// Whether a change result matches its specification.
pub open spec fn change_result_is(r: Result<UserChange, CoreError>, s: Result<UserChangeView, Seq<char>>) -> bool {
    match s {
        Ok(c) => r matches Ok(x) && change_view(x) == c,
        Err(m) => r matches Err(CoreError::BadRequest(n)) && n@ == m,
    }
}

/// Which change a `key`/`value` pair asks for.
pub fn user_change(key: &str, value: &str) -> (r: Result<UserChange, CoreError>)
    ensures
        change_result_is(r, spec_user_change(key@, value@)),
{
    if str_eq(key, "password") {
        Ok(UserChange::Password(to_owned(value)))
    } else if str_eq(key, "displayname") {
        Ok(UserChange::DisplayName(to_owned(value)))
    } else if str_eq(key, "email") {
        if chars_of(value).len() == 0 {
            Ok(UserChange::Email(None))
        } else {
            Ok(UserChange::Email(Some(to_owned(value))))
        }
    } else {
        Err(CoreError::BadRequest(concat("unknown key: ", key)))
    }
}

/// An admin edit: like [`user_change`], but an admin may not rotate their
/// own password here (that is the self-service endpoint's job).
pub fn edit_user_change(target: &str, actor: &str, key: &str, value: &str) -> (r: Result<
    UserChange,
    CoreError,
>)
    ensures
        key@ == "password"@ && target@ == actor@ ==> (r matches Err(CoreError::BadRequest(m)) && m@
            == "use the self-service PUT /cloud/user endpoint to rotate your own password"@),
        !(key@ == "password"@ && target@ == actor@) ==> change_result_is(
            r,
            spec_user_change(key@, value@),
        ),
{
    if str_eq(key, "password") && str_eq(target, actor) {
        return Err(
            CoreError::BadRequest(
                to_owned("use the self-service PUT /cloud/user endpoint to rotate your own password"),
            ),
        );
    }
    user_change(key, value)
}

/// The 400 that keeps an admin from acting on their own account: `Err`
/// with `message` when the target is the calling admin.
pub fn not_self(target: &str, actor: &str, message: &str) -> (r: Result<(), CoreError>)
    ensures
        target@ == actor@ ==> (r matches Err(CoreError::BadRequest(m)) && m@ == message@),
        target@ != actor@ ==> r is Ok,
{
    if str_eq(target, actor) {
        Err(CoreError::BadRequest(to_owned(message)))
    } else {
        Ok(())
    }
}

/// Deleting: the calling admin cannot delete themselves.
pub fn delete_user_guard(target: &str, actor: &str) -> (r: Result<(), CoreError>)
    ensures
        target@ == actor@ ==> (r matches Err(CoreError::BadRequest(m)) && m@
            == "cannot delete the calling admin"@),
        target@ != actor@ ==> r is Ok,
{
    not_self(target, actor, "cannot delete the calling admin")
}

/// Disabling: the calling admin cannot disable themselves.
pub fn disable_user_guard(target: &str, actor: &str) -> (r: Result<(), CoreError>)
    ensures
        target@ == actor@ ==> (r matches Err(CoreError::BadRequest(m)) && m@
            == "cannot disable the calling admin"@),
        target@ != actor@ ==> r is Ok,
{
    not_self(target, actor, "cannot disable the calling admin")
}

/// Removing from a group: leaving the `admin` group is refused for the
/// calling admin; otherwise `Ok(true)` says the last-admin check must run
/// (the group is `admin`), `Ok(false)` that it need not.
pub fn remove_from_group_guard(target: &str, actor: &str, gid: &str) -> (r: Result<bool, CoreError>)
    ensures
        gid@ == "admin"@ && target@ == actor@ ==> (r matches Err(CoreError::BadRequest(m)) && m@
            == "cannot remove the calling admin from the admin group"@),
        gid@ == "admin"@ && target@ != actor@ ==> r == Ok::<bool, CoreError>(true),
        gid@ != "admin"@ ==> r == Ok::<bool, CoreError>(false),
{
    if str_eq(gid, "admin") {
        if str_eq(target, actor) {
            return Err(
                CoreError::BadRequest(to_owned("cannot remove the calling admin from the admin group")),
            );
        }
        Ok(true)
    } else {
        Ok(false)
    }
}

/// At least one admin must remain: `uid` may not leave (or be deleted or
/// disabled) when it is the only member of the `admin` group.
pub fn require_not_last_admin(admins: &Vec<String>, uid: &str) -> (r: Result<(), CoreError>)
    ensures
        admins@.len() == 1 && admins@[0]@ == uid@ ==> (r matches Err(CoreError::BadRequest(m)) && m@
            == "at least one admin must remain"@),
        !(admins@.len() == 1 && admins@[0]@ == uid@) ==> r is Ok,
{
    if admins.len() == 1 && str_eq(admins[0].as_str(), uid) {
        Err(CoreError::BadRequest(to_owned("at least one admin must remain")))
    } else {
        Ok(())
    }
}


// ---------------------------------------------------------------- create-user flow

/// Where a create-user request stands.
#[derive(Debug, Clone, Copy, PartialEq, Eq, Structural)]
pub enum CreateUserPhase {
    /// Waiting for the user id to be validated.
    CheckingUid,
    /// Waiting for the lookup of `groups[next]`.
    CheckingGroups,
    /// Waiting for the user record to be written.
    Creating,
    /// Waiting for the membership in `groups[next]` to be written.
    Adding,
    Done,
}

/// What the user and group stores said.
#[derive(Debug)]
pub enum CreateUserEvent {
    /// The user id is valid, or why not.
    UidChecked(Result<(), CoreError>),
    /// Whether the group under lookup exists, or why it could not be looked
    /// up (its id invalid, or the store failing).
    GroupLooked(Result<bool, CoreError>),
    /// The user record was written, or why not (an invalid email, the
    /// password hash, or the store failing).
    Created(Result<(), CoreError>),
    /// The membership under way was written, or why not.
    Added(Result<(), CoreError>),
}

/// What to do next.
#[derive(Debug)]
pub enum CreateUserAction {
    /// Validate this user id.
    CheckUid(String),
    /// Look this group up.
    LookUpGroup(String),
    /// Write the user record (enabled, never seen) with the form's user id
    /// and password and these email and display name.
    Create { email: Option<String>, display_name: String },
    /// Add the new user to this group.
    AddToGroup(String),
    /// Answer with this error.
    Fail(CoreError),
    /// Answer `{ id: <userid> }`.
    Succeed(String),
}

/// `POST /cloud/users`: every requested group is resolved before anything
/// is written, so an unknown group creates nothing.
#[derive(Debug)]
pub struct CreateUserFlow {
    pub phase: CreateUserPhase,
    pub form: CreateUserForm,
    /// Position in `form.groups` of the group under lookup or being added.
    pub next: usize,
}

/// Whether an event is the one the phase waits for.
pub open spec fn create_event_fits(phase: CreateUserPhase, ev: CreateUserEvent) -> bool {
    match phase {
        CreateUserPhase::CheckingUid => ev is UidChecked,
        CreateUserPhase::CheckingGroups => ev is GroupLooked,
        CreateUserPhase::Creating => ev is Created,
        CreateUserPhase::Adding => ev is Added,
        CreateUserPhase::Done => false,
    }
}

/// The flow's invariant: the position stays within the groups while one is
/// under way.
pub open spec fn create_flow_wf(f: CreateUserFlow) -> bool {
    (f.phase == CreateUserPhase::CheckingGroups || f.phase == CreateUserPhase::Adding) ==> f.next
        < f.form.groups@.len()
}

/// The record a create action writes: the profile of the form.
pub open spec fn create_action_is_profile(a: CreateUserAction, form: CreateUserForm) -> bool {
    a matches CreateUserAction::Create { email, display_name } && opt_view(email) == match form.email {
        Some(e) => if e@.len() > 0 {
            Some(e@)
        } else {
            None
        },
        None => None,
    } && display_name@ == match form.display_name {
        Some(d) => if d@.len() > 0 {
            d@
        } else {
            form.userid@
        },
        None => form.userid@,
    }
}

impl CreateUserFlow {
    /// Parse the body; a malformed one is a bad request with the parser's
    /// message, otherwise the user id is validated first.
    pub fn start(body: &str) -> (r: (Option<CreateUserFlow>, CreateUserAction))
        ensures
            match spec_parse_create_user_body(body@) {
                Err(m) => r.0 is None && (r.1 matches CreateUserAction::Fail(CoreError::BadRequest(
                    x,
                )) && x@ == m),
                Ok(f) => r.0 matches Some(flow) && flow.phase == CreateUserPhase::CheckingUid
                    && create_flow_wf(flow) && Some(flow.form.userid@) == f.userid && Some(
                    flow.form.password@,
                ) == f.password && opt_view(flow.form.email) == f.email && opt_view(
                    flow.form.display_name,
                ) == f.display_name && strings_view(flow.form.groups@) == f.groups && (
                r.1 matches CreateUserAction::CheckUid(u) && u@ == flow.form.userid@),
            },
    {
        match parse_create_user_body(body) {
            Err(m) => (None, CreateUserAction::Fail(CoreError::BadRequest(m))),
            Ok(form) => {
                let uid = to_owned(form.userid.as_str());
                (
                    Some(CreateUserFlow { phase: CreateUserPhase::CheckingUid, form, next: 0 }),
                    CreateUserAction::CheckUid(uid),
                )
            },
        }
    }

    fn create_action(&self) -> (r: CreateUserAction)
        ensures
            create_action_is_profile(r, self.form),
    {
        let (email, display_name) = new_user_profile(&self.form);
        CreateUserAction::Create { email, display_name }
    }

    /// Advance on an event. Any error ends the request with that error; an
    /// unknown group ends it with `unknown group: <gid>` before anything is
    /// written.
    pub fn step(&mut self, ev: CreateUserEvent) -> (r: CreateUserAction)
        requires
            create_event_fits(old(self).phase, ev),
            create_flow_wf(*old(self)),
        ensures
            create_flow_wf(*final(self)),
            final(self).form == old(self).form,
            match ev {
                CreateUserEvent::UidChecked(Err(e)) | CreateUserEvent::GroupLooked(Err(e))
                | CreateUserEvent::Created(Err(e)) | CreateUserEvent::Added(Err(e)) => final(self).phase == CreateUserPhase::Done && r == CreateUserAction::Fail(e),
                CreateUserEvent::UidChecked(Ok(())) => if old(self).form.groups@.len() == 0 {
                    final(self).phase == CreateUserPhase::Creating && create_action_is_profile(
                        r,
                        old(self).form,
                    )
                } else {
                    final(self).phase == CreateUserPhase::CheckingGroups && final(self).next == 0
                        && (r matches CreateUserAction::LookUpGroup(g) && g@
                        == old(self).form.groups@[0]@)
                },
                CreateUserEvent::GroupLooked(Ok(false)) => final(self).phase
                    == CreateUserPhase::Done && (r matches CreateUserAction::Fail(
                    CoreError::BadRequest(m),
                ) && m@ == "unknown group: "@ + old(self).form.groups@[old(self).next as int]@),
                CreateUserEvent::GroupLooked(Ok(true)) => if old(self).next + 1 == old(self).form.groups@.len() {
                    final(self).phase == CreateUserPhase::Creating && create_action_is_profile(
                        r,
                        old(self).form,
                    )
                } else {
                    final(self).phase == CreateUserPhase::CheckingGroups && final(self).next
                        == old(self).next + 1 && (r matches CreateUserAction::LookUpGroup(g) && g@
                        == old(self).form.groups@[old(self).next + 1]@)
                },
                CreateUserEvent::Created(Ok(())) => if old(self).form.groups@.len() == 0 {
                    final(self).phase == CreateUserPhase::Done && (r matches CreateUserAction::Succeed(
                        id,
                    ) && id@ == old(self).form.userid@)
                } else {
                    final(self).phase == CreateUserPhase::Adding && final(self).next == 0 && (
                    r matches CreateUserAction::AddToGroup(g) && g@ == old(self).form.groups@[0]@)
                },
                CreateUserEvent::Added(Ok(())) => if old(self).next + 1 == old(self).form.groups@.len() {
                    final(self).phase == CreateUserPhase::Done && (r matches CreateUserAction::Succeed(
                        id,
                    ) && id@ == old(self).form.userid@)
                } else {
                    final(self).phase == CreateUserPhase::Adding && final(self).next == old(self).next + 1 && (r matches CreateUserAction::AddToGroup(g) && g@
                        == old(self).form.groups@[old(self).next + 1]@)
                },
            },
    {
        match ev {
            CreateUserEvent::UidChecked(Err(e)) | CreateUserEvent::GroupLooked(Err(e))
            | CreateUserEvent::Created(Err(e)) | CreateUserEvent::Added(Err(e)) => {
                self.phase = CreateUserPhase::Done;
                CreateUserAction::Fail(e)
            },
            CreateUserEvent::UidChecked(Ok(())) => {
                if self.form.groups.len() == 0 {
                    self.phase = CreateUserPhase::Creating;
                    self.create_action()
                } else {
                    self.phase = CreateUserPhase::CheckingGroups;
                    self.next = 0;
                    CreateUserAction::LookUpGroup(to_owned(self.form.groups[0].as_str()))
                }
            },
            CreateUserEvent::GroupLooked(Ok(false)) => {
                self.phase = CreateUserPhase::Done;
                CreateUserAction::Fail(unknown_group(self.form.groups[self.next].as_str()))
            },
            CreateUserEvent::GroupLooked(Ok(true)) => {
                let n = self.form.groups.len();
                if self.next + 1 == n {
                    self.phase = CreateUserPhase::Creating;
                    self.create_action()
                } else {
                    self.next = self.next + 1;
                    CreateUserAction::LookUpGroup(to_owned(self.form.groups[self.next].as_str()))
                }
            },
            CreateUserEvent::Created(Ok(())) => {
                if self.form.groups.len() == 0 {
                    self.phase = CreateUserPhase::Done;
                    CreateUserAction::Succeed(to_owned(self.form.userid.as_str()))
                } else {
                    self.phase = CreateUserPhase::Adding;
                    self.next = 0;
                    CreateUserAction::AddToGroup(to_owned(self.form.groups[0].as_str()))
                }
            },
            CreateUserEvent::Added(Ok(())) => {
                let n = self.form.groups.len();
                if self.next + 1 == n {
                    self.phase = CreateUserPhase::Done;
                    CreateUserAction::Succeed(to_owned(self.form.userid.as_str()))
                } else {
                    self.next = self.next + 1;
                    CreateUserAction::AddToGroup(to_owned(self.form.groups[self.next].as_str()))
                }
            },
        }
    }
}

} // verus!
