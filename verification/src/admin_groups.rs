//! Admin group administration under `/ocs/v2.php/cloud/groups`. The
//! `admin` group itself is structural and cannot be deleted.

use crate::ocs::CoreError;
use crate::text::{chars_of, concat, str_eq, to_owned};
use vstd::prelude::*;

verus! {

/// Page size when the query gives none.
pub const DEFAULT_LIMIT: u32 = 100;

/// Largest page size.
pub const MAX_LIMIT: u32 = 500;

/// Query of `GET /cloud/groups`: paginated, case-insensitive substring
/// search across group id and display name.
#[derive(Debug, Clone)]
pub struct ListQuery {
    pub search: Option<String>,
    pub limit: u32,
    pub offset: u32,
}

/// The page size used when the query has none.
pub fn default_limit() -> (r: u32)
    ensures
        r == DEFAULT_LIMIT,
{
    DEFAULT_LIMIT
}

/// Body of `POST /cloud/groups`.
#[derive(Debug, Clone)]
pub struct CreateGroupForm {
    pub groupid: String,
    pub displayname: Option<String>,
}

/// The display name of a new group: the given one, or the group id when
/// absent or empty.
pub fn new_group_display_name(form: &CreateGroupForm) -> (r: String)
    ensures
        r@ == match form.displayname {
            Some(d) => if d@.len() > 0 {
                d@
            } else {
                form.groupid@
            },
            None => form.groupid@,
        },
{
    match &form.displayname {
        Some(d) => if chars_of(d.as_str()).len() > 0 {
            to_owned(d.as_str())
        } else {
            to_owned(form.groupid.as_str())
        },
        None => to_owned(form.groupid.as_str()),
    }
}

/// Creating a group that exists already is a 409: `group already exists: <gid>`.
pub fn create_group_guard(groupid: &str, exists: bool) -> (r: Result<(), CoreError>)
    ensures
        exists ==> (r matches Err(CoreError::Conflict(m)) && m@ == "group already exists: "@
            + groupid@),
        !exists ==> r is Ok,
{
    if exists {
        Err(CoreError::Conflict(concat("group already exists: ", groupid)))
    } else {
        Ok(())
    }
}

/// Deleting: the `admin` group is refused (400) before anything else; an
/// unknown group is 404.
pub fn delete_group_guard(gid: &str, exists: bool) -> (r: Result<(), CoreError>)
    ensures
        gid@ == "admin"@ ==> (r matches Err(CoreError::BadRequest(m)) && m@
            == "the admin group is structural"@),
        gid@ != "admin"@ && !exists ==> r == Err::<(), CoreError>(CoreError::NotFound),
        gid@ != "admin"@ && exists ==> r is Ok,
{
    if str_eq(gid, "admin") {
        return Err(CoreError::BadRequest(to_owned("the admin group is structural")));
    }
    if !exists {
        return Err(CoreError::NotFound);
    }
    Ok(())
}

/// Listing members of an unknown group is 404.
pub fn members_guard(exists: bool) -> (r: Result<(), CoreError>)
    ensures
        exists ==> r is Ok,
        !exists ==> r == Err::<(), CoreError>(CoreError::NotFound),
{
    if exists {
        Ok(())
    } else {
        Err(CoreError::NotFound)
    }
}

} // verus!
