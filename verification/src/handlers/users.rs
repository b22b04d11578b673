//! Family members: the names they are created and renamed with.
use vstd::prelude::*;
use crate::error::{write_error, write_error_spec, AppError};
use crate::models::{CreateUserRequest, UpdateUserRequest, User};
use crate::text::{is_whitespace, lemma_trim_idempotent, lemma_trim_shape, trim, trimmed, ws_prefix_len};

verus! {

/// The answer for a name given as `raw`: the name without surrounding
/// whitespace, which must not be empty.
pub open spec fn name_outcome(raw: Seq<char>, r: Result<String, AppError>) -> bool {
    if trim(raw).len() == 0 {
        r matches Err(e) && e.is_bad_request("name is required"@)
    } else {
        r matches Ok(n) && n@ == trim(raw)
    }
}

/// `n` is `raw` without its surrounding whitespace: a non-empty part of
/// `raw` that neither starts nor ends with whitespace, with only whitespace
/// around it.
pub open spec fn is_inner_text(raw: Seq<char>, n: Seq<char>) -> bool {
    &&& n.len() > 0
    &&& !is_whitespace(n[0])
    &&& !is_whitespace(n.last())
    &&& exists|a: int|
        0 <= a && a + n.len() <= raw.len() && #[trigger] raw.subrange(a, a + n.len()) == n
            && (forall|k: int| 0 <= k < a ==> is_whitespace(#[trigger] raw[k])) && (forall|k: int|
            a + n.len() <= k < raw.len() ==> is_whitespace(#[trigger] raw[k]))
}

/// What a name check answers: a name made only of whitespace (or empty) is
/// refused with "name is required"; any other is accepted as exactly the
/// given text without its surrounding whitespace, however long it is.
pub proof fn lemma_name_check(raw: Seq<char>, r: Result<String, AppError>)
    requires
        name_outcome(raw, r),
    ensures
        (r is Err) <==> (forall|k: int| 0 <= k < raw.len() ==> is_whitespace(#[trigger] raw[k])),
        r matches Err(e) ==> e.is_bad_request("name is required"@),
        r matches Ok(n) ==> is_inner_text(raw, n@),
{
    lemma_trim_shape(raw);
    if let Ok(n) = r {
        let a = ws_prefix_len(raw) as int;
        assert(raw.subrange(a, a + n@.len()) == n@);
    }
}

/// A name that was accepted is accepted again, unchanged: renaming a user to
/// the name they have, or leaving the name out of an update, keeps it.
pub proof fn lemma_accepted_name_is_stable(
    raw: Seq<char>,
    first: Result<String, AppError>,
    again: Result<String, AppError>,
)
    requires
        name_outcome(raw, first),
        first is Ok,
        name_outcome(first->Ok_0@, again),
    ensures
        again matches Ok(n) && n@ == first->Ok_0@,
{
    lemma_trim_idempotent(raw);
}

/// The trimmed name, or the refusal of an empty one.
pub fn checked_name(raw: &String) -> (r: Result<String, AppError>)
    ensures
        name_outcome(raw@, r),
{
    let name = trimmed(raw.as_str());
    if name.as_str().is_empty() {
        Err(AppError::bad_request("name is required"))
    } else {
        Ok(name)
    }
}

/// The name a new user is stored with.
pub fn new_user_name(req: &CreateUserRequest) -> (r: Result<String, AppError>)
    ensures
        name_outcome(req.name@, r),
{
    checked_name(&req.name)
}

/// The name a user is stored with after an update: the requested one, or
/// the current one when none is requested.
pub fn updated_user_name(existing: &User, req: &UpdateUserRequest) -> (r: Result<String, AppError>)
    ensures
        name_outcome(
            match req.name {
                Some(n) => n@,
                None => existing.name@,
            },
            r,
        ),
{
    match &req.name {
        Some(n) => checked_name(n),
        None => checked_name(&existing.name),
    }
}

/// The answer when storing a new user fails.
pub fn create_error(e: &sqlx::Error) -> (r: AppError)
    ensures
        exists|text: Seq<char>| write_error_spec(text, "user already exists"@, r),
{
    write_error(e, "user already exists")
}

/// The answer when renaming a user fails.
pub fn update_error(e: &sqlx::Error) -> (r: AppError)
    ensures
        exists|text: Seq<char>| write_error_spec(text, "user name already exists"@, r),
{
    write_error(e, "user name already exists")
}

} // verus!
