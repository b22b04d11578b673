//! What each request decides, apart from the database work around it.
use vstd::prelude::*;
use crate::error::AppError;

pub mod auth;
pub mod budgets;
pub mod categories;
pub mod summary;
pub mod transactions;
pub mod users;

verus! {

/// The kinds of record that requests look up and delete.
#[derive(Debug, PartialEq, Eq, Clone, Copy)]
pub enum Resource {
    User,
    Category,
    Transaction,
    Budget,
}

/// The message a request is answered with when its record is missing.
pub open spec fn not_found_text(r: Resource) -> Seq<char> {
    match r {
        Resource::User => "user not found"@,
        Resource::Category => "category not found"@,
        Resource::Transaction => "transaction not found"@,
        Resource::Budget => "budget not found"@,
    }
}

/// The answer when a record of kind `resource` is missing.
pub fn not_found(resource: Resource) -> (e: AppError)
    ensures
        e.is_not_found(not_found_text(resource)),
{
    match resource {
        Resource::User => AppError::not_found("user not found"),
        Resource::Category => AppError::not_found("category not found"),
        Resource::Transaction => AppError::not_found("transaction not found"),
        Resource::Budget => AppError::not_found("budget not found"),
    }
}

/// The record a lookup found, or "not found" when it found none.
pub fn found<T>(resource: Resource, row: Option<T>) -> (r: Result<T, AppError>)
    ensures
        match row {
            Some(x) => r matches Ok(y) && y == x,
            None => r matches Err(e) && e.is_not_found(not_found_text(resource)),
        },
{
    match row {
        Some(x) => Ok(x),
        None => Err(not_found(resource)),
    }
}

/// The answer to a delete that removed `affected` rows: nothing removed
/// means the record did not exist.
pub fn deletion_outcome(resource: Resource, affected: u64) -> (r: Result<(), AppError>)
    ensures
        affected == 0 ==> (r matches Err(e) && e.is_not_found(not_found_text(resource))),
        affected != 0 ==> r is Ok,
{
    if affected == 0 {
        Err(not_found(resource))
    } else {
        Ok(())
    }
}

} // verus!
