//! The errors that requests are answered with.
use vstd::prelude::*;
use crate::text::{contains_seq, contains_text};

verus! {

/// The database error type of `sqlx` (`sqlx::Error`), carried through opaquely.
#[verifier::external_type_specification]
#[verifier::external_body]
pub struct ExSqlxError(sqlx::Error);

/// An error answer: its kind and its message.
#[derive(Debug, PartialEq, Eq)]
pub enum AppError {
    NotFound(String),
    Unauthorized(String),
    BadRequest(String),
    Internal(String),
}

impl AppError {
    pub open spec fn is_not_found(self, msg: Seq<char>) -> bool {
        self matches AppError::NotFound(m) && m@ == msg
    }

    pub open spec fn is_unauthorized(self, msg: Seq<char>) -> bool {
        self matches AppError::Unauthorized(m) && m@ == msg
    }

    pub open spec fn is_bad_request(self, msg: Seq<char>) -> bool {
        self matches AppError::BadRequest(m) && m@ == msg
    }

    pub open spec fn is_internal(self, msg: Seq<char>) -> bool {
        self matches AppError::Internal(m) && m@ == msg
    }

    pub fn not_found(msg: &str) -> (e: AppError)
        ensures
            e.is_not_found(msg@),
    {
        AppError::NotFound(String::from_str(msg))
    }

    pub fn unauthorized(msg: &str) -> (e: AppError)
        ensures
            e.is_unauthorized(msg@),
    {
        AppError::Unauthorized(String::from_str(msg))
    }

    pub fn bad_request(msg: &str) -> (e: AppError)
        ensures
            e.is_bad_request(msg@),
    {
        AppError::BadRequest(String::from_str(msg))
    }

    /// The message the error carries.
    pub fn message(&self) -> (m: &String)
        ensures
            m == match self {
                AppError::NotFound(s) => s,
                AppError::Unauthorized(s) => s,
                AppError::BadRequest(s) => s,
                AppError::Internal(s) => s,
            },
    {
        match self {
            AppError::NotFound(s) => s,
            AppError::Unauthorized(s) => s,
            AppError::BadRequest(s) => s,
            AppError::Internal(s) => s,
        }
    }
}

/// What a failed insert or update is answered with, given the text of the
/// database error: a duplicate key is the client's fault, anything else is not.
pub open spec fn write_error_spec(text: Seq<char>, duplicate: Seq<char>, e: AppError) -> bool {
    if contains_seq(text, "Duplicate"@) {
        e.is_bad_request(duplicate)
    } else {
        e.is_internal(text)
    }
}

/// Maps the text of a failed write to the answer (`duplicate` is the message
/// for a duplicate key).
pub fn write_error_from_text(text: String, duplicate: &str) -> (e: AppError)
    ensures
        write_error_spec(text@, duplicate@, e),
{
    if contains_text(text.as_str(), "Duplicate") {
        AppError::bad_request(duplicate)
    } else {
        AppError::Internal(text)
    }
}

/// The text of a database error: calls `to_string` on a `sqlx::Error`, which
/// runs sqlx's `Display` impl for it. That text can come from the operating
/// system (I/O errors, in the locale's words) or from boxed errors of any
/// kind, so nothing is stated of it.
#[verifier::external_body]
fn error_text(e: &sqlx::Error) -> String {
    e.to_string()
}

/// Maps a failed insert or update to the answer: a `BadRequest` with the
/// `duplicate` message when the error's text mentions a duplicate key, else
/// an `Internal` error carrying that text. Which text `sqlx` gives is not
/// stated (see `error_text`), so the answer is stated for whatever text it is.
pub fn write_error(e: &sqlx::Error, duplicate: &str) -> (r: AppError)
    ensures
        exists|text: Seq<char>| write_error_spec(text, duplicate@, r),
{
    let text = error_text(e);
    let ghost t = text@;
    let r = write_error_from_text(text, duplicate);
    assert(write_error_spec(t, duplicate@, r));
    r
}

} // verus!
