//! The errors that registry operations report to their callers.

use vstd::prelude::*;
use vstd::string::*;

verus! {

/// What went wrong, as far as a caller can act on it.
#[derive(Clone, Copy, Debug, PartialEq, Eq, Structural)]
pub enum ErrorKind {
    /// The request is malformed or breaks a grammar.
    InvalidRequest,
    /// The caller is not known.
    Unauthorized,
    /// The caller is known and may not do this.
    Forbidden,
    /// The thing asked for does not exist.
    NotFound,
    /// The thing to create exists already.
    AlreadyExists,
    /// The operation would break a rule on ownership or yanking.
    Conflict,
    /// The registry itself failed.
    Internal,
}

/// The HTTP status that answers an error of the given kind.
pub open spec fn status_of(kind: ErrorKind) -> u16 {
    match kind {
        ErrorKind::InvalidRequest => 400,
        ErrorKind::Unauthorized => 401,
        ErrorKind::Forbidden => 403,
        ErrorKind::NotFound => 404,
        ErrorKind::AlreadyExists => 409,
        ErrorKind::Conflict => 409,
        ErrorKind::Internal => 500,
    }
}

/// The message that every error of the given kind carries.
pub open spec fn message_of(kind: ErrorKind) -> Seq<char> {
    match kind {
        ErrorKind::InvalidRequest => "The request could not be understood by the server."@,
        ErrorKind::Unauthorized => "User is not authenticated."@,
        ErrorKind::Forbidden => "This action is forbidden to the user."@,
        ErrorKind::NotFound => "The requested resource cannot be found."@,
        ErrorKind::AlreadyExists => "The resource exists already."@,
        ErrorKind::Conflict => "The request could not be processed because of conflict in the current state of the resource."@,
        ErrorKind::Internal => "The request was well-formed but an error occurred on the server."@,
    }
}

/// An error of a registry operation.
#[derive(Clone, Debug)]
pub struct ApiError {
    /// The kind of the error.
    pub kind: ErrorKind,
    /// The message of the kind.
    pub message: String,
    /// What this occurrence adds to the message, if anything.
    pub details: Option<String>,
}

impl ApiError {
    /// An error of the given kind without details.
    pub open spec fn is_plain(self, kind: ErrorKind) -> bool {
        &&& self.kind == kind
        &&& self.message@ == message_of(kind)
        &&& self.details is None
    }

    /// An error of the given kind with the given details.
    pub open spec fn is_detailed(self, kind: ErrorKind, details: Seq<char>) -> bool {
        &&& self.kind == kind
        &&& self.message@ == message_of(kind)
        &&& self.details is Some
        &&& self.details->0@ == details
    }

    /// Builds the error of a kind, without details.
    pub fn new(kind: ErrorKind) -> (e: ApiError)
        ensures
            e.is_plain(kind),
    {
        let message = match kind {
            ErrorKind::InvalidRequest => "The request could not be understood by the server.",
            ErrorKind::Unauthorized => "User is not authenticated.",
            ErrorKind::Forbidden => "This action is forbidden to the user.",
            ErrorKind::NotFound => "The requested resource cannot be found.",
            ErrorKind::AlreadyExists => "The resource exists already.",
            ErrorKind::Conflict => "The request could not be processed because of conflict in the current state of the resource.",
            ErrorKind::Internal => "The request was well-formed but an error occurred on the server.",
        };
        ApiError { kind, message: message.to_owned(), details: None }
    }

    /// The HTTP status that answers this error.
    pub fn http_status(&self) -> (status: u16)
        ensures
            status == status_of(self.kind),
    {
        match self.kind {
            ErrorKind::InvalidRequest => 400,
            ErrorKind::Unauthorized => 401,
            ErrorKind::Forbidden => 403,
            ErrorKind::NotFound => 404,
            ErrorKind::AlreadyExists => 409,
            ErrorKind::Conflict => 409,
            ErrorKind::Internal => 500,
        }
    }
}

/// The request is malformed.
pub fn error_invalid_request() -> (e: ApiError)
    ensures
        e.is_plain(ErrorKind::InvalidRequest),
{
    ApiError::new(ErrorKind::InvalidRequest)
}

/// The caller is not authenticated.
pub fn error_unauthorized() -> (e: ApiError)
    ensures
        e.is_plain(ErrorKind::Unauthorized),
{
    ApiError::new(ErrorKind::Unauthorized)
}

/// The caller may not do this.
pub fn error_forbidden() -> (e: ApiError)
    ensures
        e.is_plain(ErrorKind::Forbidden),
{
    ApiError::new(ErrorKind::Forbidden)
}

/// The resource does not exist.
pub fn error_not_found() -> (e: ApiError)
    ensures
        e.is_plain(ErrorKind::NotFound),
{
    ApiError::new(ErrorKind::NotFound)
}

/// The resource exists already.
pub fn error_already_exists() -> (e: ApiError)
    ensures
        e.is_plain(ErrorKind::AlreadyExists),
{
    ApiError::new(ErrorKind::AlreadyExists)
}

/// The operation conflicts with the state of the resource.
pub fn error_conflict() -> (e: ApiError)
    ensures
        e.is_plain(ErrorKind::Conflict),
{
    ApiError::new(ErrorKind::Conflict)
}

/// The registry failed.
pub fn error_internal() -> (e: ApiError)
    ensures
        e.is_plain(ErrorKind::Internal),
{
    ApiError::new(ErrorKind::Internal)
}

/// Attaches details to an error, replacing any it had.
pub fn specialize(error: ApiError, details: String) -> (e: ApiError)
    ensures
        e.kind == error.kind,
        e.message == error.message,
        e.details == Some(details),
{
    ApiError { kind: error.kind, message: error.message, details: Some(details) }
}

/// The error that a download reports in place of `error`: a client that
/// downloads does not retry with credentials, so a missing authentication is
/// reported as a refusal. Every other error passes unchanged.
pub fn download_error(error: ApiError) -> (e: ApiError)
    ensures
        e.kind == (if error.kind == ErrorKind::Unauthorized {
            ErrorKind::Forbidden
        } else {
            error.kind
        }),
        e.message == error.message,
        e.details == error.details,
{
    let kind = match error.kind {
        ErrorKind::Unauthorized => ErrorKind::Forbidden,
        other => other,
    };
    ApiError { kind, message: error.message, details: error.details }
}

} // verus!
