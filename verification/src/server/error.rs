//! Errors as the HTTP layer answers them.
use vstd::prelude::*;

use crate::instances::{ErrorKind, InstanceError};

verus! {

/// An HTTP error answer: a status code and a plain-text message.
pub struct ApiError {
    pub status: u16,
    pub message: String,
}

/// The status that answers each kind of instance error.
pub open spec fn status_for(kind: ErrorKind) -> u16 {
    match kind {
        ErrorKind::Forbidden => 403,
        ErrorKind::InvalidInput => 400,
        ErrorKind::NotFound => 404,
        ErrorKind::Conflict => 409,
        ErrorKind::Internal => 500,
    }
}

/// A status in the 5xx range (`StatusCode::is_server_error`).
pub open spec fn is_server_error(status: u16) -> bool {
    500 <= status <= 599
}

impl From<InstanceError> for ApiError {
    /// Answers an instance error with the status of its kind and its message.
    fn from(error: InstanceError) -> (r: Self) {
        let status = match error.kind {
            ErrorKind::Forbidden => 403,
            ErrorKind::InvalidInput => 400,
            ErrorKind::NotFound => 404,
            ErrorKind::Conflict => 409,
            ErrorKind::Internal => 500,
        };
        ApiError { status, message: error.message }
    }
}

impl vstd::std_specs::convert::FromSpecImpl<InstanceError> for ApiError {
    open spec fn obeys_from_spec() -> bool {
        true
    }

    open spec fn from_spec(error: InstanceError) -> Self {
        ApiError { status: status_for(error.kind), message: error.message }
    }
}

/// An answer with `status` and `message`.
pub fn error(status: u16, message: &str) -> (r: ApiError)
    ensures
        r.status == status,
        r.message@ == message@,
{
    ApiError { status, message: String::from_str(message) }
}

/// Only internal errors are answered with a server error; every other kind is
/// the caller's and gets a 4xx status. Logging agrees: an instance error is
/// logged as an error exactly when its answer is a server error.
pub proof fn lemma_server_errors_are_internal(kind: ErrorKind)
    ensures
        is_server_error(status_for(kind)) <==> kind == ErrorKind::Internal,
        400 <= status_for(kind) <= 599,
        (crate::instances::failure_severity(kind) == crate::logging::Severity::Error)
            <==> is_server_error(status_for(kind)),
{
}

} // verus!
