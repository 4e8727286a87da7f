//! Request bodies of the instance endpoints and their failure logging.
use vstd::prelude::*;

use crate::logging::{Logger, OperationLog, Severity};
use crate::server::error::{is_server_error, ApiError};

verus! {

/// `{"id": "<instance UUID>"}`: the body that names an instance to read.
pub struct GetInstanceRequest {
    pub id: String,
}

/// `{"id": "<instance UUID>"}`: the body that names an instance to delete.
pub struct DeleteInstanceRequest {
    pub id: String,
}

/// `{"id": "<instance UUID>"}`: the body that names an instance to start or stop.
pub struct StartInstanceRequest {
    pub id: String,
}

/// Server errors are logged as errors, all others as warnings.
pub open spec fn severity_for_status(status: u16) -> Severity {
    if is_server_error(status) {
        Severity::Error
    } else {
        Severity::Warning
    }
}

/// Logs that the operation's current step failed with `error` and returns the
/// answer with `status`.
pub fn operation_error(
    operation: &OperationLog,
    logger: &mut Logger,
    status: u16,
    error: &str,
) -> (r: ApiError)
    ensures
        r.status == status,
        r.message@ == error@,
        exists|time: Seq<char>|
            final(logger)@ == old(logger)@.push(
                #[trigger] crate::logging::log_entry(
                    severity_for_status(status),
                    time,
                    crate::logging::failure_message(operation.current_step(), error@),
                ),
            ),
{
    let severity = if 500 <= status && status <= 599 {
        Severity::Error
    } else {
        Severity::Warning
    };
    operation.failure(logger, severity, error);
    ApiError { status, message: String::from_str(error) }
}

} // verus!
