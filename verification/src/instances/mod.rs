//! Errors and decisions of the instance workflows.
use vstd::prelude::*;

use crate::logging::{failure_message, Logger, OperationLog, Severity};

pub mod create;
pub mod manage;
pub mod read;
pub mod listing;

verus! {

/// The class of an instance-workflow failure.
#[derive(Clone, Copy, PartialEq, Eq, Debug)]
pub enum ErrorKind {
    InvalidInput,
    Forbidden,
    NotFound,
    Conflict,
    Internal,
}

/// A failed instance workflow: its class and the message shown to the caller.
pub struct InstanceError {
    pub kind: ErrorKind,
    pub message: String,
}

impl InstanceError {
    /// The message shown to the caller (the error's `Display` text).
    pub fn to_string(&self) -> (r: String)
        ensures
            r@ == self.message@,
    {
        self.message.clone()
    }
}

/// What creating an instance did.
pub enum CreateOutcome {
    Created { id: String },
    DryRun,
}

/// Internal failures are logged as errors, all others as warnings.
pub open spec fn failure_severity(kind: ErrorKind) -> Severity {
    if kind == ErrorKind::Internal {
        Severity::Error
    } else {
        Severity::Warning
    }
}

/// An information entry.
pub open spec fn info(message: Seq<char>) -> (Severity, Seq<char>) {
    (Severity::Info, message)
}

/// The entry logged when step `step` fails with `message`.
pub open spec fn failure_entry(step: Seq<char>, kind: ErrorKind, message: Seq<char>) -> (
    Severity,
    Seq<char>,
) {
    (failure_severity(kind), failure_message(step, message))
}

/// Logs that the operation's current step failed with `error` and returns the
/// error to hand to the caller.
pub fn operation_error(
    operation: &OperationLog,
    logger: &mut Logger,
    kind: ErrorKind,
    error: &str,
) -> (r: InstanceError)
    ensures
        r.kind == kind,
        r.message@ == error@,
        exists|time: Seq<char>|
            final(logger)@ == old(logger)@.push(
                #[trigger] crate::logging::log_entry(
                    failure_severity(kind),
                    time,
                    crate::logging::failure_message(operation.current_step(), error@),
                ),
            ),
{
    let severity = match kind {
        ErrorKind::Internal => Severity::Error,
        _ => Severity::Warning,
    };
    operation.failure(logger, severity, error);
    InstanceError { kind, message: String::from_str(error) }
}

/// The longest description accepted, in characters.
pub const MAX_DESCRIPTION_CHARS: usize = 2000;

/// The answer to a description that is too long or holds NUL.
pub open spec fn description_message() -> Seq<char> {
    "Description must be at most 2000 characters and cannot contain NUL characters."@
}

/// The answer when another operation holds the instance's lock.
pub const BUSY_MESSAGE: &'static str =
    "Another operation is in progress for this instance. Please try again when it finishes.";

/// The description as stored: trimmed, at most 2000 characters and free of NUL.
pub open spec fn description_accepted(description: Seq<char>) -> bool {
    let trimmed = crate::text::trim(description);
    trimmed.len() <= 2000 && !trimmed.contains('\0')
}

/// Trims an instance description and checks it; the trimmed text is returned.
pub fn validate_description(description: &str) -> (r: Result<String, InstanceError>)
    ensures
        r is Ok <==> description_accepted(description@),
        r matches Ok(d) ==> d@ == crate::text::trim(description@),
        r matches Err(e) ==> e.kind == ErrorKind::InvalidInput && e.message@
            == description_message(),
{
    let trimmed = crate::text::trim_exec(description);
    let v = crate::text::chars_of(trimmed.as_str());
    if v.len() > MAX_DESCRIPTION_CHARS || crate::text::contains_char(trimmed.as_str(), '\0') {
        return Err(
            InstanceError {
                kind: ErrorKind::InvalidInput,
                message: String::from_str(
                    "Description must be at most 2000 characters and cannot contain NUL characters.",
                ),
            },
        );
    }
    Ok(trimmed)
}

/// The guest user name kept for the configured system administrator.
pub const RESERVED_USER_NAME: &'static str = "sysadmin";

} // verus!
