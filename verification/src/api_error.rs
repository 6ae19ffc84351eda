//! Errors surfaced to callers of the orchestrator.

use vstd::prelude::*;

verus! {

/// A fault reported to the submitter or to the query boundary.
///
/// `JobQueueClosed` means the intake channel's receiving side is gone, so a
/// submission cannot be enqueued; the boundary maps it to a
/// service-unavailable response. `InternalError` carries a message for any
/// other internal fault and maps to a generic internal-error response.
pub enum ApiError {
    JobQueueClosed,
    InternalError(String),
}

impl ApiError {
    /// The HTTP status code this error maps to at the boundary.
    pub fn status_code(&self) -> (s: u16)
        ensures
            (*self matches ApiError::JobQueueClosed) ==> s == 503,
            (*self matches ApiError::InternalError(_)) ==> s == 500,
    {
        match self {
            ApiError::JobQueueClosed => 503,
            ApiError::InternalError(_) => 500,
        }
    }

    /// The response text this error maps to at the boundary.
    pub fn message(&self) -> (m: String)
        ensures
            (*self matches ApiError::JobQueueClosed) ==> m@ == "job queue closed or unavailable"@,
            *self matches ApiError::InternalError(s) ==> m@ == "internal error: "@ + s@,
    {
        match self {
            ApiError::JobQueueClosed => String::from_str("job queue closed or unavailable"),
            ApiError::InternalError(s) => {
                let mut m = String::from_str("internal error: ");
                m.append(s.as_str());
                m
            },
        }
    }
}

} // verus!
