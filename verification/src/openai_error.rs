//! The OpenAI error envelope as it goes out, and what an SDK reads off the
//! transport rather than out of the body.

use vstd::prelude::*;

verus! {

/// The `error` object, spelled exactly as OpenAI spells it.
#[derive(Debug, Clone)]
pub struct ErrorBody {
    pub message: String,
    /// The OpenAI error family, such as `invalid_request_error`.
    pub error_type: String,
    /// Which request parameter was at fault; warpllm does not model this.
    pub param: Option<String>,
    /// The failure's own slug.
    pub code: Option<String>,
}

/// Which OpenAI-compatible exception a failure is raised as, decided from the
/// status alone.
#[derive(Debug, Clone, Copy, PartialEq, Eq, Structural)]
pub enum ErrorClass {
    ApiConnection,
    ApiStatus,
    BadRequest,
    Authentication,
    PermissionDenied,
    NotFound,
    Conflict,
    UnprocessableEntity,
    RateLimit,
    InternalServer,
}

pub open spec fn class_of_status(status: Option<u16>) -> ErrorClass {
    match status {
        None => ErrorClass::ApiConnection,
        Some(s) => if s == 400 {
            ErrorClass::BadRequest
        } else if s == 401 {
            ErrorClass::Authentication
        } else if s == 403 {
            ErrorClass::PermissionDenied
        } else if s == 404 {
            ErrorClass::NotFound
        } else if s == 409 {
            ErrorClass::Conflict
        } else if s == 422 {
            ErrorClass::UnprocessableEntity
        } else if s == 429 {
            ErrorClass::RateLimit
        } else if s >= 500 {
            ErrorClass::InternalServer
        } else {
            ErrorClass::ApiStatus
        },
    }
}

impl ErrorClass {
    /// The exception class for a status; `None` means no HTTP exchange
    /// happened at all.
    pub fn from_status(status: Option<u16>) -> (r: ErrorClass)
        ensures
            r == class_of_status(status),
    {
        match status {
            None => ErrorClass::ApiConnection,
            Some(s) => if s == 400 {
                ErrorClass::BadRequest
            } else if s == 401 {
                ErrorClass::Authentication
            } else if s == 403 {
                ErrorClass::PermissionDenied
            } else if s == 404 {
                ErrorClass::NotFound
            } else if s == 409 {
                ErrorClass::Conflict
            } else if s == 422 {
                ErrorClass::UnprocessableEntity
            } else if s == 429 {
                ErrorClass::RateLimit
            } else if s >= 500 {
                ErrorClass::InternalServer
            } else {
                ErrorClass::ApiStatus
            },
        }
    }
}

/// A failure rendered for an OpenAI-compatible surface: the body, plus what
/// an SDK takes from the response instead of from inside it.
#[derive(Debug, Clone)]
pub struct OpenAiError {
    pub class: ErrorClass,
    /// The status answered with; `None` when no HTTP exchange happened.
    pub status: Option<u16>,
    /// Response headers worth keeping (`retry-after`, `x-request-id`), by
    /// name.
    pub headers: Vec<(String, String)>,
    pub error: ErrorBody,
}

} // verus!
