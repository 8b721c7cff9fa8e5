//! The errors of the platform, the HTTP status each is answered with and
//! the text each is shown as.
use vstd::prelude::*;
use crate::text::{owned, push_string};

verus! {

/// An error of the platform. An I/O or JSON error keeps the text of the
/// error it came from.
#[derive(Debug, Clone)]
pub enum BinarisError {
    NotFound(String),
    Unauthorized(String),
    Forbidden(String),
    Validation(String),
    UnsupportedFormat(String),
    Analysis(String),
    Storage(String),
    Database(String),
    Queue(String),
    Ai(String),
    Auth(String),
    RateLimited(String),
    Conflict(String),
    Internal(String),
    Io(String),
    Json(String),
}

/// The HTTP status of an error: 404, 401, 403, 400 (invalid input or an
/// unsupported format), 409, 429, and 500 for the rest.
pub open spec fn spec_status_code(e: BinarisError) -> u16 {
    match e {
        BinarisError::NotFound(_) => 404,
        BinarisError::Unauthorized(_) => 401,
        BinarisError::Forbidden(_) => 403,
        BinarisError::Validation(_) | BinarisError::UnsupportedFormat(_) => 400,
        BinarisError::Conflict(_) => 409,
        BinarisError::RateLimited(_) => 429,
        _ => 500,
    }
}

/// The text an error is shown as: a prefix naming its kind and its detail;
/// an I/O or JSON error is shown as the error it came from.
pub open spec fn spec_message(e: BinarisError) -> Seq<char> {
    match e {
        BinarisError::NotFound(d) => "not found: "@ + d@,
        BinarisError::Unauthorized(d) => "unauthorized: "@ + d@,
        BinarisError::Forbidden(d) => "forbidden: "@ + d@,
        BinarisError::Validation(d) => "validation failed: "@ + d@,
        BinarisError::UnsupportedFormat(d) => "unsupported binary format: "@ + d@,
        BinarisError::Analysis(d) => "analysis failed: "@ + d@,
        BinarisError::Storage(d) => "storage error: "@ + d@,
        BinarisError::Database(d) => "database error: "@ + d@,
        BinarisError::Queue(d) => "queue error: "@ + d@,
        BinarisError::Ai(d) => "AI provider error: "@ + d@,
        BinarisError::Auth(d) => "auth error: "@ + d@,
        BinarisError::RateLimited(d) => "rate limited: "@ + d@,
        BinarisError::Conflict(d) => "conflict: "@ + d@,
        BinarisError::Internal(d) => "internal error: "@ + d@,
        BinarisError::Io(d) => d@,
        BinarisError::Json(d) => d@,
    }
}

fn prefixed(prefix: &str, detail: &String) -> (r: String)
    ensures
        r@ == prefix@ + detail@,
{
    let mut s = owned(prefix);
    push_string(&mut s, detail);
    s
}

impl BinarisError {
    /// The HTTP status the error is answered with.
    pub fn status_code(&self) -> (r: u16)
        ensures
            r == spec_status_code(*self),
    {
        match self {
            BinarisError::NotFound(_) => 404,
            BinarisError::Unauthorized(_) => 401,
            BinarisError::Forbidden(_) => 403,
            BinarisError::Validation(_) | BinarisError::UnsupportedFormat(_) => 400,
            BinarisError::Conflict(_) => 409,
            BinarisError::RateLimited(_) => 429,
            _ => 500,
        }
    }

    /// The text the error is shown as.
    pub fn message(&self) -> (r: String)
        ensures
            r@ == spec_message(*self),
    {
        match self {
            BinarisError::NotFound(d) => prefixed("not found: ", d),
            BinarisError::Unauthorized(d) => prefixed("unauthorized: ", d),
            BinarisError::Forbidden(d) => prefixed("forbidden: ", d),
            BinarisError::Validation(d) => prefixed("validation failed: ", d),
            BinarisError::UnsupportedFormat(d) => prefixed("unsupported binary format: ", d),
            BinarisError::Analysis(d) => prefixed("analysis failed: ", d),
            BinarisError::Storage(d) => prefixed("storage error: ", d),
            BinarisError::Database(d) => prefixed("database error: ", d),
            BinarisError::Queue(d) => prefixed("queue error: ", d),
            BinarisError::Ai(d) => prefixed("AI provider error: ", d),
            BinarisError::Auth(d) => prefixed("auth error: ", d),
            BinarisError::RateLimited(d) => prefixed("rate limited: ", d),
            BinarisError::Conflict(d) => prefixed("conflict: ", d),
            BinarisError::Internal(d) => prefixed("internal error: ", d),
            BinarisError::Io(d) => d.clone(),
            BinarisError::Json(d) => d.clone(),
        }
    }
}

} // verus!
