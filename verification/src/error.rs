//! Errors of the application.

use vstd::prelude::*;
use crate::text::{push_str, string_of};

verus! {

/// What can go wrong while talking to the endpoint or reading history.
#[derive(Debug)]
pub enum AppError {
    /// A file or terminal operation failed; the text describes it.
    Io(String),
    /// The endpoint did not answer the health probe.
    EndpointUnreachable(String),
    /// Nothing was loaded in the named scope.
    NoHistoryFound(String),
    /// Any other failure, described by its text.
    Other(String),
}

/// The user-facing text of an error.
pub open spec fn error_text(e: AppError) -> Seq<char> {
    match e {
        AppError::Io(m) => "I/O error: "@ + m@,
        AppError::EndpointUnreachable(url) => "cannot reach opencode at "@ + url@
            + " (use --endpoint or OPENCODE_BASE_URL to point elsewhere)"@,
        AppError::NoHistoryFound(scope) => "no sessions found in "@ + scope@,
        AppError::Other(m) => m@,
    }
}

impl AppError {
    /// The user-facing text of this error.
    pub fn message(&self) -> (r: String)
        ensures
            r@ == error_text(*self),
    {
        match self {
            AppError::Io(m) => {
                let mut r = string_of("I/O error: ");
                push_str(&mut r, m.as_str());
                r
            },
            AppError::EndpointUnreachable(url) => {
                let mut r = string_of("cannot reach opencode at ");
                push_str(&mut r, url.as_str());
                push_str(&mut r, " (use --endpoint or OPENCODE_BASE_URL to point elsewhere)");
                r
            },
            AppError::NoHistoryFound(scope) => {
                let mut r = string_of("no sessions found in ");
                push_str(&mut r, scope.as_str());
                r
            },
            AppError::Other(m) => m.clone(),
        }
    }
}

/// Result type of the application's fallible operations.
pub type Result<T> = core::result::Result<T, AppError>;

} // verus!
