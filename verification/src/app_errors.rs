//! The error model shared by the store adapters and the aggregation service.

use vstd::prelude::*;

verus! {

/// The kinds of failure that the core surfaces to its callers.
///
/// Field-validation failures are raised locally as `BadClientRequest`;
/// store-adapter failures propagate unchanged as one of the other kinds.
#[derive(Clone, Copy, Debug, PartialEq, Eq, Structural)]
pub enum AppErrorKind {
    NotFound,
    InternalError,
    ConnectionError,
    ResponseUnmarshalError,
    BadClientRequest,
}

impl AppErrorKind {
    /// The stable name of this error kind, as written into responses.
    pub open spec fn spec_str(self) -> Seq<char> {
        match self {
            AppErrorKind::NotFound => "TaskNotFound"@,
            AppErrorKind::InternalError => "InternalError"@,
            AppErrorKind::ConnectionError => "ConnectionError"@,
            AppErrorKind::ResponseUnmarshalError => "ResponseUnmarshalError"@,
            AppErrorKind::BadClientRequest => "BadClientRequest"@,
        }
    }

    pub fn as_str(&self) -> (r: &'static str)
        ensures
            r@ == self.spec_str(),
    {
        match *self {
            AppErrorKind::NotFound => "TaskNotFound",
            AppErrorKind::InternalError => "InternalError",
            AppErrorKind::ConnectionError => "ConnectionError",
            AppErrorKind::ResponseUnmarshalError => "ResponseUnmarshalError",
            AppErrorKind::BadClientRequest => "BadClientRequest",
        }
    }
}

/// An error kind together with a human-readable message.
#[derive(Debug)]
pub struct AppError {
    pub kind: AppErrorKind,
    pub message: String,
}

impl AppError {
    pub fn new(kind: AppErrorKind, message: String) -> (r: AppError)
        ensures
            r.kind == kind,
            r.message == message,
    {
        AppError { kind, message }
    }
}

} // verus!
