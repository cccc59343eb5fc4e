//! The status with which a remote procedure call ends.

use vstd::prelude::*;

verus! {

/// The status codes of gRPC.
#[derive(Debug, Clone, Copy, PartialEq, Eq, Structural)]
pub enum Code {
    Success,
    Cancelled,
    Unknown,
    InvalidArgument,
    DeadlineExceeded,
    NotFound,
    AlreadyExists,
    PermissionDenied,
    ResourceExhausted,
    FailedPrecondition,
    Aborted,
    OutOfRange,
    Unimplemented,
    Internal,
    Unavailable,
    DataLoss,
    Unauthenticated,
}

/// A status: its code, and a message for the caller.
#[derive(Debug)]
pub struct Status {
    pub code: Code,
    pub message: String,
}

impl Status {
    /// Whether the status has the given code and message.
    pub open spec fn is(self, code: Code, message: Seq<char>) -> bool {
        self.code == code && self.message@ == message
    }

    /// The status with the given code and message.
    pub fn new(code: Code, message: &str) -> (status: Self)
        ensures
            status.is(code, message@),
    {
        Status { code, message: message.to_string() }
    }
}

} // verus!
