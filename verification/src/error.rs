//! Error model of the service: an explicit kind for every failure class,
//! a human-readable message, and the HTTP status code that the transport
//! boundary should answer with.

use vstd::prelude::*;

verus! {

/// Every failure a client-reachable path can produce falls in one of these.
#[derive(Clone, Copy, PartialEq, Eq, Structural, Debug)]
pub enum ErrorKind {
    /// A required part of the request is missing or malformed.
    ClientInput,
    /// The admin credential is absent or does not match.
    Unauthorized,
    /// The record an operation targets does not exist.
    NotFound,
    /// The mapping store could not complete an operation.
    Storage,
    /// Any other internal fault.
    Internal,
}

/// The status code a kind is answered with unless a handler overrides it.
pub open spec fn default_code(kind: ErrorKind) -> u16 {
    match kind {
        ErrorKind::ClientInput => 400,
        ErrorKind::Unauthorized => 401,
        ErrorKind::NotFound => 404,
        ErrorKind::Storage => 500,
        ErrorKind::Internal => 500,
    }
}

/// A service error: its kind, a message for the error envelope, and the
/// HTTP status code to answer with.
#[derive(Debug)]
pub struct Error {
    pub kind: ErrorKind,
    pub msg: String,
    pub code: u16,
}

impl Error {
    /// Build an error of the given kind carrying a message; the status code
    /// starts at the kind's default.
    pub fn new(kind: ErrorKind, msg: &str) -> (r: Error)
        ensures
            r.kind == kind,
            r.msg@ == msg@,
            r.code == default_code(kind),
    {
        let code: u16 = match kind {
            ErrorKind::ClientInput => 400,
            ErrorKind::Unauthorized => 401,
            ErrorKind::NotFound => 404,
            ErrorKind::Storage => 500,
            ErrorKind::Internal => 500,
        };
        Error { kind, msg: String::from_str(msg), code }
    }

    /// Replace the status code the error will be answered with.
    pub fn with_code(self, code: u16) -> (r: Error)
        ensures
            r.kind == self.kind,
            r.msg@ == self.msg@,
            r.code == code,
    {
        Error { code, ..self }
    }

    /// The status code the transport boundary should use.
    pub fn status_code(&self) -> (r: u16)
        ensures
            r == self.code,
    {
        self.code
    }
}

} // verus!
