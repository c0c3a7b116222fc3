//! The error type of fallible operations.
use vstd::prelude::*;

verus! {

/// An error from an operation that could not be carried out (an argument
/// was invalid, a file could not be read, ...). Parser and semantic
/// diagnostics are not errors; they are collected in `Diagnostics`.
#[derive(Debug)]
#[non_exhaustive]
pub enum Error {
    /// A file could not be read or written.
    Io(String),
    /// An argument was null, out of range, or otherwise invalid.
    InvalidArgument(String),
    /// The object was in the wrong state for the operation.
    InvalidState(String),
    /// The parser gave up on pathologically nested input.
    ParseRecursion(String),
    /// A syntax tree rewrite was rejected.
    Rewrite(String),
    /// Memory allocation failed.
    OutOfMemory,
    /// This build of the library does not support the operation.
    Unsupported(String),
    /// The linked library and these bindings disagree about the schema.
    AbiMismatch(String),
    /// A traversal was cancelled.
    Cancelled,
    /// An internal failure with no more specific mapping.
    Internal(String),
}

impl Clone for Error {
    /// An equal copy.
    fn clone(&self) -> (r: Error)
        ensures
            r == *self,
    {
        match self {
            Error::Io(m) => Error::Io(m.clone()),
            Error::InvalidArgument(m) => Error::InvalidArgument(m.clone()),
            Error::InvalidState(m) => Error::InvalidState(m.clone()),
            Error::ParseRecursion(m) => Error::ParseRecursion(m.clone()),
            Error::Rewrite(m) => Error::Rewrite(m.clone()),
            Error::OutOfMemory => Error::OutOfMemory,
            Error::Unsupported(m) => Error::Unsupported(m.clone()),
            Error::AbiMismatch(m) => Error::AbiMismatch(m.clone()),
            Error::Cancelled => Error::Cancelled,
            Error::Internal(m) => Error::Internal(m.clone()),
        }
    }
}

/// The human-readable text of an error: a fixed prefix per kind, then the
/// message.
pub open spec fn error_text(e: Error) -> Seq<char> {
    match e {
        Error::Io(m) => "I/O error: "@ + m@,
        Error::InvalidArgument(m) => "invalid argument: "@ + m@,
        Error::InvalidState(m) => "invalid state: "@ + m@,
        Error::ParseRecursion(m) => "parser recursion limit: "@ + m@,
        Error::Rewrite(m) => "rewrite rejected: "@ + m@,
        Error::OutOfMemory => "out of memory"@,
        Error::Unsupported(m) => "unsupported: "@ + m@,
        Error::AbiMismatch(m) => "ABI mismatch: "@ + m@,
        Error::Cancelled => "cancelled"@,
        Error::Internal(m) => "internal error: "@ + m@,
    }
}

/// `prefix` followed by `m`.
fn prefixed(prefix: &str, m: &String) -> (r: String)
    ensures
        r@ == prefix@ + m@,
{
    let mut s = String::from_str(prefix);
    s.append(m.as_str());
    s
}

impl Error {
    /// The error rendered as text, e.g. `"invalid argument: width is zero"`.
    pub fn to_string(&self) -> (r: String)
        ensures
            r@ == error_text(*self),
    {
        match self {
            Error::Io(m) => prefixed("I/O error: ", m),
            Error::InvalidArgument(m) => prefixed("invalid argument: ", m),
            Error::InvalidState(m) => prefixed("invalid state: ", m),
            Error::ParseRecursion(m) => prefixed("parser recursion limit: ", m),
            Error::Rewrite(m) => prefixed("rewrite rejected: ", m),
            Error::OutOfMemory => String::from_str("out of memory"),
            Error::Unsupported(m) => prefixed("unsupported: ", m),
            Error::AbiMismatch(m) => prefixed("ABI mismatch: ", m),
            Error::Cancelled => String::from_str("cancelled"),
            Error::Internal(m) => prefixed("internal error: ", m),
        }
    }
}

/// An `InvalidArgument` error carrying `msg`.
pub fn invalid_argument(msg: &str) -> (e: Error)
    ensures
        e == Error::InvalidArgument(e->InvalidArgument_0),
        e->InvalidArgument_0@ == msg@,
{
    Error::InvalidArgument(String::from_str(msg))
}

} // verus!
