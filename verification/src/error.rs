//! The errors that the store's operations return.

use vstd::prelude::*;

verus! {

/// What went wrong, without the words.
#[derive(Clone, Copy, PartialEq, Eq, Structural, Debug, Hash)]
pub enum ErrorKind {
    /// A row that was asked for, or that another row refers to, is absent.
    NotFound,
    /// A required field is empty or zero, or a number is out of its range.
    InvalidInput,
    /// Kept for uniqueness rules; no operation returns it.
    AlreadyExists,
    /// Kept for permission rules; no operation returns it.
    Unauthorized,
}

/// An error of the store, with a message for people.
#[derive(Debug, PartialEq, Eq)]
pub enum Error {
    NotFound { msg: String },
    InvalidInput { msg: String },
    AlreadyExists { msg: String },
    Unauthorized { msg: String },
}

/// An error as contracts speak of it: its kind and the characters of its message.
pub struct ErrorData {
    pub kind: ErrorKind,
    pub msg: Seq<char>,
}

impl View for Error {
    type V = ErrorData;

    open spec fn view(&self) -> ErrorData {
        match self {
            Error::NotFound { msg } => ErrorData { kind: ErrorKind::NotFound, msg: msg@ },
            Error::InvalidInput { msg } => ErrorData { kind: ErrorKind::InvalidInput, msg: msg@ },
            Error::AlreadyExists { msg } => ErrorData { kind: ErrorKind::AlreadyExists, msg: msg@ },
            Error::Unauthorized { msg } => ErrorData { kind: ErrorKind::Unauthorized, msg: msg@ },
        }
    }
}

/// A `NotFound` with the given message.
pub open spec fn not_found(msg: Seq<char>) -> ErrorData {
    ErrorData { kind: ErrorKind::NotFound, msg }
}

/// An `InvalidInput` with the given message.
pub open spec fn invalid_input(msg: Seq<char>) -> ErrorData {
    ErrorData { kind: ErrorKind::InvalidInput, msg }
}

impl Error {
    /// The kind of this error.
    pub fn kind(&self) -> (k: ErrorKind)
        ensures
            k == self@.kind,
    {
        match self {
            Error::NotFound { .. } => ErrorKind::NotFound,
            Error::InvalidInput { .. } => ErrorKind::InvalidInput,
            Error::AlreadyExists { .. } => ErrorKind::AlreadyExists,
            Error::Unauthorized { .. } => ErrorKind::Unauthorized,
        }
    }

    /// The message of this error.
    pub fn message(&self) -> (m: &str)
        ensures
            m@ == self@.msg,
    {
        match self {
            Error::NotFound { msg } => msg.as_str(),
            Error::InvalidInput { msg } => msg.as_str(),
            Error::AlreadyExists { msg } => msg.as_str(),
            Error::Unauthorized { msg } => msg.as_str(),
        }
    }
}

} // verus!
