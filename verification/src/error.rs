//! The library's error type.

use vstd::prelude::*;

verus! {

/// Why an operation of the library failed. Each variant carries the
/// user-facing message.
#[derive(Debug, Clone, PartialEq, Eq)]
pub enum Error {
    /// The caller's input was rejected.
    Input(String),
    /// A git command or git data could not be used.
    Git(String),
    /// An operation on the grammar cache or another resource failed.
    Operation(String),
    /// A tree-sitter query or parse failed.
    TreeSitter(String),
    /// A database lookup failed.
    Database(String),
    /// A bookmark or its resolution history could not be resolved.
    Resolution(String),
}

impl Error {
    /// The variant's message.
    pub fn message(&self) -> (m: &String)
        ensures
            m@ == self.message_spec(),
    {
        match self {
            Error::Input(m) => m,
            Error::Git(m) => m,
            Error::Operation(m) => m,
            Error::TreeSitter(m) => m,
            Error::Database(m) => m,
            Error::Resolution(m) => m,
        }
    }

    /// The variant's message, as characters.
    pub open spec fn message_spec(&self) -> Seq<char> {
        match self {
            Error::Input(m) => m@,
            Error::Git(m) => m@,
            Error::Operation(m) => m@,
            Error::TreeSitter(m) => m@,
            Error::Database(m) => m@,
            Error::Resolution(m) => m@,
        }
    }
}

/// Result type of the library.
pub type Result<T> = core::result::Result<T, Error>;

} // verus!
