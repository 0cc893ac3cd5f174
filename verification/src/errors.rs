//! Errors of the media library and of the packet cache.
use vstd::prelude::*;

verus! {

/// `std::io::Error`, carried through as it came.
#[verifier::external_type_specification]
#[verifier::external_body]
pub struct ExIoError(std::io::Error);

/// An error of the media library: its code and the message that belongs to
/// the code.
pub struct Error {
    message: String,
    code: i32,
}

impl Error {
    /// The error of `code`, described by `message`.
    pub fn with_message(code: i32, message: String) -> (e: Error)
        ensures
            e.code_spec() == code,
            e.message_spec() == message@,
    {
        Error { message, code }
    }

    pub closed spec fn code_spec(&self) -> i32 {
        self.code
    }

    pub closed spec fn message_spec(&self) -> Seq<char> {
        self.message@
    }

    /// The error code.
    pub fn code(&self) -> (c: i32)
        ensures
            c == self.code_spec(),
    {
        self.code
    }

    /// The message of the code.
    pub fn message(&self) -> (m: &String)
        ensures
            m@ == self.message_spec(),
    {
        &self.message
    }
}

/// What can go wrong with the packet cache.
pub enum CacheError {
    /// The source could not be read.
    SourceReadError(Error),
    /// The cache file could not be written.
    WriteError(std::io::Error),
    /// The cache file could not be read.
    ReadError(std::io::Error),
    /// The writer could not find its place in the source again.
    SyncError,
    /// There is nothing (more) to read.
    Eof,
}

} // verus!
