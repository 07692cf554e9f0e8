use vstd::prelude::*;

verus! {

/// The ways in which an operation on a stream can fail.
#[derive(Debug, Clone, Copy, PartialEq, Eq, Structural)]
pub enum Error {
    /// A byte slice too short for the integer that was to be decoded from it.
    InvalidInputArray,
    /// Fewer bytes were available than an exact read or write asked for.
    EndOfStream,
    /// The operation has no meaning for this kind of stream.
    NotSupported,
    /// The underlying file reported a failure.
    File,
}

/// The human-readable text of each error.
pub open spec fn message_of(e: Error) -> &'static str {
    match e {
        Error::InvalidInputArray => "conversion from array to slice fails",
        Error::EndOfStream => "end of stream",
        Error::NotSupported => "operation not supported",
        Error::File => "file operation failed",
    }
}

impl Error {
    /// A short description of the error.
    pub fn message(&self) -> (r: &'static str)
        ensures
            r == message_of(*self),
    {
        match self {
            Error::InvalidInputArray => "conversion from array to slice fails",
            Error::EndOfStream => "end of stream",
            Error::NotSupported => "operation not supported",
            Error::File => "file operation failed",
        }
    }
}

} // verus!
