//! The errors of reading an ELF image.
use vstd::prelude::*;

verus! {

/// The class of a failure.
#[derive(Clone, Copy, Debug, PartialEq, Eq, Structural)]
pub enum ErrorKind {
    /// A section or symbol that was looked up does not exist.
    NotFound,
    /// An index or offset handed in is out of range.
    InvalidInput,
    /// The image violates the ELF64 format.
    InvalidData,
    /// A read reached past the end of the image.
    UnexpectedEof,
}

/// A failure with its class and a short message.
#[derive(Clone, Copy, Debug)]
pub struct Error {
    /// The class of the failure.
    pub kind: ErrorKind,
    /// What went wrong, in a few words.
    pub msg: &'static str,
}

impl Error {
    /// A new error of the given kind.
    pub fn new(kind: ErrorKind, msg: &'static str) -> (r: Error)
        ensures
            r.kind == kind,
            r.msg == msg,
    {
        Error { kind, msg }
    }

    /// The class of this failure.
    pub fn kind(&self) -> (r: ErrorKind)
        ensures
            r == self.kind,
    {
        self.kind
    }
}

} // verus!
