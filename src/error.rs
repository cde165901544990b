//! The error reported when a message or a component cannot be recognized.

use vstd::prelude::*;

verus! {

/// What went wrong.
#[derive(Clone, Copy, Debug, PartialEq, Eq, Structural, Hash)]
pub enum ErrorKind {
    /// The header does not start with a commit type.
    MissingType,
    /// A scope was opened with `(` but is empty or not closed on the header line.
    InvalidScope,
    /// The type (and scope, and `!`) is not followed by exactly `": "`.
    MissingSeparator,
    /// Nothing, or whitespace, follows the `": "` of the header.
    MissingDescription,
    /// The header line is followed by more text without a blank line in between.
    InvalidBody,
    /// A footer separator was built from a string other than `": "` or `" #"`.
    InvalidFormat,
}

/// An error, with the byte offset into the input at which it was detected.
#[derive(Clone, Copy, Debug, PartialEq, Eq, Structural, Hash)]
pub struct Error {
    pub kind: ErrorKind,
    pub offset: usize,
}

impl Error {
    /// An error of the given kind, found at byte `offset`.
    pub fn new(kind: ErrorKind, offset: usize) -> (r: Self)
        ensures
            r.kind == kind,
            r.offset == offset,
    {
        Error { kind, offset }
    }

    /// The kind of the error.
    pub fn kind(&self) -> (r: ErrorKind)
        ensures
            r == self.kind,
    {
        self.kind
    }

    /// The byte offset into the input at which the error was detected.
    pub fn offset(&self) -> (r: usize)
        ensures
            r == self.offset,
    {
        self.offset
    }

    /// A sentence describing the error, for reporting to a user.
    pub fn message(&self) -> (r: &'static str)
        ensures
            self.kind == ErrorKind::MissingType ==> r == "missing commit type",
            self.kind == ErrorKind::InvalidScope ==> r == "invalid commit scope",
            self.kind == ErrorKind::MissingSeparator ==> r == "expected \": \" after the commit type",
            self.kind == ErrorKind::MissingDescription ==> r == "missing commit description",
            self.kind == ErrorKind::InvalidBody ==> r == "expected a blank line after the header",
            self.kind == ErrorKind::InvalidFormat ==> r == "invalid format",
    {
        match self.kind {
            ErrorKind::MissingType => "missing commit type",
            ErrorKind::InvalidScope => "invalid commit scope",
            ErrorKind::MissingSeparator => "expected \": \" after the commit type",
            ErrorKind::MissingDescription => "missing commit description",
            ErrorKind::InvalidBody => "expected a blank line after the header",
            ErrorKind::InvalidFormat => "invalid format",
        }
    }
}

} // verus!
