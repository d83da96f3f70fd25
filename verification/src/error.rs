//! Error taxonomy shared by every component of the library.

use vstd::prelude::*;

verus! {

/// The category of a failure.
#[derive(Debug, PartialEq, Eq, Structural, Clone, Copy)]
pub enum ErrorKind {
    /// A content bundle is missing required files or is malformed.
    InvalidBundle,
    /// A value has an invalid format, an unknown enum tag, a missing
    /// required argument, or a pattern mismatch.
    InvalidArgument,
    /// A referenced rule, file or other resource does not exist.
    NotExist,
    /// An external file is unreadable or its data cannot be interpreted.
    InvalidFileOrData,
    /// Any other kind of failure.
    Other,
}

/// A failure, carrying its category and a human-readable message.
#[derive(Debug)]
pub struct Error {
    pub kind: ErrorKind,
    pub message: String,
}

impl Error {
    /// Build an error of the given category.
    pub fn new(kind: ErrorKind, message: &str) -> (r: Self)
        ensures
            r.kind == kind,
            r.message@ == message@,
    {
        Self { kind, message: message.to_owned() }
    }

    /// The category of this error.
    pub fn kind(&self) -> (r: ErrorKind)
        ensures
            r == self.kind,
    {
        self.kind
    }

    /// A printable description: the category's prefix followed by the message.
    pub fn describe(&self) -> (r: String)
        ensures
            r@ == self.spec_describe(),
    {
        let mut s = match self.kind {
            ErrorKind::InvalidBundle => String::from_str("Bundle is invalid: "),
            ErrorKind::InvalidArgument => String::from_str("Invalid argument: "),
            ErrorKind::NotExist => String::from_str("No such resouce: "),
            ErrorKind::InvalidFileOrData => String::from_str("Invalid file or data: "),
            ErrorKind::Other => String::from_str("Other: "),
        };
        s.append(self.message.as_str());
        s
    }

    /// What `describe` returns.
    pub open spec fn spec_describe(&self) -> Seq<char> {
        match self.kind {
            ErrorKind::InvalidBundle => "Bundle is invalid: "@ + self.message@,
            ErrorKind::InvalidArgument => "Invalid argument: "@ + self.message@,
            ErrorKind::NotExist => "No such resouce: "@ + self.message@,
            ErrorKind::InvalidFileOrData => "Invalid file or data: "@ + self.message@,
            ErrorKind::Other => "Other: "@ + self.message@,
        }
    }
}

} // verus!
