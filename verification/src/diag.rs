//! The single error type shared by the parser, the scope stack and the
//! virtual machine: one terminal error kind with a descriptive message.

use vstd::prelude::*;

verus! {

/// An error raised anywhere in the engine: a syntax error, an unknown
/// variable, an invalid operation, or an error reported by the element
/// consumer. All of them carry only a human-readable message.
#[derive(Debug)]
pub enum SpreadSheetError {
    Message(String),
}

/// A result type with a string error message.
pub type SpreadSheetResult<T> = Result<T, SpreadSheetError>;

impl SpreadSheetError {
    /// The message carried by this error.
    pub open spec fn msg(&self) -> Seq<char> {
        match self {
            SpreadSheetError::Message(m) => m@,
        }
    }

    /// Creates a new error with the given message.
    pub fn new(message: String) -> (r: Self)
        ensures
            r.msg() == message@,
    {
        Self::Message(message)
    }

    /// Read access to the message, for callers that report the error.
    pub fn message(&self) -> (r: &str)
        ensures
            r@ == self.msg(),
    {
        match self {
            SpreadSheetError::Message(m) => m.as_str(),
        }
    }
}

} // verus!
