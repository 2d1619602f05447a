//! The closed set of failures that classification and reading can signal.

use vstd::prelude::*;

verus! {

/// Why a line could not be turned into a command, or could not be read.
#[derive(Clone, Copy, Debug, PartialEq, Eq, Structural)]
pub enum ErrorKind {
    /// The tokens do not form a well-formed built-in invocation.
    InvalidBuiltIn,
    /// There is no token to take as the program name.
    InvalidExternal,
    /// Neither classifier accepted the line.
    InvalidCommand,
    /// The bytes that were read are not valid text.
    DecodingFailure,
}

/// The line that tells the operator of a failure. Every failure to classify
/// reads the same; a failure to decode has a line of its own.
pub open spec fn error_report(kind: ErrorKind) -> Seq<char> {
    match kind {
        ErrorKind::DecodingFailure => "read bytes are not valid UTF-8."@,
        _ => "invalid command."@,
    }
}

impl ErrorKind {
    /// The line that tells the operator of this failure.
    pub fn report(&self) -> (report: String)
        ensures
            report@ == error_report(*self),
    {
        match self {
            ErrorKind::DecodingFailure => "read bytes are not valid UTF-8.".to_owned(),
            _ => "invalid command.".to_owned(),
        }
    }
}

} // verus!
