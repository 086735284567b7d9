//! The error taxonomy of the core: every failure is surfaced to the caller as
//! a descriptive value; nothing is silently swallowed.

use vstd::prelude::*;

verus! {

/// One error kind per failure family of the core.
#[derive(Debug)]
pub enum UtilsError {
    /// A script argument had the wrong type or shape.
    ValueShape(String),
    /// An absolute override was malformed.
    PathResolution(String),
    /// An underlying read/write/create-directory failure.
    Io(String),
    /// An invalid pattern or a filesystem walk failure.
    Glob(String),
    /// A JSON parse/serialize or template render failure.
    Codec(String),
}

impl UtilsError {
    /// The human-readable text carried by the error, whatever its kind.
    pub open spec fn spec_message(&self) -> Seq<char> {
        match self {
            UtilsError::ValueShape(m) => m@,
            UtilsError::PathResolution(m) => m@,
            UtilsError::Io(m) => m@,
            UtilsError::Glob(m) => m@,
            UtilsError::Codec(m) => m@,
        }
    }

    /// Returns the message text of the error.
    pub fn message(&self) -> (r: &String)
        ensures
            r@ == self.spec_message(),
    {
        match self {
            UtilsError::ValueShape(m) => m,
            UtilsError::PathResolution(m) => m,
            UtilsError::Io(m) => m,
            UtilsError::Glob(m) => m,
            UtilsError::Codec(m) => m,
        }
    }
}

} // verus!
