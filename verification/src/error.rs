//! The error taxonomy shared by every operation of the library.

use vstd::prelude::*;

verus! {

/// Why an operation failed.
///
/// Each variant carries a human-readable message.
#[derive(Debug, Clone, PartialEq, Eq)]
pub enum Error {
    /// A filesystem or socket operation failed.
    Io(String),
    /// A configuration value is invalid or missing (for instance an absent
    /// source directory).
    InvalidConfig(String),
    /// No version could be resolved for a package.
    Version(String),
    /// A target path is occupied and the configured resolution could not
    /// proceed.
    Conflict(String),
    /// A malformed message arrived on the control socket.
    Protocol(String),
    /// Spawning, signalling or killing the daemon process failed.
    Process(String),
}

impl Error {
    /// The message carried by the error, whatever its variant.
    pub fn message(&self) -> (r: &String)
        ensures
            r@ == self.spec_message(),
    {
        match self {
            Error::Io(m) => m,
            Error::InvalidConfig(m) => m,
            Error::Version(m) => m,
            Error::Conflict(m) => m,
            Error::Protocol(m) => m,
            Error::Process(m) => m,
        }
    }

    /// The message carried by the error, for use in contracts.
    pub open spec fn spec_message(&self) -> Seq<char> {
        match self {
            Error::Io(m) => m@,
            Error::InvalidConfig(m) => m@,
            Error::Version(m) => m@,
            Error::Conflict(m) => m@,
            Error::Protocol(m) => m@,
            Error::Process(m) => m@,
        }
    }
}

} // verus!
