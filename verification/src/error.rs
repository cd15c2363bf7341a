//! Error kinds surfaced by every operation of the library.

use vstd::prelude::*;

verus! {

/// The failure classes a run can end with.
///
/// Each variant carries a human-readable message. The surrounding
/// application turns transport, filesystem and parser failures into the
/// matching variant before handing control to the library, so the core
/// logic only ever deals in these five kinds.
#[derive(Debug)]
pub enum Error {
    /// Network or HTTP failure, including non-2xx registry responses.
    Http(String),
    /// Filesystem read, write or create failure.
    Io(String),
    /// Malformed configuration, lockfile or context file.
    Parse(String),
    /// Missing or ambiguous context, URL or other required setup.
    Setup(String),
    /// Login or credential failure.
    Auth(String),
}

impl Error {
    /// Builds a setup error from a message.
    pub fn setup(msg: &str) -> (r: Error)
        ensures
            r matches Error::Setup(m) && m@ == msg@,
    {
        Error::Setup(msg.to_owned())
    }

    /// The human-readable message carried by this error.
    pub fn message(&self) -> (r: &String)
        ensures
            r@ == self.message_view(),
    {
        match self {
            Error::Http(m) => m,
            Error::Io(m) => m,
            Error::Parse(m) => m,
            Error::Setup(m) => m,
            Error::Auth(m) => m,
        }
    }

    /// The message of an error, at the specification level.
    pub open spec fn message_view(&self) -> Seq<char> {
        match self {
            Error::Http(m) => m@,
            Error::Io(m) => m@,
            Error::Parse(m) => m@,
            Error::Setup(m) => m@,
            Error::Auth(m) => m@,
        }
    }
}

} // verus!
