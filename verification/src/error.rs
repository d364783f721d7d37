//! The kinds of failure that the library reports.

use vstd::prelude::*;

verus! {

/// What went wrong, as far as a caller needs to tell failures apart.
#[derive(Clone, Copy, Debug, PartialEq, Eq, Structural)]
pub enum LinkError {
    /// No entry is stored under the key.
    NotFound,
    /// The store failed to read, write or flush.
    StorageIO,
    /// A record could not be written as bytes or read back from them.
    Corrupt,
    /// A certificate or key file could not be read or written.
    IdentityIO,
    /// No self-signed certificate could be made.
    IdentityGeneration,
}

impl LinkError {
    /// The HTTP status that answers a request which failed in this way: 404
    /// where the link is not there, 500 for everything else.
    pub fn status(self) -> (code: u16)
        ensures
            code == if self == LinkError::NotFound {
                404u16
            } else {
                500u16
            },
    {
        match self {
            LinkError::NotFound => 404,
            _ => 500,
        }
    }

    /// What a caller is told of the failure. Only a missing link is named;
    /// of every other failure the caller learns that there was one, and
    /// nothing of paths, URLs or the store.
    pub fn message(self) -> (text: &'static str)
        ensures
            text@ == if self == LinkError::NotFound {
                "Shortened URL not found"@
            } else {
                "Internal server error"@
            },
    {
        match self {
            LinkError::NotFound => "Shortened URL not found",
            _ => "Internal server error",
        }
    }
}

} // verus!
