//! The error kinds of the library. The surrounding process renders them for
//! the user and maps its transport errors onto them.

use vstd::prelude::*;

verus! {

/// What can go wrong across the fabric.
#[derive(Clone, Copy, PartialEq, Eq, Structural, Debug)]
pub enum OllanaError {
    /// Reading or writing persisted state failed.
    Io,
    /// A transport operation failed.
    Network,
    /// The TLS material could not be assembled.
    TlsConfig,
    /// A wire body or the persisted config did not have the expected shape.
    Parse,
    /// The peer denied the request.
    NotAuthorized,
    /// Something looked up was absent.
    NotFound,
    /// An operation was attempted in a state that does not admit it.
    InvalidState,
}

impl OllanaError {
    /// A terse human-readable description.
    pub fn message(&self) -> (r: &'static str)
        ensures
            r@ == match *self {
                OllanaError::Io => "IO error"@,
                OllanaError::Network => "network error"@,
                OllanaError::TlsConfig => "TLS configuration error"@,
                OllanaError::Parse => "parse error"@,
                OllanaError::NotAuthorized => "device is not authorized"@,
                OllanaError::NotFound => "not found"@,
                OllanaError::InvalidState => "invalid state"@,
            },
    {
        match self {
            OllanaError::Io => "IO error",
            OllanaError::Network => "network error",
            OllanaError::TlsConfig => "TLS configuration error",
            OllanaError::Parse => "parse error",
            OllanaError::NotAuthorized => "device is not authorized",
            OllanaError::NotFound => "not found",
            OllanaError::InvalidState => "invalid state",
        }
    }
}

} // verus!
