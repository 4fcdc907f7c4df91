use vstd::prelude::*;
use crate::users::StorageError;

verus! {

/// Failures of the server-side core.
#[derive(Clone, Copy, Debug, PartialEq, Eq, Structural)]
pub enum Error {
    /// Missing, unknown or disabled bearer token; the three are never told apart.
    Unauthenticated,
    /// The CSRF state of a callback is unknown or was already used.
    InvalidState,
    /// The identity provider gave no usable email.
    NoPrimaryEmail,
    /// The identity provider could not be reached, or timed out.
    UpstreamUnavailable,
    /// The identity provider answered with an unexpected shape.
    UpstreamProtocolError,
    /// A row could not be persisted.
    Storage(StorageError),
}

/// HTTP status for each failure.
pub open spec fn status_of(e: Error) -> u16 {
    match e {
        Error::Unauthenticated => 401,
        Error::InvalidState => 400,
        Error::NoPrimaryEmail => 500,
        Error::UpstreamUnavailable => 502,
        Error::UpstreamProtocolError => 500,
        Error::Storage(_) => 500,
    }
}

impl Error {
    /// The HTTP status the server answers with; details stay in the log.
    pub fn status_code(&self) -> (s: u16)
        ensures
            s == status_of(*self),
    {
        match self {
            Error::Unauthenticated => 401,
            Error::InvalidState => 400,
            Error::NoPrimaryEmail => 500,
            Error::UpstreamUnavailable => 502,
            Error::UpstreamProtocolError => 500,
            Error::Storage(_) => 500,
        }
    }
}

} // verus!
