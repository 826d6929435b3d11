//! The error taxonomy: internal error kinds, the wire-level errors, and the
//! single mapping between them that the service boundary applies.

use vstd::prelude::*;

verus! {

/// The kind of an internal error, attached where a store or hashing failure
/// is detected.
#[derive(Copy, Clone, Eq, PartialEq, Structural, Debug)]
pub enum ErrorKind {
    /// Unable to connect to the user store.
    ConnectionError,
    /// A query against the user store failed to be executed.
    QueryError,
    /// The server itself failed (e.g. an inconsistent store).
    ServerError,
    /// No user with the given username exists.
    InvalidUsername,
    /// The password does not match the stored hash.
    InvalidPassword,
    /// No session with the given token exists.
    InvalidToken,
}

/// The wire-level error taxonomy. Every internal failure kind is mapped to
/// exactly one of these before leaving the service facade; no internal detail
/// crosses the boundary.
#[derive(Copy, Clone, Eq, PartialEq, Structural, Debug)]
pub enum AuthError {
    /// No user with the given username exists.
    InvalidUsername,
    /// The password does not match.
    InvalidPassword,
    /// No session with the given token exists.
    InvalidToken,
    /// A user with the given username already exists.
    ExistingUser,
    /// A store or hashing failure, surfaced without internal detail.
    InternalServerError,
}

impl ErrorKind {
    /// The wire-level error that this internal kind is reported as.
    pub open spec fn spec_to_auth_error(self) -> AuthError {
        match self {
            ErrorKind::ConnectionError => AuthError::InternalServerError,
            ErrorKind::QueryError => AuthError::InternalServerError,
            ErrorKind::ServerError => AuthError::InternalServerError,
            ErrorKind::InvalidUsername => AuthError::InvalidUsername,
            ErrorKind::InvalidPassword => AuthError::InvalidPassword,
            ErrorKind::InvalidToken => AuthError::InvalidToken,
        }
    }

    /// Map this internal error kind to its wire-level error.
    pub fn to_auth_error(self) -> (r: AuthError)
        ensures
            r == self.spec_to_auth_error(),
    {
        match self {
            ErrorKind::ConnectionError => AuthError::InternalServerError,
            ErrorKind::QueryError => AuthError::InternalServerError,
            ErrorKind::ServerError => AuthError::InternalServerError,
            ErrorKind::InvalidUsername => AuthError::InvalidUsername,
            ErrorKind::InvalidPassword => AuthError::InvalidPassword,
            ErrorKind::InvalidToken => AuthError::InvalidToken,
        }
    }
}

} // verus!
