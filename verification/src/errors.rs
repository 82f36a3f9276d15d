//! The error taxonomy of the authentication core.

use vstd::prelude::*;

verus! {

/// Why a request or a lifecycle operation was rejected.
///
/// `MissingHeader` and `InvalidFormat` are malformed-request errors,
/// `InvalidKey` is an unknown token, `InsufficientPermissions` is an
/// authenticated but non-admin caller on an admin-gated operation,
/// `DuplicateKey` is an attempt to store a second record under an existing
/// hash, and `Bootstrap` is a failed startup admin creation.
#[derive(Clone, Copy, Debug, PartialEq, Eq, Structural)]
pub enum AuthError {
    MissingHeader,
    InvalidFormat,
    InvalidKey,
    InsufficientPermissions,
    DuplicateKey,
    Bootstrap,
}

impl AuthError {
    /// A short diagnostic description of the error.
    pub fn message(&self) -> (r: &'static str)
        ensures
            r@ == self.spec_message(),
    {
        match self {
            AuthError::MissingHeader => "missing Authorization header",
            AuthError::InvalidFormat => "invalid Authorization header format",
            AuthError::InvalidKey => "invalid API key",
            AuthError::InsufficientPermissions => "insufficient permissions",
            AuthError::DuplicateKey => "an API key with this hash already exists",
            AuthError::Bootstrap => "failed to bootstrap the admin key",
        }
    }

    /// The description `message` returns for each variant.
    pub open spec fn spec_message(self) -> Seq<char> {
        match self {
            AuthError::MissingHeader => "missing Authorization header"@,
            AuthError::InvalidFormat => "invalid Authorization header format"@,
            AuthError::InvalidKey => "invalid API key"@,
            AuthError::InsufficientPermissions => "insufficient permissions"@,
            AuthError::DuplicateKey => "an API key with this hash already exists"@,
            AuthError::Bootstrap => "failed to bootstrap the admin key"@,
        }
    }
}

} // verus!
