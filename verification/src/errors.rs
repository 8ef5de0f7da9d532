//! The error taxonomy shared by the codec, the controller and the guard.

use vstd::prelude::*;

verus! {

/// Why a token or a request was rejected.
///
/// `Malformed`, `BadSignature` and `Expired` come from the codec alone;
/// `Revoked` collapses the three revocation checks (token denylist, user
/// cutoff, global cutoff) into one kind, so a caller cannot probe which
/// revocation fact exists. `StoreUnavailable` is reserved for a backing
/// store that cannot be reached; the in-process store never raises it.
#[derive(Clone, Copy, Debug, PartialEq, Eq, Structural)]
pub enum AuthError {
    /// The token cannot be parsed.
    Malformed,
    /// The token parses but its signature does not match.
    BadSignature,
    /// The token is past its expiry timestamp.
    Expired,
    /// A revocation fact covers the token.
    Revoked,
    /// Username, password or user lookup failed at login.
    WrongCredentials,
    /// The token's subject no longer exists in the user directory.
    InvalidToken,
    /// The token's subject exists but is deactivated.
    InactiveUser,
    /// The caller is authenticated but lacks the required role or ownership.
    Forbidden,
    /// The revocation store could not be reached; callers fail closed.
    StoreUnavailable,
}

} // verus!
