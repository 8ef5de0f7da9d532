//! Signed bearer tokens with coordinated revocation.
//!
//! The crate mints and validates short-lived signed access tokens and
//! longer-lived refresh tokens, and keeps a revocation store that can
//! invalidate a single token, every token of one user, or every token in
//! the system as of a point in time, without re-signing anything already
//! issued.

use vstd::prelude::*;

pub mod api;
pub mod claims;
pub mod clock;
pub mod codec;
pub mod controller;
pub mod errors;
pub mod issuer;
pub mod guard;
pub mod hex;
pub mod store;

verus! {

/// Seconds an access token stays valid after it is minted.
pub const ACCESS_TOKEN_TTL: u64 = 900;

/// Seconds a refresh token stays valid after it is minted.
pub const REFRESH_TOKEN_TTL: u64 = 1209600;

} // verus!
