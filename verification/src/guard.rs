//! The auth guard: the per-request filter that turns a raw bearer token
//! into verified claims, or rejects it.
//!
//! `authenticate` runs the codec's checks first, then the three
//! revocation checks — token denylist, user cutoff, global cutoff, in
//! that order. The error names the first check that failed; a boundary
//! that must not leak revocation state collapses them all to one
//! unauthorized signal (see the error envelope).

use vstd::prelude::*;
use crate::claims::AccessClaims;
use crate::claims::RefreshClaims;
use crate::claims::Claims;
use crate::claims::ClaimsView;
use crate::claims::Role;
use crate::claims::spec_parse;
use crate::codec::token_bytes;
use crate::codec::verify;
use crate::errors::AuthError;
use crate::store::RevocationStore;
use crate::store::check_revocation;
use crate::store::revocation_clear;

verus! {

impl AccessClaims {
    /// Whether the claims carry `role`.
    pub fn has_role(&self, role: Role) -> (r: bool)
        ensures
            r == self@.roles.contains(role),
    {
        let n = self.roles.len();
        let mut i: usize = 0;
        while i < n
            invariant
                i <= n == self.roles@.len(),
                forall|j: int| 0 <= j < i ==> self.roles@[j] != role,
            decreases n - i,
        {
            if self.roles[i] == role {
                proof {
                    assert(self.roles@[i as int] == role);
                }
                return true;
            }
            i = i + 1;
        }
        false
    }

    /// Passes only a holder of the administrative role; anyone else is
    /// `Forbidden`.
    pub fn validate_role_admin(&self) -> (r: Result<(), AuthError>)
        ensures
            match r {
                Ok(_) => self@.roles.contains(Role::Admin),
                Err(e) => !self@.roles.contains(Role::Admin) && e == AuthError::Forbidden,
            },
    {
        if self.has_role(Role::Admin) {
            Ok(())
        } else {
            Err(AuthError::Forbidden)
        }
    }
}

/// Verifies a refresh token's shape, signature and expiry. An access
/// token presented here is rejected as `InvalidToken`.
pub fn verify_refresh(key: &[u8], token: &[u8], now: u64) -> (r: Result<RefreshClaims, AuthError>)
    ensures
        match r {
            Ok(c) => spec_parse(token@) == Some(ClaimsView::Refresh(c@)) && token@ == token_bytes(
                key@,
                ClaimsView::Refresh(c@),
            ) && now < c@.exp,
            Err(AuthError::Malformed) => spec_parse(token@) is None,
            Err(AuthError::BadSignature) => spec_parse(token@) is Some && token@ != token_bytes(
                key@,
                spec_parse(token@).unwrap(),
            ),
            Err(AuthError::Expired) => spec_parse(token@) is Some && token@ == token_bytes(
                key@,
                spec_parse(token@).unwrap(),
            ) && now >= spec_parse(token@).unwrap().expires_at(),
            Err(AuthError::InvalidToken) => spec_parse(token@) is Some && spec_parse(
                token@,
            ).unwrap() is Access && token@ == token_bytes(key@, spec_parse(token@).unwrap())
                && now < spec_parse(token@).unwrap().expires_at(),
            Err(_) => false,
        },
{
    match verify(key, token, now) {
        Err(e) => Err(e),
        Ok(c) => match c {
            Claims::Refresh(rc) => Ok(rc),
            Claims::Access(_) => Err(AuthError::InvalidToken),
        },
    }
}

/// Authenticates a request's access token: codec checks, then the
/// denylist, the user cutoff and the global cutoff, short-circuiting on
/// the first failure. Accepts exactly the unexpired access tokens under
/// this key whose claims no revocation fact covers.
pub fn authenticate(key: &[u8], token: &[u8], store: &RevocationStore, now: u64) -> (r: Result<
    AccessClaims,
    AuthError,
>)
    requires
        store.wf(),
    ensures
        match r {
            Ok(c) => spec_parse(token@) == Some(ClaimsView::Access(c@)) && token@ == token_bytes(
                key@,
                ClaimsView::Access(c@),
            ) && now < c@.exp && revocation_clear(*store, c@.sub, c@.jti, c@.iat, now),
            Err(AuthError::Malformed) => spec_parse(token@) is None,
            Err(AuthError::BadSignature) => spec_parse(token@) is Some && token@ != token_bytes(
                key@,
                spec_parse(token@).unwrap(),
            ),
            Err(AuthError::Expired) => spec_parse(token@) is Some && token@ == token_bytes(
                key@,
                spec_parse(token@).unwrap(),
            ) && now >= spec_parse(token@).unwrap().expires_at(),
            Err(AuthError::InvalidToken) => spec_parse(token@) is Some && spec_parse(
                token@,
            ).unwrap() is Refresh && token@ == token_bytes(key@, spec_parse(token@).unwrap())
                && now < spec_parse(token@).unwrap().expires_at(),
            Err(AuthError::Revoked) => spec_parse(token@) is Some && spec_parse(
                token@,
            ).unwrap() is Access && token@ == token_bytes(key@, spec_parse(token@).unwrap())
                && now < spec_parse(token@).unwrap().expires_at() && !revocation_clear(
                *store,
                spec_parse(token@).unwrap().subject(),
                spec_parse(token@).unwrap().token_id(),
                spec_parse(token@).unwrap().issued_at(),
                now,
            ),
            Err(_) => false,
        },
{
    match verify(key, token, now) {
        Err(e) => Err(e),
        Ok(c) => match c {
            Claims::Access(ac) => {
                if check_revocation(store, ac.sub, ac.jti, ac.iat, now) {
                    Ok(ac)
                } else {
                    Err(AuthError::Revoked)
                }
            },
            Claims::Refresh(_) => Err(AuthError::InvalidToken),
        },
    }
}

/// Like `authenticate`, and additionally requires the claims to carry
/// `required`; a valid holder without it is `Forbidden`.
pub fn authenticate_with_role(
    key: &[u8],
    token: &[u8],
    store: &RevocationStore,
    now: u64,
    required: Role,
) -> (r: Result<AccessClaims, AuthError>)
    requires
        store.wf(),
    ensures
        match r {
            Ok(c) => spec_parse(token@) == Some(ClaimsView::Access(c@)) && token@ == token_bytes(
                key@,
                ClaimsView::Access(c@),
            ) && now < c@.exp && revocation_clear(*store, c@.sub, c@.jti, c@.iat, now)
                && c@.roles.contains(required),
            Err(AuthError::Forbidden) => spec_parse(token@) is Some && spec_parse(
                token@,
            ).unwrap() is Access && token@ == token_bytes(key@, spec_parse(token@).unwrap())
                && now < spec_parse(token@).unwrap().expires_at() && revocation_clear(
                *store,
                spec_parse(token@).unwrap().subject(),
                spec_parse(token@).unwrap().token_id(),
                spec_parse(token@).unwrap().issued_at(),
                now,
            ) && !spec_parse(token@).unwrap().role_seq().contains(required),
            Err(AuthError::Malformed) => spec_parse(token@) is None,
            Err(AuthError::BadSignature) => spec_parse(token@) is Some && token@ != token_bytes(
                key@,
                spec_parse(token@).unwrap(),
            ),
            Err(AuthError::Expired) => spec_parse(token@) is Some && token@ == token_bytes(
                key@,
                spec_parse(token@).unwrap(),
            ) && now >= spec_parse(token@).unwrap().expires_at(),
            Err(AuthError::InvalidToken) => spec_parse(token@) is Some && spec_parse(
                token@,
            ).unwrap() is Refresh && token@ == token_bytes(key@, spec_parse(token@).unwrap())
                && now < spec_parse(token@).unwrap().expires_at(),
            Err(AuthError::Revoked) => spec_parse(token@) is Some && spec_parse(
                token@,
            ).unwrap() is Access && token@ == token_bytes(key@, spec_parse(token@).unwrap())
                && now < spec_parse(token@).unwrap().expires_at() && !revocation_clear(
                *store,
                spec_parse(token@).unwrap().subject(),
                spec_parse(token@).unwrap().token_id(),
                spec_parse(token@).unwrap().issued_at(),
                now,
            ),
            Err(_) => false,
        },
{
    match authenticate(key, token, store, now) {
        Err(e) => Err(e),
        Ok(c) => {
            if c.has_role(required) {
                Ok(c)
            } else {
                Err(AuthError::Forbidden)
            }
        },
    }
}

} // verus!
