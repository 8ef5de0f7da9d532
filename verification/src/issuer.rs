//! The token issuer: mints a fresh access/refresh pair for an active
//! user. No side effects beyond signing — the issuer never writes to
//! the revocation store.

use vstd::prelude::*;
use crate::claims::AccessClaims;
use crate::claims::RefreshClaims;
use crate::claims::Claims;
use crate::claims::AccessView;
use crate::claims::RefreshView;
use crate::claims::ClaimsView;
use crate::claims::Role;
use crate::codec::mint;
use crate::codec::token_bytes;
use crate::ACCESS_TOKEN_TTL;
use crate::REFRESH_TOKEN_TTL;

verus! {

/// A user record as the directory hands it over: everything the issuer
/// and the controller read of a user.
#[derive(Clone, Debug)]
pub struct User {
    /// The directory's id for this user.
    pub id: u128,
    /// Whether the account is allowed to hold tokens at all.
    pub active: bool,
    /// The roles the directory grants the user right now.
    pub roles: Vec<Role>,
}

/// A freshly minted pair of signed tokens, together with the claims
/// each one encodes.
pub struct TokenPair {
    pub access_token: Vec<u8>,
    pub refresh_token: Vec<u8>,
    pub access_claims: AccessClaims,
    pub refresh_claims: RefreshClaims,
}

/// Relies on uuid's `Uuid::new_v4` for a random 128-bit token id;
/// nothing is assumed of the value.
#[verifier::external_body]
fn fresh_token_id() -> (r: u128) {
    uuid::Uuid::new_v4().as_u128()
}

fn copy_roles(roles: &Vec<Role>) -> (r: Vec<Role>)
    ensures
        r@ == roles@,
{
    let mut out: Vec<Role> = Vec::new();
    let n = roles.len();
    for i in 0..n
        invariant
            n == roles@.len(),
            out@.len() == i,
            forall|j: int| 0 <= j < i ==> out@[j] == roles@[j],
    {
        out.push(roles[i]);
    }
    assert(out@ =~= roles@);
    out
}

/// Mints the pair for `user` at time `now` with the given token ids:
/// subject and roles come from the record, the access token lives
/// `ACCESS_TOKEN_TTL` seconds and the refresh token `REFRESH_TOKEN_TTL`.
pub fn issue_with(user: &User, key: &[u8], now: u64, access_id: u128, refresh_id: u128) -> (p:
    TokenPair)
    requires
        user.active,
        now + REFRESH_TOKEN_TTL <= u64::MAX,
    ensures
        p.access_claims@ == (AccessView {
            sub: user.id,
            roles: user.roles@,
            iat: now,
            exp: (now + ACCESS_TOKEN_TTL) as u64,
            jti: access_id,
        }),
        p.refresh_claims@ == (RefreshView {
            sub: user.id,
            iat: now,
            exp: (now + REFRESH_TOKEN_TTL) as u64,
            jti: refresh_id,
        }),
        p.access_token@ == token_bytes(key@, ClaimsView::Access(p.access_claims@)),
        p.refresh_token@ == token_bytes(key@, ClaimsView::Refresh(p.refresh_claims@)),
{
    let access_exp = now + ACCESS_TOKEN_TTL;
    let refresh_exp = now + REFRESH_TOKEN_TTL;
    let ac = AccessClaims {
        sub: user.id,
        roles: copy_roles(&user.roles),
        iat: now,
        exp: access_exp,
        jti: access_id,
    };
    let ac_wire = Claims::Access(
        AccessClaims {
            sub: user.id,
            roles: copy_roles(&user.roles),
            iat: now,
            exp: access_exp,
            jti: access_id,
        },
    );
    let access_token = mint(key, &ac_wire);
    let rc = RefreshClaims { sub: user.id, iat: now, exp: refresh_exp, jti: refresh_id };
    let rc_wire = Claims::Refresh(
        RefreshClaims { sub: user.id, iat: now, exp: refresh_exp, jti: refresh_id },
    );
    let refresh_token = mint(key, &rc_wire);
    assert(ac_wire@ == ClaimsView::Access(ac@));
    assert(rc_wire@ == ClaimsView::Refresh(rc@));
    TokenPair { access_token, refresh_token, access_claims: ac, refresh_claims: rc }
}

/// Mints the pair for `user` at time `now` with two fresh random token
/// ids. Everything but the two ids is pinned down; the ids are whatever
/// the generator returned, and the tokens encode exactly the claims
/// returned beside them.
pub fn issue(user: &User, key: &[u8], now: u64) -> (p: TokenPair)
    requires
        user.active,
        now + REFRESH_TOKEN_TTL <= u64::MAX,
    ensures
        p.access_claims@.sub == user.id,
        p.access_claims@.roles == user.roles@,
        p.access_claims@.iat == now,
        p.access_claims@.exp == now + ACCESS_TOKEN_TTL,
        p.refresh_claims@.sub == user.id,
        p.refresh_claims@.iat == now,
        p.refresh_claims@.exp == now + REFRESH_TOKEN_TTL,
        p.access_token@ == token_bytes(key@, ClaimsView::Access(p.access_claims@)),
        p.refresh_token@ == token_bytes(key@, ClaimsView::Refresh(p.refresh_claims@)),
{
    let access_id = fresh_token_id();
    let refresh_id = fresh_token_id();
    issue_with(user, key, now, access_id, refresh_id)
}

} // verus!
