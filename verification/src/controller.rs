//! The revocation controller: login, logout, refresh-rotation, global
//! and per-user revocation, and store compaction. All revocation policy
//! — what gets denylisted, with what lapse time, under what
//! authorization — lives here and nowhere else.

use vstd::prelude::*;
use crate::claims::AccessClaims;
use crate::claims::RefreshClaims;
use crate::claims::RefreshView;
use crate::claims::ClaimsView;
use crate::claims::Role;
use crate::codec::token_bytes;
use crate::errors::AuthError;
use crate::issuer::User;
use crate::issuer::TokenPair;
use crate::issuer::issue;
use crate::store::RevocationStore;
use crate::store::check_revocation;
use crate::store::revocation_clear;
use crate::store::denylist_mark_effect;
use crate::store::user_cutoff_raise_effect;
use crate::store::global_raise_effect;
use crate::store::cleanup_effect;
use crate::ACCESS_TOKEN_TTL;
use crate::REFRESH_TOKEN_TTL;

verus! {

/// Logs a user in: succeeds exactly when the directory found the user,
/// the account is active and the password check passed, and then mints
/// a pair whose subject and roles are the record's. Every failure is
/// the same `WrongCredentials`, whatever its root cause.
pub fn login(key: &[u8], user: Option<&User>, password_ok: bool, now: u64) -> (r: Result<
    TokenPair,
    AuthError,
>)
    requires
        now + REFRESH_TOKEN_TTL <= u64::MAX,
    ensures
        match r {
            Ok(p) => {
                &&& user is Some
                &&& user.unwrap().active
                &&& password_ok
                &&& p.access_claims@.sub == user.unwrap().id
                &&& p.access_claims@.roles == user.unwrap().roles@
                &&& p.access_claims@.iat == now
                &&& p.access_claims@.exp == now + ACCESS_TOKEN_TTL
                &&& p.refresh_claims@.sub == user.unwrap().id
                &&& p.refresh_claims@.iat == now
                &&& p.refresh_claims@.exp == now + REFRESH_TOKEN_TTL
                &&& p.access_token@ == token_bytes(key@, ClaimsView::Access(p.access_claims@))
                &&& p.refresh_token@ == token_bytes(key@, ClaimsView::Refresh(p.refresh_claims@))
            },
            Err(e) => e == AuthError::WrongCredentials && !(user is Some && user.unwrap().active
                && password_ok),
        },
{
    match user {
        Some(u) => {
            if u.active && password_ok {
                Ok(issue(u, key, now))
            } else {
                Err(AuthError::WrongCredentials)
            }
        },
        None => Err(AuthError::WrongCredentials),
    }
}

/// Logs the holder of `claims` out: denylists the refresh token id for
/// the rest of the token's own lifetime. The paired access token is
/// not tracked; it expires on its own within `ACCESS_TOKEN_TTL`.
/// Calling this again with the same claims succeeds again and performs
/// no further store mutation.
pub fn logout(claims: &RefreshClaims, store: &mut RevocationStore) -> (r: Result<(), AuthError>)
    requires
        old(store).wf(),
    ensures
        r is Ok,
        denylist_mark_effect(*old(store), *final(store), claims@.jti, claims@.exp),
{
    store.mark_token_revoked(claims.jti, claims.exp);
    Ok(())
}

/// Logging out twice with the same refresh claims gives success both
/// times and the second call leaves the store exactly as the first call
/// left it: the denylist entry it would write is already there.
pub proof fn lemma_logout_idempotent(
    s0: RevocationStore,
    s1: RevocationStore,
    s2: RevocationStore,
    c: RefreshView,
)
    requires
        denylist_mark_effect(s0, s1, c.jti, c.exp),
        denylist_mark_effect(s1, s2, c.jti, c.exp),
    ensures
        s2 == s1,
{
}

/// Rotates a refresh token: re-checks the three revocation facts, then
/// re-reads the user record for the claims' subject (handed in by the
/// caller), denylists the presented token id at once, and mints a fresh
/// pair. Each refresh token is thereby usable exactly once.
pub fn refresh(
    key: &[u8],
    claims: &RefreshClaims,
    user: Option<&User>,
    store: &mut RevocationStore,
    now: u64,
) -> (r: Result<TokenPair, AuthError>)
    requires
        old(store).wf(),
        now + REFRESH_TOKEN_TTL <= u64::MAX,
        match user {
            Some(u) => u.id == claims.sub,
            None => true,
        },
    ensures
        final(store).wf(),
        match r {
            Ok(p) => {
                &&& revocation_clear(*old(store), claims@.sub, claims@.jti, claims@.iat, now)
                &&& user is Some
                &&& user.unwrap().active
                &&& denylist_mark_effect(*old(store), *final(store), claims@.jti, claims@.exp)
                &&& p.access_claims@.sub == claims@.sub
                &&& p.access_claims@.roles == user.unwrap().roles@
                &&& p.access_claims@.iat == now
                &&& p.access_claims@.exp == now + ACCESS_TOKEN_TTL
                &&& p.refresh_claims@.sub == claims@.sub
                &&& p.refresh_claims@.iat == now
                &&& p.refresh_claims@.exp == now + REFRESH_TOKEN_TTL
                &&& p.access_token@ == token_bytes(key@, ClaimsView::Access(p.access_claims@))
                &&& p.refresh_token@ == token_bytes(key@, ClaimsView::Refresh(p.refresh_claims@))
            },
            Err(AuthError::Revoked) => !revocation_clear(
                *old(store),
                claims@.sub,
                claims@.jti,
                claims@.iat,
                now,
            ) && *final(store) == *old(store),
            Err(AuthError::InvalidToken) => revocation_clear(
                *old(store),
                claims@.sub,
                claims@.jti,
                claims@.iat,
                now,
            ) && user is None && *final(store) == *old(store),
            Err(AuthError::InactiveUser) => revocation_clear(
                *old(store),
                claims@.sub,
                claims@.jti,
                claims@.iat,
                now,
            ) && user is Some && !user.unwrap().active && *final(store) == *old(store),
            Err(_) => false,
        },
{
    if !check_revocation(store, claims.sub, claims.jti, claims.iat, now) {
        return Err(AuthError::Revoked);
    }
    let u = match user {
        Some(u) => u,
        None => {
            return Err(AuthError::InvalidToken);
        },
    };
    if !u.active {
        return Err(AuthError::InactiveUser);
    }
    store.mark_token_revoked(claims.jti, claims.exp);
    Ok(issue(u, key, now))
}

/// After a successful refresh (or a logout) wrote its denylist entry,
/// the old refresh token id stays denylisted for its whole remaining
/// lifetime: every revocation check before the token's expiry finds it
/// revoked, so both the guard and a second refresh reject that token.
pub proof fn lemma_refresh_rotation(
    pre: RevocationStore,
    post: RevocationStore,
    c: RefreshView,
    t: u64,
)
    requires
        denylist_mark_effect(pre, post, c.jti, c.exp),
        t < c.exp,
    ensures
        post.denylisted(c.jti, t),
        !revocation_clear(post, c.sub, c.jti, c.iat, t),
{
    assert(post.denylisted(c.jti, t) == (pre.denylisted(c.jti, t) || (c.jti == c.jti && t
        < c.exp)));
}

/// Revokes every token in the system issued at or before `now`:
/// raises the global cutoff. Admin only.
pub fn revoke_global(caller: &AccessClaims, store: &mut RevocationStore, now: u64) -> (r: Result<
    (),
    AuthError,
>)
    requires
        old(store).wf(),
        now + REFRESH_TOKEN_TTL <= u64::MAX,
    ensures
        final(store).wf(),
        match r {
            Ok(_) => caller@.roles.contains(Role::Admin) && global_raise_effect(
                *old(store),
                *final(store),
                now,
                (now + REFRESH_TOKEN_TTL) as u64,
            ),
            Err(e) => e == AuthError::Forbidden && !caller@.roles.contains(Role::Admin) && *final(store) == *old(store),
        },
{
    if let Err(e) = caller.validate_role_admin() {
        return Err(e);
    }
    store.set_global_cutoff(now, now + REFRESH_TOKEN_TTL);
    Ok(())
}

/// Raising the global cutoff to `t` (where none was set before) makes
/// every revocation check fail, for any user, for any token issued at
/// or before `t`, as long as the cutoff record lives — while a token
/// issued after `t` still passes if its own id is not denylisted and no
/// live user cutoff covers it.
pub proof fn lemma_revoke_global_coverage(
    pre: RevocationStore,
    post: RevocationStore,
    t: u64,
    entry_exp: u64,
    subject: u128,
    jti: u128,
    iat: u64,
    at: u64,
)
    requires
        global_raise_effect(pre, post, t, entry_exp),
        pre.global_cutoff is None,
        at < entry_exp,
    ensures
        iat <= t ==> !revocation_clear(post, subject, jti, iat, at),
        (iat > t && !post.denylisted(jti, at) && (post.user_cutoff_live(subject, at)
            ==> iat > post.user_cutoff_val(subject))) ==> revocation_clear(
            post,
            subject,
            jti,
            iat,
            at,
        ),
{
    assert(post.global_cutoff == Some((t, entry_exp)));
}

/// Revokes every token of one user issued at or before `now`: raises
/// that user's cutoff. Allowed to the user themselves or to an admin.
pub fn revoke_user(
    caller: &AccessClaims,
    user_id: u128,
    store: &mut RevocationStore,
    now: u64,
) -> (r: Result<(), AuthError>)
    requires
        old(store).wf(),
        now + REFRESH_TOKEN_TTL <= u64::MAX,
    ensures
        final(store).wf(),
        match r {
            Ok(_) => (caller@.sub == user_id || caller@.roles.contains(Role::Admin))
                && user_cutoff_raise_effect(
                *old(store),
                *final(store),
                user_id,
                now,
                (now + REFRESH_TOKEN_TTL) as u64,
            ),
            Err(e) => e == AuthError::Forbidden && caller@.sub != user_id
                && !caller@.roles.contains(Role::Admin) && *final(store) == *old(store),
        },
{
    if caller.sub != user_id {
        if let Err(e) = caller.validate_role_admin() {
            return Err(e);
        }
    }
    store.set_user_cutoff(user_id, now, now + REFRESH_TOKEN_TTL);
    Ok(())
}

/// Raising one user's cutoff to `t1` (where that user had none before)
/// makes every revocation check fail for that user's tokens issued at
/// or before `t1`, as long as the cutoff record lives — while a later
/// token of theirs, say from a fresh login, still passes if its own id
/// is not denylisted and no live global cutoff covers it. Other users'
/// checks are untouched.
pub proof fn lemma_revoke_user_coverage(
    pre: RevocationStore,
    post: RevocationStore,
    user: u128,
    t1: u64,
    entry_exp: u64,
    jti: u128,
    iat: u64,
    at: u64,
)
    requires
        user_cutoff_raise_effect(pre, post, user, t1, entry_exp),
        !pre.has_user_cutoff(user),
        at < entry_exp,
    ensures
        iat <= t1 ==> !revocation_clear(post, user, jti, iat, at),
        (iat > t1 && !post.denylisted(jti, at) && (post.global_live(at) ==> iat
            > post.global_val())) ==> revocation_clear(post, user, jti, iat, at),
        forall|u2: u128, j2: u128, i2: u64|
            u2 != user ==> revocation_clear(post, u2, j2, i2, at) == revocation_clear(
                pre,
                u2,
                j2,
                i2,
                at,
            ),
{
    assert(post.user_cutoff_val(user) == t1);
    assert(post.user_cutoffs@[post.user_cutoff_idx(user)].2 == entry_exp);
}

/// Evicts lapsed revocation records and reports how many went. Purely a
/// maintenance hook — record lapse times already bound the store.
/// Admin only.
pub fn cleanup_tokens(caller: &AccessClaims, store: &mut RevocationStore, now: u64) -> (r: Result<
    u64,
    AuthError,
>)
    requires
        old(store).wf(),
    ensures
        final(store).wf(),
        match r {
            Ok(n) => caller@.roles.contains(Role::Admin) && cleanup_effect(
                *old(store),
                *final(store),
                now,
                n,
            ),
            Err(e) => e == AuthError::Forbidden && !caller@.roles.contains(Role::Admin) && *final(store) == *old(store),
        },
{
    if let Err(e) = caller.validate_role_admin() {
        return Err(e);
    }
    Ok(store.cleanup(now))
}

} // verus!
