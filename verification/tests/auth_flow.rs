use tokenauth::api::{ApiError, ApiErrorType};
use tokenauth::claims::{AccessClaims, Role};
use tokenauth::controller::{cleanup_tokens, login, logout, refresh, revoke_global, revoke_user};
use tokenauth::errors::AuthError;
use tokenauth::guard::{authenticate, authenticate_with_role, verify_refresh};
use tokenauth::issuer::User;
use tokenauth::store::RevocationStore;

const KEY: &[u8] = b"process-wide signing secret";

fn alice() -> User {
    User { id: 11, active: true, roles: vec![Role::Guest] }
}

fn admin_user() -> User {
    User { id: 99, active: true, roles: vec![Role::Admin, Role::Guest] }
}

fn admin_claims(now: u64) -> AccessClaims {
    AccessClaims { sub: 99, roles: vec![Role::Admin], iat: now, exp: now + 900, jti: 777 }
}

#[test]
fn login_mints_matching_claims() {
    let user = alice();
    let pair = login(KEY, Some(&user), true, 1_000).expect("active user with password must log in");
    assert_eq!(pair.access_claims.sub, user.id);
    assert_eq!(pair.access_claims.roles, user.roles);
    assert_eq!(pair.access_claims.iat, 1_000);
    assert_eq!(pair.access_claims.exp, 1_900);
    assert_eq!(pair.refresh_claims.sub, user.id);
    assert_eq!(pair.refresh_claims.exp, 1_000 + 1_209_600);
    let store = RevocationStore::new();
    let got = authenticate(KEY, &pair.access_token, &store, 1_100).expect("fresh token accepted");
    assert_eq!(got, pair.access_claims);
}

#[test]
fn login_rejects_bad_credentials_uniformly() {
    let user = alice();
    let inactive = User { id: 12, active: false, roles: vec![Role::Guest] };
    assert!(matches!(login(KEY, Some(&user), false, 1_000), Err(AuthError::WrongCredentials)));
    assert!(matches!(login(KEY, Some(&inactive), true, 1_000), Err(AuthError::WrongCredentials)));
    assert!(matches!(login(KEY, None, true, 1_000), Err(AuthError::WrongCredentials)));
}

#[test]
fn authenticate_rejects_refresh_token_kind() {
    let user = alice();
    let pair = login(KEY, Some(&user), true, 1_000).unwrap();
    let store = RevocationStore::new();
    assert!(matches!(
        authenticate(KEY, &pair.refresh_token, &store, 1_100),
        Err(AuthError::InvalidToken)
    ));
    assert!(matches!(
        verify_refresh(KEY, &pair.access_token, 1_100),
        Err(AuthError::InvalidToken)
    ));
}

#[test]
fn logout_is_idempotent() {
    let user = alice();
    let pair = login(KEY, Some(&user), true, 1_000).unwrap();
    let mut store = RevocationStore::new();
    assert!(logout(&pair.refresh_claims, &mut store).is_ok());
    let after_first = store.denylist.clone();
    assert!(logout(&pair.refresh_claims, &mut store).is_ok());
    assert_eq!(store.denylist, after_first);
    assert_eq!(store.denylist.len(), 1);
    // the logged-out refresh token can no longer be used
    assert!(matches!(
        refresh(KEY, &pair.refresh_claims, Some(&user), &mut store, 1_100),
        Err(AuthError::Revoked)
    ));
}

#[test]
fn refresh_rotates_and_rejects_replay() {
    let user = alice();
    let pair0 = login(KEY, Some(&user), true, 1_000).unwrap();
    let mut store = RevocationStore::new();
    // the refresh token itself still verifies before rotation
    let claims0 = verify_refresh(KEY, &pair0.refresh_token, 1_100).unwrap();
    assert_eq!(claims0, pair0.refresh_claims);
    let pair1 = refresh(KEY, &claims0, Some(&user), &mut store, 1_100)
        .expect("first refresh must succeed");
    assert_eq!(pair1.access_claims.sub, user.id);
    assert_eq!(pair1.access_claims.iat, 1_100);
    // replaying the old refresh token fails forever after
    let claims0_again = verify_refresh(KEY, &pair0.refresh_token, 1_200).unwrap();
    assert!(matches!(
        refresh(KEY, &claims0_again, Some(&user), &mut store, 1_200),
        Err(AuthError::Revoked)
    ));
    // while the new pair works
    let got = authenticate(KEY, &pair1.access_token, &store, 1_200).unwrap();
    assert_eq!(got, pair1.access_claims);
    assert!(refresh(KEY, &pair1.refresh_claims, Some(&user), &mut store, 1_300).is_ok());
}

#[test]
fn refresh_rechecks_the_directory() {
    let user = alice();
    let pair = login(KEY, Some(&user), true, 1_000).unwrap();
    let mut store = RevocationStore::new();
    assert!(matches!(
        refresh(KEY, &pair.refresh_claims, None, &mut store, 1_100),
        Err(AuthError::InvalidToken)
    ));
    let deactivated = User { id: user.id, active: false, roles: vec![Role::Guest] };
    assert!(matches!(
        refresh(KEY, &pair.refresh_claims, Some(&deactivated), &mut store, 1_100),
        Err(AuthError::InactiveUser)
    ));
    // neither failure consumed the token
    assert!(refresh(KEY, &pair.refresh_claims, Some(&user), &mut store, 1_200).is_ok());
}

#[test]
fn revoke_user_scenario() {
    // alice logs in at T0; an admin revokes her tokens at T1 > T0; her
    // old access token is rejected afterwards, a fresh login works.
    let user = alice();
    let pair0 = login(KEY, Some(&user), true, 1_000).unwrap();
    let mut store = RevocationStore::new();
    let admin = admin_claims(1_005);
    assert!(revoke_user(&admin, user.id, &mut store, 1_010).is_ok());
    assert!(matches!(
        authenticate(KEY, &pair0.access_token, &store, 1_020),
        Err(AuthError::Revoked)
    ));
    assert!(matches!(
        refresh(KEY, &pair0.refresh_claims, Some(&user), &mut store, 1_020),
        Err(AuthError::Revoked)
    ));
    let pair2 = login(KEY, Some(&user), true, 1_020).unwrap();
    let got = authenticate(KEY, &pair2.access_token, &store, 1_030).unwrap();
    assert_eq!(got, pair2.access_claims);
}

#[test]
fn revoke_user_authorization() {
    let mut store = RevocationStore::new();
    let me = AccessClaims { sub: 11, roles: vec![Role::Guest], iat: 0, exp: 900, jti: 1 };
    // self-service revocation is allowed without the admin role
    assert!(revoke_user(&me, 11, &mut store, 100).is_ok());
    // revoking someone else needs the admin role
    assert!(matches!(
        revoke_user(&me, 12, &mut store, 100),
        Err(AuthError::Forbidden)
    ));
    assert!(revoke_user(&admin_claims(0), 12, &mut store, 100).is_ok());
}

#[test]
fn revoke_all_scenario() {
    // revoke_global invalidates every earlier token of every user, but a
    // token issued after the call stays valid.
    let user = alice();
    let other = User { id: 12, active: true, roles: vec![Role::Guest] };
    let pair_a = login(KEY, Some(&user), true, 1_000).unwrap();
    let pair_b = login(KEY, Some(&other), true, 1_005).unwrap();
    let mut store = RevocationStore::new();
    let admin = admin_claims(1_005);
    assert!(matches!(
        revoke_global(&admin_claims_without_role(), &mut store, 1_010),
        Err(AuthError::Forbidden)
    ));
    assert!(revoke_global(&admin, &mut store, 1_010).is_ok());
    assert!(matches!(
        authenticate(KEY, &pair_a.access_token, &store, 1_020),
        Err(AuthError::Revoked)
    ));
    assert!(matches!(
        authenticate(KEY, &pair_b.access_token, &store, 1_020),
        Err(AuthError::Revoked)
    ));
    let pair_fresh = login(KEY, Some(&user), true, 1_020).unwrap();
    assert!(authenticate(KEY, &pair_fresh.access_token, &store, 1_030).is_ok());
}

fn admin_claims_without_role() -> AccessClaims {
    AccessClaims { sub: 50, roles: vec![Role::Guest], iat: 0, exp: 900, jti: 50 }
}

#[test]
fn guard_role_variant() {
    let admin = admin_user();
    let guest = alice();
    let store = RevocationStore::new();
    let pair_admin = login(KEY, Some(&admin), true, 1_000).unwrap();
    let pair_guest = login(KEY, Some(&guest), true, 1_000).unwrap();
    assert!(authenticate_with_role(KEY, &pair_admin.access_token, &store, 1_100, Role::Admin)
        .is_ok());
    assert!(matches!(
        authenticate_with_role(KEY, &pair_guest.access_token, &store, 1_100, Role::Admin),
        Err(AuthError::Forbidden)
    ));
}

#[test]
fn cleanup_requires_admin_and_reports_count() {
    let mut store = RevocationStore::new();
    store.mark_token_revoked(1, 100);
    store.mark_token_revoked(2, 5_000);
    assert!(matches!(
        cleanup_tokens(&admin_claims_without_role(), &mut store, 1_000),
        Err(AuthError::Forbidden)
    ));
    let removed = cleanup_tokens(&admin_claims(900), &mut store, 1_000).unwrap();
    assert_eq!(removed, 1);
    assert!(store.is_token_revoked(2, 1_000));
}

#[test]
fn access_token_expires_on_its_own() {
    let user = alice();
    let pair = login(KEY, Some(&user), true, 1_000).unwrap();
    let store = RevocationStore::new();
    assert!(authenticate(KEY, &pair.access_token, &store, 1_899).is_ok());
    assert!(matches!(
        authenticate(KEY, &pair.access_token, &store, 1_900),
        Err(AuthError::Expired)
    ));
}

#[test]
fn api_error_collapses_auth_failures() {
    for e in [
        AuthError::Malformed,
        AuthError::BadSignature,
        AuthError::Expired,
        AuthError::Revoked,
        AuthError::WrongCredentials,
        AuthError::InvalidToken,
        AuthError::InactiveUser,
    ] {
        let api = ApiError::from(e);
        assert_eq!(api.status_code, 401);
        assert!(matches!(api.error_type, ApiErrorType::Auth(_)));
    }
    assert_eq!(ApiError::from(AuthError::Forbidden).status_code, 403);
    assert_eq!(ApiError::from(AuthError::StoreUnavailable).status_code, 500);
}
