use tokenauth::claims::{AccessClaims, Claims, RefreshClaims, Role};
use tokenauth::codec::{mint, verify};
use tokenauth::errors::AuthError;

fn access_claims() -> Claims {
    Claims::Access(AccessClaims {
        sub: 0x00112233445566778899aabbccddeeff,
        roles: vec![Role::Admin, Role::Guest],
        iat: 1_000,
        exp: 1_900,
        jti: 0xfedcba98765432100123456789abcdef,
    })
}

fn refresh_claims() -> Claims {
    Claims::Refresh(RefreshClaims { sub: 7, iat: 1_000, exp: 2_209_600, jti: 42 })
}

#[test]
fn mint_verify_roundtrip_access() {
    let key = b"a shared signing secret";
    let token = mint(key, &access_claims());
    let got = verify(key, &token, 1_500).expect("fresh token must verify");
    assert_eq!(got, access_claims());
}

#[test]
fn mint_verify_roundtrip_refresh() {
    let key = b"a shared signing secret";
    let token = mint(key, &refresh_claims());
    let got = verify(key, &token, 1_000).expect("fresh token must verify");
    assert_eq!(got, refresh_claims());
}

#[test]
fn token_layout_length() {
    // payload: 1 kind byte + 6 * 16 hex digits + one byte per role;
    // tag: 64 hex digits of a 32-byte signature.
    let key = b"k";
    let token = mint(key, &access_claims());
    assert_eq!(token.len(), 161 + 2);
    let token = mint(key, &refresh_claims());
    assert_eq!(token.len(), 161);
    assert!(token.iter().all(|b| b.is_ascii()));
}

#[test]
fn verify_expired_exactly_at_expiry() {
    let key = b"key";
    let token = mint(key, &access_claims());
    assert!(verify(key, &token, 1_899).is_ok());
    assert!(matches!(verify(key, &token, 1_900), Err(AuthError::Expired)));
    assert!(matches!(verify(key, &token, 5_000), Err(AuthError::Expired)));
}

#[test]
fn verify_rejects_wrong_key() {
    let token = mint(b"key one", &access_claims());
    assert!(matches!(
        verify(b"key two", &token, 1_500),
        Err(AuthError::BadSignature)
    ));
}

#[test]
fn verify_rejects_tampered_payload() {
    let key = b"key";
    let mut token = mint(key, &access_claims());
    // flip one hex digit inside the subject field
    token[5] = if token[5] == b'0' { b'1' } else { b'0' };
    assert!(matches!(verify(key, &token, 1_500), Err(AuthError::BadSignature)));
}

#[test]
fn verify_rejects_tampered_tag() {
    let key = b"key";
    let mut token = mint(key, &refresh_claims());
    let last = token.len() - 1;
    token[last] = if token[last] == b'0' { b'1' } else { b'0' };
    assert!(matches!(verify(key, &token, 1_500), Err(AuthError::BadSignature)));
}

#[test]
fn verify_rejects_malformed() {
    let key = b"key";
    assert!(matches!(verify(key, b"", 0), Err(AuthError::Malformed)));
    assert!(matches!(verify(key, b"not a token", 0), Err(AuthError::Malformed)));
    let short = vec![b'0'; 160];
    assert!(matches!(verify(key, &short, 0), Err(AuthError::Malformed)));
    // right length, but the kind byte is unknown
    let mut token = mint(key, &refresh_claims());
    token[0] = b'Z';
    assert!(matches!(verify(key, &token, 0), Err(AuthError::Malformed)));
    // a stray byte in a numeric field is not a hex digit
    let mut token = mint(key, &refresh_claims());
    token[3] = b'x';
    assert!(matches!(verify(key, &token, 0), Err(AuthError::Malformed)));
    // a stray byte in the role segment names no role
    let mut token = mint(key, &access_claims());
    token[97] = b'z';
    assert!(matches!(verify(key, &token, 0), Err(AuthError::Malformed)));
}

#[test]
fn tokens_differ_per_claims() {
    let key = b"key";
    let t1 = mint(key, &access_claims());
    let t2 = mint(key, &refresh_claims());
    assert_ne!(t1, t2);
    let mut other = access_claims();
    if let Claims::Access(a) = &mut other {
        a.jti += 1;
    }
    let t3 = mint(key, &other);
    assert_ne!(t1, t3);
}
