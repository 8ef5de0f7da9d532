//! Minting and verifying signed tokens.
//!
//! A token is the payload encoding of its claims followed by the hex
//! encoding of an HMAC-SHA-256 tag over that payload. `verify` checks
//! shape, signature and expiry; revocation is the guard's job, layered
//! on top. The signature primitive sits behind one trusted wrapper, so
//! swapping it touches no caller.

use vstd::prelude::*;
use crate::claims::Claims;
use crate::claims::ClaimsView;
use crate::claims::payload_bytes;
use crate::claims::spec_parse;
use crate::claims::encode_payload;
use crate::claims::parse_token;
use crate::claims::lemma_parse_roundtrip;
use crate::claims::lemma_parse_sound;
use crate::errors::AuthError;
use crate::hex::bytes_hex;
use crate::hex::push_bytes_hex;
use vstd::slice::slice_subrange;
use hmac::Mac;

verus! {

/// What HMAC-SHA-256 returns for a key and a message. Left without a
/// definition: the tag is a function of the two arguments alone, and
/// nothing else is assumed of it.
pub uninterp spec fn mac_of(key: Seq<u8>, msg: Seq<u8>) -> [u8; 32];

/// Relies on the hmac crate's HMAC-SHA-256: the 32-byte tag depends on
/// the key and the message alone. `new_from_slice` accepts keys of any
/// length for an HMAC, so the call cannot fail.
#[verifier::external_body]
fn hmac_sha256(key: &[u8], msg: &[u8]) -> (r: [u8; 32])
    ensures
        r == mac_of(key@, msg@),
{
    let mut m = <hmac::Hmac<sha2::Sha256> as Mac>::new_from_slice(key).unwrap();
    m.update(msg);
    m.finalize().into_bytes().into()
}

/// The full byte string of the signed token for claims `c` under `key`.
pub open spec fn token_bytes(key: Seq<u8>, c: ClaimsView) -> Seq<u8> {
    payload_bytes(c) + bytes_hex(mac_of(key, payload_bytes(c))@)
}

/// A signed token parses back to exactly the claims it was minted from.
pub proof fn lemma_token_roundtrip(key: Seq<u8>, c: ClaimsView)
    ensures
        spec_parse(token_bytes(key, c)) == Some(c),
{
    lemma_parse_roundtrip(c, bytes_hex(mac_of(key, payload_bytes(c))@));
}

/// Under one key, distinct claims never share a token.
pub proof fn lemma_token_injective(key: Seq<u8>, c1: ClaimsView, c2: ClaimsView)
    requires
        token_bytes(key, c1) == token_bytes(key, c2),
    ensures
        c1 == c2,
{
    lemma_token_roundtrip(key, c1);
    lemma_token_roundtrip(key, c2);
}

/// Produces the signed token encoding `claims`.
pub fn mint(key: &[u8], claims: &Claims) -> (r: Vec<u8>)
    ensures
        r@ == token_bytes(key@, claims@),
{
    let mut out = encode_payload(claims);
    let tag = hmac_sha256(key, out.as_slice());
    push_bytes_hex(&mut out, tag.as_slice());
    out
}

/// Checks a token's shape, signature and expiry, and returns its
/// claims. `Malformed`, `BadSignature` and `Expired` say exactly which
/// check failed first; each comes if and only if its condition holds.
pub fn verify(key: &[u8], token: &[u8], now: u64) -> (r: Result<Claims, AuthError>)
    ensures
        match r {
            Ok(c) => spec_parse(token@) == Some(c@) && token@ == token_bytes(key@, c@) && now
                < c@.expires_at(),
            Err(AuthError::Malformed) => spec_parse(token@) is None,
            Err(AuthError::BadSignature) => spec_parse(token@) is Some && token@ != token_bytes(
                key@,
                spec_parse(token@).unwrap(),
            ),
            Err(AuthError::Expired) => spec_parse(token@) is Some && token@ == token_bytes(
                key@,
                spec_parse(token@).unwrap(),
            ) && now >= spec_parse(token@).unwrap().expires_at(),
            Err(_) => false,
        },
{
    let n = token.len();
    let claims = match parse_token(token) {
        Some(c) => c,
        None => {
            return Err(AuthError::Malformed);
        },
    };
    proof {
        lemma_parse_sound(token@, claims@);
    }
    let plen = n - 64;
    let payload = slice_subrange(token, 0, plen);
    assert(payload@ == payload_bytes(claims@));
    let tag = hmac_sha256(key, payload);
    let mut expected: Vec<u8> = Vec::new();
    push_bytes_hex(&mut expected, tag.as_slice());
    assert(expected@ == bytes_hex(mac_of(key@, payload_bytes(claims@))@));
    assert(expected@.len() == 64);
    let mut i: usize = 0;
    while i < 64
        invariant
            64 <= plen,
            plen + 64 == n == token@.len(),
            spec_parse(token@) == Some(claims@),
            payload_bytes(claims@).len() == plen,
            token@.subrange(0, plen as int) == payload_bytes(claims@),
            expected@ == bytes_hex(mac_of(key@, payload_bytes(claims@))@),
            expected@.len() == 64,
            i <= 64,
            forall|j: int| 0 <= j < i ==> token@[plen + j] == expected@[j],
        decreases 64 - i,
    {
        if token[plen + i] != expected[i] {
            proof {
                let ghost tb = token_bytes(key@, claims@);
                assert(tb.len() == n);
                assert(tb[plen + i] == expected@[i as int]);
            }
            return Err(AuthError::BadSignature);
        }
        i = i + 1;
    }
    proof {
        assert forall|j: int| 0 <= j < plen implies token@[j] == payload_bytes(claims@)[j] by {
            assert(token@[j] == token@.subrange(0, plen as int)[j]);
        }
        assert(token@ =~= token_bytes(key@, claims@));
    }
    let exp = claims.expiry();
    if exp <= now {
        return Err(AuthError::Expired);
    }
    Ok(claims)
}

} // verus!
