//! The two claim shapes carried by signed tokens, and the byte layout
//! of a token's payload.
//!
//! A payload is laid out as: one kind byte, then subject, issued-at,
//! expires-at and token id as fixed-width hex fields, then one byte per
//! role (access tokens only). The signature tag follows the payload;
//! the codec appends and checks it.

use vstd::prelude::*;
use crate::hex::hex_u64;
use crate::hex::hex_to_u64;
use crate::hex::push_hex_u64;
use crate::hex::hex_u64_at;
use crate::hex::lemma_decode_encode;
use crate::hex::lemma_encode_decode;

verus! {

/// The kind byte that starts an access token's payload.
pub const ACCESS_KIND: u8 = 0x41;

/// The kind byte that starts a refresh token's payload.
pub const REFRESH_KIND: u8 = 0x52;

/// The high 64 bits of a 128-bit id.
pub open spec fn u128_hi(x: u128) -> u64 {
    (x >> 64) as u64
}

/// The low 64 bits of a 128-bit id.
pub open spec fn u128_lo(x: u128) -> u64 {
    x as u64
}

/// A 128-bit id reassembled from its two halves.
pub open spec fn u128_of(hi: u64, lo: u64) -> u128 {
    ((hi as u128) << 64) | lo as u128
}

pub proof fn lemma_u128_split(x: u128)
    ensures
        u128_of(u128_hi(x), u128_lo(x)) == x,
{
    assert((((x >> 64) as u64 as u128) << 64) | (x as u64 as u128) == x) by (bit_vector);
}

pub proof fn lemma_u128_parts(hi: u64, lo: u64)
    ensures
        u128_hi(u128_of(hi, lo)) == hi,
        u128_lo(u128_of(hi, lo)) == lo,
{
    assert(((((hi as u128) << 64) | lo as u128) >> 64) as u64 == hi) by (bit_vector);
    assert((((hi as u128) << 64) | lo as u128) as u64 == lo) by (bit_vector);
}

/// A role a user can hold; access tokens carry the holder's roles.
#[derive(Clone, Copy, Debug, PartialEq, Eq, Structural)]
pub enum Role {
    Admin,
    Guest,
}

/// The payload byte standing for one role.
pub open spec fn role_byte(r: Role) -> u8 {
    match r {
        Role::Admin => 0x61,
        Role::Guest => 0x67,
    }
}

/// The role a payload byte stands for, if any.
pub open spec fn role_of_byte(b: u8) -> Option<Role> {
    if b == 0x61 {
        Some(Role::Admin)
    } else if b == 0x67 {
        Some(Role::Guest)
    } else {
        None
    }
}

pub proof fn lemma_role_byte_inverse(r: Role)
    ensures
        role_of_byte(role_byte(r)) == Some(r),
{
}

fn to_role_byte(r: Role) -> (b: u8)
    ensures
        b == role_byte(r),
{
    match r {
        Role::Admin => 0x61,
        Role::Guest => 0x67,
    }
}

fn from_role_byte(b: u8) -> (r: Option<Role>)
    ensures
        r == role_of_byte(b),
{
    if b == 0x61 {
        Some(Role::Admin)
    } else if b == 0x67 {
        Some(Role::Guest)
    } else {
        None
    }
}

/// Claims carried by an access token. Immutable once minted.
#[derive(Clone, Debug, PartialEq, Eq)]
pub struct AccessClaims {
    /// The user the token was issued to.
    pub sub: u128,
    /// The holder's roles as of issuance.
    pub roles: Vec<Role>,
    /// When the token was issued, in seconds since the epoch.
    pub iat: u64,
    /// When the token stops being valid.
    pub exp: u64,
    /// A fresh random id, unique per token.
    pub jti: u128,
}

/// Claims carried by a refresh token. Carries no roles: roles are
/// re-resolved from the user directory at refresh time.
#[derive(Clone, Debug, PartialEq, Eq)]
pub struct RefreshClaims {
    pub sub: u128,
    pub iat: u64,
    pub exp: u64,
    pub jti: u128,
}

/// Either claim shape.
#[derive(Clone, Debug, PartialEq, Eq)]
pub enum Claims {
    Access(AccessClaims),
    Refresh(RefreshClaims),
}

/// The mathematical image of `AccessClaims`.
pub struct AccessView {
    pub sub: u128,
    pub roles: Seq<Role>,
    pub iat: u64,
    pub exp: u64,
    pub jti: u128,
}

/// The mathematical image of `RefreshClaims`.
pub struct RefreshView {
    pub sub: u128,
    pub iat: u64,
    pub exp: u64,
    pub jti: u128,
}

/// The mathematical image of `Claims`.
pub enum ClaimsView {
    Access(AccessView),
    Refresh(RefreshView),
}

impl View for AccessClaims {
    type V = AccessView;

    open spec fn view(&self) -> AccessView {
        AccessView { sub: self.sub, roles: self.roles@, iat: self.iat, exp: self.exp, jti: self.jti }
    }
}

impl View for RefreshClaims {
    type V = RefreshView;

    open spec fn view(&self) -> RefreshView {
        RefreshView { sub: self.sub, iat: self.iat, exp: self.exp, jti: self.jti }
    }
}

impl View for Claims {
    type V = ClaimsView;

    open spec fn view(&self) -> ClaimsView {
        match self {
            Claims::Access(a) => ClaimsView::Access(a@),
            Claims::Refresh(r) => ClaimsView::Refresh(r@),
        }
    }
}

impl ClaimsView {
    pub open spec fn subject(self) -> u128 {
        match self {
            ClaimsView::Access(a) => a.sub,
            ClaimsView::Refresh(r) => r.sub,
        }
    }

    pub open spec fn issued_at(self) -> u64 {
        match self {
            ClaimsView::Access(a) => a.iat,
            ClaimsView::Refresh(r) => r.iat,
        }
    }

    pub open spec fn expires_at(self) -> u64 {
        match self {
            ClaimsView::Access(a) => a.exp,
            ClaimsView::Refresh(r) => r.exp,
        }
    }

    pub open spec fn token_id(self) -> u128 {
        match self {
            ClaimsView::Access(a) => a.jti,
            ClaimsView::Refresh(r) => r.jti,
        }
    }

    pub open spec fn role_seq(self) -> Seq<Role> {
        match self {
            ClaimsView::Access(a) => a.roles,
            ClaimsView::Refresh(_) => Seq::empty(),
        }
    }

    pub open spec fn kind_byte(self) -> u8 {
        match self {
            ClaimsView::Access(_) => ACCESS_KIND,
            ClaimsView::Refresh(_) => REFRESH_KIND,
        }
    }

    /// How many bytes the payload of these claims takes.
    pub open spec fn payload_len(self) -> nat {
        97 + self.role_seq().len()
    }
}

/// The byte at position `i` of the payload encoding of `c`.
pub open spec fn payload_byte(c: ClaimsView, i: int) -> u8
    recommends
        0 <= i < c.payload_len(),
{
    if i == 0 {
        c.kind_byte()
    } else if i < 17 {
        hex_u64(u128_hi(c.subject()))[i - 1]
    } else if i < 33 {
        hex_u64(u128_lo(c.subject()))[i - 17]
    } else if i < 49 {
        hex_u64(c.issued_at())[i - 33]
    } else if i < 65 {
        hex_u64(c.expires_at())[i - 49]
    } else if i < 81 {
        hex_u64(u128_hi(c.token_id()))[i - 65]
    } else if i < 97 {
        hex_u64(u128_lo(c.token_id()))[i - 81]
    } else {
        role_byte(c.role_seq()[i - 97])
    }
}

/// The payload encoding of claims `c`: everything the signature signs.
pub open spec fn payload_bytes(c: ClaimsView) -> Seq<u8> {
    Seq::new(c.payload_len(), |i: int| payload_byte(c, i))
}

/// The roles read back from the role segment of a payload, if every
/// byte there stands for a role.
pub open spec fn parse_roles(s: Seq<u8>) -> Option<Seq<Role>> {
    if forall|i: int| 0 <= i < s.len() ==> role_of_byte(s[i]) is Some {
        Some(Seq::new(s.len(), |i: int| role_of_byte(s[i]).unwrap()))
    } else {
        None
    }
}

/// The claims a token's bytes spell out, ignoring the 64-byte signature
/// tag at the end; `None` when the token cannot be parsed.
pub open spec fn spec_parse(s: Seq<u8>) -> Option<ClaimsView> {
    if s.len() < 161 {
        None
    } else {
        let sh = hex_to_u64(s.subrange(1, 17));
        let sl = hex_to_u64(s.subrange(17, 33));
        let ia = hex_to_u64(s.subrange(33, 49));
        let ex = hex_to_u64(s.subrange(49, 65));
        let jh = hex_to_u64(s.subrange(65, 81));
        let jl = hex_to_u64(s.subrange(81, 97));
        if sh is Some && sl is Some && ia is Some && ex is Some && jh is Some && jl is Some {
            let subj = u128_of(sh.unwrap(), sl.unwrap());
            let jti = u128_of(jh.unwrap(), jl.unwrap());
            if s[0] == REFRESH_KIND {
                if s.len() == 161 {
                    Some(
                        ClaimsView::Refresh(
                            RefreshView { sub: subj, iat: ia.unwrap(), exp: ex.unwrap(), jti },
                        ),
                    )
                } else {
                    None
                }
            } else if s[0] == ACCESS_KIND {
                match parse_roles(s.subrange(97, s.len() - 64)) {
                    Some(rs) => Some(
                        ClaimsView::Access(
                            AccessView {
                                sub: subj,
                                roles: rs,
                                iat: ia.unwrap(),
                                exp: ex.unwrap(),
                                jti,
                            },
                        ),
                    ),
                    None => None,
                }
            } else {
                None
            }
        } else {
            None
        }
    }
}

/// Any byte string made of the payload of `c` followed by any 64-byte
/// tag parses back to exactly `c`.
pub proof fn lemma_parse_roundtrip(c: ClaimsView, tag: Seq<u8>)
    requires
        tag.len() == 64,
    ensures
        spec_parse(payload_bytes(c) + tag) == Some(c),
{
    let s = payload_bytes(c) + tag;
    let pl = c.payload_len();
    assert(s.len() == pl + 64);
    assert(forall|i: int| 0 <= i < pl ==> s[i] == payload_byte(c, i));
    assert(s.subrange(1, 17) =~= hex_u64(u128_hi(c.subject())));
    assert(s.subrange(17, 33) =~= hex_u64(u128_lo(c.subject())));
    assert(s.subrange(33, 49) =~= hex_u64(c.issued_at()));
    assert(s.subrange(49, 65) =~= hex_u64(c.expires_at()));
    assert(s.subrange(65, 81) =~= hex_u64(u128_hi(c.token_id())));
    assert(s.subrange(81, 97) =~= hex_u64(u128_lo(c.token_id())));
    lemma_decode_encode(u128_hi(c.subject()));
    lemma_decode_encode(u128_lo(c.subject()));
    lemma_decode_encode(c.issued_at());
    lemma_decode_encode(c.expires_at());
    lemma_decode_encode(u128_hi(c.token_id()));
    lemma_decode_encode(u128_lo(c.token_id()));
    lemma_u128_split(c.subject());
    lemma_u128_split(c.token_id());
    match c {
        ClaimsView::Refresh(r) => {
            assert(s[0] == REFRESH_KIND);
            assert(spec_parse(s) == Some(c));
        },
        ClaimsView::Access(a) => {
            assert(s[0] == ACCESS_KIND);
            let seg = s.subrange(97, s.len() - 64);
            assert(seg.len() == a.roles.len());
            assert forall|i: int| 0 <= i < seg.len() implies role_of_byte(seg[i]) is Some by {
                assert(seg[i] == payload_byte(c, 97 + i));
                lemma_role_byte_inverse(a.roles[i]);
            }
            let rs = parse_roles(seg).unwrap();
            assert forall|i: int| 0 <= i < seg.len() implies rs[i] == a.roles[i] by {
                lemma_role_byte_inverse(a.roles[i]);
            }
            assert(rs =~= a.roles);
            assert(spec_parse(s) == Some(c));
        },
    }
}

/// Whatever parses to claims `c` starts with exactly the payload
/// encoding of `c` and ends with a 64-byte tag.
pub proof fn lemma_parse_sound(s: Seq<u8>, c: ClaimsView)
    requires
        spec_parse(s) == Some(c),
    ensures
        s.len() == c.payload_len() + 64,
        s.subrange(0, c.payload_len() as int) == payload_bytes(c),
{
    let sh = hex_to_u64(s.subrange(1, 17)).unwrap();
    let sl = hex_to_u64(s.subrange(17, 33)).unwrap();
    let ia = hex_to_u64(s.subrange(33, 49)).unwrap();
    let ex = hex_to_u64(s.subrange(49, 65)).unwrap();
    let jh = hex_to_u64(s.subrange(65, 81)).unwrap();
    let jl = hex_to_u64(s.subrange(81, 97)).unwrap();
    lemma_encode_decode(s.subrange(1, 17), sh);
    lemma_encode_decode(s.subrange(17, 33), sl);
    lemma_encode_decode(s.subrange(33, 49), ia);
    lemma_encode_decode(s.subrange(49, 65), ex);
    lemma_encode_decode(s.subrange(65, 81), jh);
    lemma_encode_decode(s.subrange(81, 97), jl);
    lemma_u128_parts(sh, sl);
    lemma_u128_parts(jh, jl);
    assert(c.subject() == u128_of(sh, sl));
    assert(c.token_id() == u128_of(jh, jl));
    if s[0] == ACCESS_KIND {
        let seg = s.subrange(97, s.len() - 64);
        let rs = parse_roles(seg).unwrap();
        assert(c.role_seq() == rs);
        assert(s.len() == c.payload_len() + 64);
        assert forall|i: int| 0 <= i < c.payload_len() implies s[i] == payload_byte(c, i) by {
            if 1 <= i < 17 {
                assert(s[i] == s.subrange(1, 17)[i - 1]);
            } else if 17 <= i < 33 {
                assert(s[i] == s.subrange(17, 33)[i - 17]);
            } else if 33 <= i < 49 {
                assert(s[i] == s.subrange(33, 49)[i - 33]);
            } else if 49 <= i < 65 {
                assert(s[i] == s.subrange(49, 65)[i - 49]);
            } else if 65 <= i < 81 {
                assert(s[i] == s.subrange(65, 81)[i - 65]);
            } else if 81 <= i < 97 {
                assert(s[i] == s.subrange(81, 97)[i - 81]);
            } else if 97 <= i {
                assert(s[i] == seg[i - 97]);
                assert(role_of_byte(seg[i - 97]) == Some(rs[i - 97]));
            }
        }
    } else {
        assert(s.len() == 161);
        assert forall|i: int| 0 <= i < c.payload_len() implies s[i] == payload_byte(c, i) by {
            if 1 <= i < 17 {
                assert(s[i] == s.subrange(1, 17)[i - 1]);
            } else if 17 <= i < 33 {
                assert(s[i] == s.subrange(17, 33)[i - 17]);
            } else if 33 <= i < 49 {
                assert(s[i] == s.subrange(33, 49)[i - 33]);
            } else if 49 <= i < 65 {
                assert(s[i] == s.subrange(49, 65)[i - 49]);
            } else if 65 <= i < 81 {
                assert(s[i] == s.subrange(65, 81)[i - 65]);
            } else if 81 <= i < 97 {
                assert(s[i] == s.subrange(81, 97)[i - 81]);
            }
        }
    }
    assert(s.subrange(0, c.payload_len() as int) =~= payload_bytes(c));
}

/// Two tokens with the same bytes carry the same claims.
pub proof fn lemma_payload_injective(c1: ClaimsView, c2: ClaimsView, tag1: Seq<u8>, tag2: Seq<u8>)
    requires
        tag1.len() == 64,
        tag2.len() == 64,
        payload_bytes(c1) + tag1 == payload_bytes(c2) + tag2,
    ensures
        c1 == c2,
        tag1 == tag2,
{
    lemma_parse_roundtrip(c1, tag1);
    lemma_parse_roundtrip(c2, tag2);
    let s = payload_bytes(c1) + tag1;
    assert(c1.payload_len() + 64 == s.len());
    assert(c2.payload_len() + 64 == s.len());
    assert forall|i: int| 0 <= i < 64 implies tag1[i] == tag2[i] by {
        assert(tag1[i] == s[c1.payload_len() + i]);
        assert(tag2[i] == (payload_bytes(c2) + tag2)[c2.payload_len() + i]);
    }
    assert(tag1 =~= tag2);
}

/// Writes the payload encoding of `claims`.
pub fn encode_payload(claims: &Claims) -> (r: Vec<u8>)
    ensures
        r@ == payload_bytes(claims@),
{
    let mut out: Vec<u8> = Vec::new();
    match claims {
        Claims::Access(a) => {
            out.push(ACCESS_KIND);
            push_hex_u64(&mut out, (a.sub >> 64) as u64);
            push_hex_u64(&mut out, a.sub as u64);
            push_hex_u64(&mut out, a.iat);
            push_hex_u64(&mut out, a.exp);
            push_hex_u64(&mut out, (a.jti >> 64) as u64);
            push_hex_u64(&mut out, a.jti as u64);
            let ghost fixed = out@;
            assert(fixed.len() == 97);
            let n = a.roles.len();
            for i in 0..n
                invariant
                    n == a.roles@.len(),
                    out@.len() == 97 + i,
                    forall|j: int| 0 <= j < 97 ==> out@[j] == fixed[j],
                    forall|j: int| 0 <= j < i ==> out@[97 + j] == role_byte(a.roles@[j]),
            {
                out.push(to_role_byte(a.roles[i]));
            }
            proof {
                assert forall|i: int| 0 <= i < out@.len() implies out@[i] == payload_byte(
                    claims@,
                    i,
                ) by {
                    if i < 97 {
                        assert(out@[i] == fixed[i]);
                    }
                }
                assert(out@ =~= payload_bytes(claims@));
            }
        },
        Claims::Refresh(rc) => {
            out.push(REFRESH_KIND);
            push_hex_u64(&mut out, (rc.sub >> 64) as u64);
            push_hex_u64(&mut out, rc.sub as u64);
            push_hex_u64(&mut out, rc.iat);
            push_hex_u64(&mut out, rc.exp);
            push_hex_u64(&mut out, (rc.jti >> 64) as u64);
            push_hex_u64(&mut out, rc.jti as u64);
            proof {
                assert(out@ =~= payload_bytes(claims@));
            }
        },
    }
    out
}

/// Reads the claims a token's bytes spell out; `None` when they cannot
/// be parsed.
pub fn parse_token(s: &[u8]) -> (r: Option<Claims>)
    ensures
        match r {
            Some(c) => spec_parse(s@) == Some(c@),
            None => spec_parse(s@) is None,
        },
{
    let n = s.len();
    if n < 161 {
        return None;
    }
    let sh = hex_u64_at(s, 1);
    let sl = hex_u64_at(s, 17);
    let ia = hex_u64_at(s, 33);
    let ex = hex_u64_at(s, 49);
    let jh = hex_u64_at(s, 65);
    let jl = hex_u64_at(s, 81);
    if sh.is_none() || sl.is_none() || ia.is_none() || ex.is_none() || jh.is_none()
        || jl.is_none() {
        return None;
    }
    let subj: u128 = ((sh.unwrap() as u128) << 64) | sl.unwrap() as u128;
    let jti: u128 = ((jh.unwrap() as u128) << 64) | jl.unwrap() as u128;
    let kind = s[0];
    if kind == REFRESH_KIND {
        if n == 161 {
            Some(Claims::Refresh(RefreshClaims { sub: subj, iat: ia.unwrap(), exp: ex.unwrap(), jti }))
        } else {
            None
        }
    } else if kind == ACCESS_KIND {
        let end = n - 64;
        let ghost seg = s@.subrange(97, s@.len() - 64);
        let mut roles: Vec<Role> = Vec::new();
        let mut i: usize = 97;
        while i < end
            invariant
                97 <= i <= end == s@.len() - 64,
                161 <= s@.len(),
                seg == s@.subrange(97, s@.len() - 64),
                roles@.len() == i - 97,
                forall|j: int| 97 <= j < i ==> role_of_byte(s@[j]) is Some,
                forall|j: int| 0 <= j < i - 97 ==> role_of_byte(seg[j]) == Some(roles@[j]),
            decreases end - i,
        {
            match from_role_byte(s[i]) {
                Some(r) => {
                    roles.push(r);
                },
                None => {
                    proof {
                        assert(role_of_byte(seg[i - 97]) is None);
                        assert(parse_roles(seg) is None);
                    }
                    return None;
                },
            }
            i = i + 1;
        }
        proof {
            assert forall|j: int| 0 <= j < seg.len() implies role_of_byte(seg[j]) is Some by {
                assert(role_of_byte(s@[97 + j]) is Some);
            }
            let rs = parse_roles(seg).unwrap();
            assert(rs =~= roles@);
        }
        Some(
            Claims::Access(
                AccessClaims { sub: subj, roles, iat: ia.unwrap(), exp: ex.unwrap(), jti },
            ),
        )
    } else {
        None
    }
}

impl Claims {
    /// When these claims stop being valid.
    pub fn expiry(&self) -> (r: u64)
        ensures
            r == self@.expires_at(),
    {
        match self {
            Claims::Access(a) => a.exp,
            Claims::Refresh(rc) => rc.exp,
        }
    }
}

} // verus!
