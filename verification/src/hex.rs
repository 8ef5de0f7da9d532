//! Fixed-width lower-case hex encoding of machine integers and byte
//! strings, with proofs that decoding inverts encoding and that every
//! decodable string is a canonical encoding.

use vstd::prelude::*;

verus! {

/// The byte standing for one hex digit value (0 through 15).
pub open spec fn hex_digit(n: u8) -> u8 {
    if n < 10 {
        (0x30 + n) as u8
    } else {
        (0x57 + n) as u8
    }
}

/// The value of one lower-case hex digit byte, if it is one.
pub open spec fn hex_value(b: u8) -> Option<u8> {
    if 0x30 <= b && b <= 0x39 {
        Some((b - 0x30) as u8)
    } else if 0x61 <= b && b <= 0x66 {
        Some((b - 0x57) as u8)
    } else {
        None
    }
}

pub proof fn lemma_hex_digit_value(n: u8)
    requires
        n < 16,
    ensures
        hex_value(hex_digit(n)) == Some(n),
{
}

pub proof fn lemma_hex_value_digit(b: u8)
    requires
        hex_value(b) is Some,
    ensures
        hex_value(b).unwrap() < 16,
        hex_digit(hex_value(b).unwrap()) == b,
{
}

/// The `i`-th nibble of `v`, counted from the most significant end.
pub open spec fn nibble(v: u64, i: int) -> u8
    recommends
        0 <= i < 16,
{
    ((v >> (((15 - i) * 4) as u64)) & 0xf) as u8
}

/// The 16-byte lower-case hex encoding of a 64-bit value.
pub open spec fn hex_u64(v: u64) -> Seq<u8> {
    Seq::new(16, |i: int| hex_digit(nibble(v, i)))
}

/// The value of the first `n` bytes of `s` read as hex digits, folded
/// most significant digit first; `None` as soon as a byte is no digit.
pub open spec fn hex_prefix_val(s: Seq<u8>, n: int) -> Option<u64>
    decreases n,
{
    if n <= 0 {
        Some(0u64)
    } else {
        match hex_prefix_val(s, n - 1) {
            None => None,
            Some(a) => match hex_value(s[n - 1]) {
                None => None,
                Some(d) => Some((a << 4) | d as u64),
            },
        }
    }
}

/// The value of a 16-byte hex string, if every byte is a digit.
pub open spec fn hex_to_u64(s: Seq<u8>) -> Option<u64> {
    if s.len() == 16 {
        hex_prefix_val(s, 16)
    } else {
        None
    }
}

proof fn lemma_prefix_of_encode(v: u64, n: int)
    requires
        0 <= n <= 16,
    ensures
        hex_prefix_val(hex_u64(v), n) == Some(v >> ((64 - 4 * n) as u64)),
    decreases n,
{
    if n == 0 {
        assert(v >> 64u64 == 0) by (bit_vector);
    } else {
        lemma_prefix_of_encode(v, n - 1);
        let a = v >> ((68 - 4 * n) as u64);
        let k = (64 - 4 * n) as u64;
        let nib = nibble(v, n - 1);
        assert(((15 - (n - 1)) * 4) as u64 == k);
        assert((v >> k) & 0xf < 16) by (bit_vector);
        lemma_hex_digit_value(nib);
        assert(hex_u64(v)[n - 1] == hex_digit(nib));
        assert(k <= 60 && a == v >> (k + 4) ==> ((a << 4) | ((v >> k) & 0xf)) == v >> k)
            by (bit_vector);
        assert((68 - 4 * n) as u64 == k + 4);
    }
}

/// Decoding the encoding of `v` gives back `v`.
pub proof fn lemma_decode_encode(v: u64)
    ensures
        hex_to_u64(hex_u64(v)) == Some(v),
{
    lemma_prefix_of_encode(v, 16);
    assert(v >> 0u64 == v) by (bit_vector);
}

proof fn lemma_prefix_sound(s: Seq<u8>, n: int)
    requires
        0 <= n <= 16,
        n <= s.len(),
        hex_prefix_val(s, n) is Some,
    ensures
        ({
            let a = hex_prefix_val(s, n).unwrap();
            &&& (n < 16 ==> a >> ((4 * n) as u64) == 0)
            &&& forall|j: int|
                0 <= j < n ==> s[j] == hex_digit(
                    ((a >> ((4 * (n - 1 - j)) as u64)) & 0xf) as u8,
                )
        }),
    decreases n,
{
    if n == 0 {
        assert(0u64 >> 0u64 == 0) by (bit_vector);
    } else {
        lemma_prefix_sound(s, n - 1);
        let b = hex_prefix_val(s, n - 1).unwrap();
        let d = hex_value(s[n - 1]).unwrap();
        let a = hex_prefix_val(s, n).unwrap();
        lemma_hex_value_digit(s[n - 1]);
        assert(a == (b << 4) | d as u64);
        // b fits in 4 * (n - 1) bits, so shifting it left by 4 loses nothing
        let p = (4 * (n - 1)) as u64;
        let q = (4 * n) as u64;
        assert(b >> p == 0);
        assert(b >> p == 0 && p <= 60 ==> b >> 60 == 0) by (bit_vector);
        assert(b >> p == 0 && d < 16 && q == p + 4 && q <= 60 ==> ((b << 4) | d as u64) >> q
            == 0) by (bit_vector);
        assert(n < 16 ==> a >> ((4 * n) as u64) == 0);
        assert forall|j: int| 0 <= j < n implies s[j] == hex_digit(
            ((a >> ((4 * (n - 1 - j)) as u64)) & 0xf) as u8,
        ) by {
            if j == n - 1 {
                assert(d < 16 ==> ((b << 4) | d as u64) >> 0 & 0xf == d) by (bit_vector);
            } else {
                let m4 = (4 * (n - 1 - j)) as u64;
                let m4p = (4 * (n - 2 - j)) as u64;
                assert(b >> 60 == 0 && d < 16 && m4 == m4p + 4 && 4 <= m4 <= 60 ==> (((b << 4)
                    | d as u64) >> m4) & 0xf == (b >> m4p) & 0xf) by (bit_vector);
            }
        }
    }
}

/// Every 16-byte string that decodes at all is the canonical encoding
/// of the value it decodes to.
pub proof fn lemma_encode_decode(s: Seq<u8>, v: u64)
    requires
        s.len() == 16,
        hex_to_u64(s) == Some(v),
    ensures
        s == hex_u64(v),
{
    lemma_prefix_sound(s, 16);
    assert forall|j: int| 0 <= j < 16 implies s[j] == hex_u64(v)[j] by {
        assert((4 * (16 - 1 - j)) as u64 == ((15 - j) * 4) as u64);
    }
    assert(s =~= hex_u64(v));
}

/// A prefix that fails to decode never recovers with more bytes.
pub proof fn lemma_prefix_none(s: Seq<u8>, n: int, m: int)
    requires
        0 <= n <= m,
        hex_prefix_val(s, n) is None,
    ensures
        hex_prefix_val(s, m) is None,
    decreases m,
{
    if m > n {
        lemma_prefix_none(s, n, m - 1);
    }
}

/// The byte for one hex digit value.
pub fn to_hex_digit(n: u8) -> (r: u8)
    requires
        n < 16,
    ensures
        r == hex_digit(n),
{
    if n < 10 {
        0x30 + n
    } else {
        0x57 + n
    }
}

/// The value of one byte read as a lower-case hex digit.
pub fn from_hex_digit(b: u8) -> (r: Option<u8>)
    ensures
        r == hex_value(b),
{
    if 0x30 <= b && b <= 0x39 {
        Some(b - 0x30)
    } else if 0x61 <= b && b <= 0x66 {
        Some(b - 0x57)
    } else {
        None
    }
}

/// Appends the 16-byte hex encoding of `v` to `out`.
pub fn push_hex_u64(out: &mut Vec<u8>, v: u64)
    ensures
        final(out)@ == old(out)@ + hex_u64(v),
{
    let ghost base = out@;
    for i in 0..16usize
        invariant
            out@.len() == base.len() + i,
            forall|j: int| 0 <= j < base.len() ==> out@[j] == base[j],
            forall|j: int| 0 <= j < i ==> out@[base.len() + j] == hex_u64(v)[j],
    {
        let sh: u64 = (15 - i as u64) * 4;
        let nib: u8 = ((v >> sh) & 0xf) as u8;
        assert((v >> sh) & 0xf < 16) by (bit_vector);
        assert(nib == nibble(v, i as int));
        out.push(to_hex_digit(nib));
    }
    assert(out@ =~= base + hex_u64(v));
}

/// Reads the 16 bytes of `s` starting at `off` as a hex-encoded value.
pub fn hex_u64_at(s: &[u8], off: usize) -> (r: Option<u64>)
    requires
        off + 16 <= s@.len(),
    ensures
        r == hex_to_u64(s@.subrange(off as int, off as int + 16)),
{
    let ghost sub = s@.subrange(off as int, off as int + 16);
    let n = s.len();
    let mut acc: u64 = 0;
    for i in 0..16usize
        invariant
            off + 16 <= n == s@.len(),
            sub == s@.subrange(off as int, off as int + 16),
            hex_prefix_val(sub, i as int) == Some(acc),
    {
        let b = s[off + i];
        assert(b == sub[i as int]);
        match from_hex_digit(b) {
            Some(d) => {
                acc = (acc << 4) | d as u64;
            },
            None => {
                proof {
                    lemma_prefix_none(sub, i + 1, 16);
                }
                return None;
            },
        }
    }
    Some(acc)
}

/// The hex encoding of a byte string: two digits for each byte, high
/// nibble first.
pub open spec fn bytes_hex(m: Seq<u8>) -> Seq<u8> {
    Seq::new(
        2 * m.len(),
        |i: int|
            if i % 2 == 0 {
                hex_digit((m[i / 2] >> 4) as u8)
            } else {
                hex_digit((m[i / 2] & 0xf) as u8)
            },
    )
}

/// Appends the hex encoding of `m` to `out`.
pub fn push_bytes_hex(out: &mut Vec<u8>, m: &[u8])
    ensures
        final(out)@ == old(out)@ + bytes_hex(m@),
{
    let ghost base = out@;
    let len = m.len();
    for i in 0..len
        invariant
            len == m@.len(),
            out@.len() == base.len() + 2 * i,
            forall|j: int| 0 <= j < base.len() ==> out@[j] == base[j],
            forall|j: int| 0 <= j < 2 * i ==> out@[base.len() + j] == bytes_hex(m@)[j],
    {
        let b = m[i];
        let hi: u8 = b >> 4;
        let lo: u8 = b & 0xf;
        assert(b >> 4 < 16 && b & 0xf < 16) by (bit_vector);
        out.push(to_hex_digit(hi));
        out.push(to_hex_digit(lo));
        assert((2 * i as int) / 2 == i as int && (2 * i as int + 1) / 2 == i as int);
    }
    assert(out@ =~= base + bytes_hex(m@));
}

} // verus!
