//! Byte-level helpers shared by the rest of the library: big-endian
//! encodings, decimal and hexadecimal rendering, and byte comparisons.

use vstd::prelude::*;

verus! {

/// A byte string of `n` zero bytes.
pub open spec fn zeros(n: nat) -> Seq<u8> {
    Seq::new(n, |i: int| 0u8)
}

/// A fresh vector of `n` zero bytes.
pub fn zero_vec(n: usize) -> (r: Vec<u8>)
    ensures
        r@ == zeros(n as nat),
{
    let mut out: Vec<u8> = Vec::new();
    let mut i: usize = 0;
    while i < n
        invariant
            i <= n,
            out@ =~= zeros(i as nat),
        decreases n - i,
    {
        out.push(0);
        proof {
            assert(out@ =~= zeros((i + 1) as nat));
        }
        i = i + 1;
    }
    out
}

/// A fresh copy of a byte string.
pub fn copy_bytes(src: &[u8]) -> (r: Vec<u8>)
    ensures
        r@ == src@,
{
    let mut out: Vec<u8> = Vec::new();
    let mut i: usize = 0;
    while i < src.len()
        invariant
            i <= src@.len(),
            out@ =~= src@.take(i as int),
        decreases src@.len() - i,
    {
        out.push(src[i]);
        proof {
            assert(out@ =~= src@.take(i + 1 as int));
        }
        i = i + 1;
    }
    proof {
        assert(src@.take(src@.len() as int) =~= src@);
    }
    out
}

/// Value of a 4-byte big-endian integer.
pub open spec fn be32_val(s: Seq<u8>) -> nat
    recommends
        s.len() == 4,
{
    (s[0] as nat) * 0x1000000 + (s[1] as nat) * 0x10000 + (s[2] as nat) * 0x100 + (s[3] as nat)
}

/// The 8-byte big-endian encoding of `n`.
pub open spec fn be64_bytes(n: nat) -> Seq<u8>
    recommends
        n < 0x1_0000_0000_0000_0000,
{
    seq![
        (n / 0x100_0000_0000_0000 % 0x100) as u8,
        (n / 0x1_0000_0000_0000 % 0x100) as u8,
        (n / 0x100_0000_0000 % 0x100) as u8,
        (n / 0x1_0000_0000 % 0x100) as u8,
        (n / 0x100_0000 % 0x100) as u8,
        (n / 0x1_0000 % 0x100) as u8,
        (n / 0x100 % 0x100) as u8,
        (n % 0x100) as u8,
    ]
}

/// Appends the 8-byte big-endian encoding of `n` to `out`.
pub fn push_be64(out: &mut Vec<u8>, n: u64)
    ensures
        final(out)@ == old(out)@ + be64_bytes(n as nat),
{
    let ghost start = out@;
    out.push((n >> 56) as u8);
    out.push((n >> 48) as u8);
    out.push((n >> 40) as u8);
    out.push((n >> 32) as u8);
    out.push((n >> 24) as u8);
    out.push((n >> 16) as u8);
    out.push((n >> 8) as u8);
    out.push(n as u8);
    proof {
        assert((n >> 56) as u8 == (n as nat / 0x100_0000_0000_0000 % 0x100) as u8
            && (n >> 48) as u8 == (n as nat / 0x1_0000_0000_0000 % 0x100) as u8
            && (n >> 40) as u8 == (n as nat / 0x100_0000_0000 % 0x100) as u8
            && (n >> 32) as u8 == (n as nat / 0x1_0000_0000 % 0x100) as u8
            && (n >> 24) as u8 == (n as nat / 0x100_0000 % 0x100) as u8
            && (n >> 16) as u8 == (n as nat / 0x1_0000 % 0x100) as u8
            && (n >> 8) as u8 == (n as nat / 0x100 % 0x100) as u8
            && n as u8 == (n as nat % 0x100) as u8) by (bit_vector);
        assert(out@ =~= start + be64_bytes(n as nat));
    }
}

/// The decimal digits of `n`, most significant first, with no leading zeros
/// (a single `0` for zero).
pub open spec fn dec_digits(n: nat) -> Seq<u8>
    decreases n,
{
    if n < 10 {
        seq![(48 + n) as u8]
    } else {
        dec_digits(n / 10).push((48 + n % 10) as u8)
    }
}

/// Appends the decimal rendering of `n` to `out`.
pub fn push_dec_u64(out: &mut Vec<u8>, n: u64)
    ensures
        final(out)@ == old(out)@ + dec_digits(n as nat),
    decreases n,
{
    if n < 10 {
        out.push(48 + n as u8);
    } else {
        push_dec_u64(out, n / 10);
        out.push(48 + (n % 10) as u8);
    }
    proof {
        assert(out@ =~= old(out)@ + dec_digits(n as nat));
    }
}

/// The decimal rendering of `n` as a fresh byte string.
pub fn dec_u64(n: u64) -> (r: Vec<u8>)
    ensures
        r@ == dec_digits(n as nat),
{
    let mut out: Vec<u8> = Vec::new();
    push_dec_u64(&mut out, n);
    proof {
        assert(out@ =~= dec_digits(n as nat));
    }
    out
}

/// The lowercase hexadecimal digit for a value below 16.
pub open spec fn hex_digit(n: u8) -> u8
    recommends
        n < 16,
{
    if n < 10 {
        (48 + n) as u8
    } else {
        (87 + n) as u8
    }
}

/// The lowercase hexadecimal rendering of a byte string: two digits per byte.
pub open spec fn hex_of(s: Seq<u8>) -> Seq<u8> {
    Seq::new(
        2 * s.len(),
        |i: int| if i % 2 == 0 {
            hex_digit(s[i / 2] / 16)
        } else {
            hex_digit(s[i / 2] % 16)
        },
    )
}

/// Renders a byte string as lowercase hexadecimal.
pub fn to_hex(s: &Vec<u8>) -> (r: Vec<u8>)
    ensures
        r@ == hex_of(s@),
{
    let mut out: Vec<u8> = Vec::new();
    let mut i: usize = 0;
    while i < s.len()
        invariant
            i <= s.len(),
            out@.len() == 2 * i,
            forall|k: int| 0 <= k < out@.len() ==> out@[k] == hex_of(s@)[k],
        decreases s.len() - i,
    {
        let hi = s[i] / 16;
        let lo = s[i] % 16;
        out.push(if hi < 10 { 48 + hi } else { 87 + hi });
        out.push(if lo < 10 { 48 + lo } else { 87 + lo });
        i = i + 1;
    }
    proof {
        assert(out@ =~= hex_of(s@));
    }
    out
}

/// True iff the two byte strings hold the same bytes.
pub fn bytes_eq(a: &[u8], b: &[u8]) -> (r: bool)
    ensures
        r == (a@ == b@),
{
    if a.len() != b.len() {
        proof {
            assert(a@ != b@);
        }
        return false;
    }
    let mut i: usize = 0;
    while i < a.len()
        invariant
            i <= a.len(),
            a@.len() == b@.len(),
            forall|k: int| 0 <= k < i ==> a@[k] == b@[k],
        decreases a.len() - i,
    {
        if a[i] != b[i] {
            proof {
                assert(a@ != b@);
            }
            return false;
        }
        i = i + 1;
    }
    proof {
        assert(a@ =~= b@);
    }
    true
}

/// Compares two byte strings without an early exit on the first differing
/// byte: the whole of both inputs is always read.
pub fn ct_bytes_eq(a: &[u8], b: &[u8]) -> (r: bool)
    ensures
        r == (a@ == b@),
{
    if a.len() != b.len() {
        proof {
            assert(a@ != b@);
        }
        return false;
    }
    let mut acc: u8 = 0;
    let mut i: usize = 0;
    while i < a.len()
        invariant
            i <= a.len(),
            a@.len() == b@.len(),
            acc == 0 <==> (forall|k: int| 0 <= k < i ==> a@[k] == b@[k]),
        decreases a.len() - i,
    {
        let d = a[i] ^ b[i];
        proof {
            let x = a@[i as int];
            let y = b@[i as int];
            assert((x ^ y) == 0 <==> x == y) by (bit_vector);
            assert(forall|p: u8, q: u8| (p | q) == 0 <==> p == 0 && q == 0) by (bit_vector);
        }
        acc = acc | d;
        i = i + 1;
    }
    if acc == 0 {
        proof {
            assert(a@ =~= b@);
        }
        true
    } else {
        false
    }
}

} // verus!
