//! Fixed-width big-endian integers, as they cross the host boundary.

use vstd::prelude::*;

verus! {

/// The eight bytes of `v`, most significant first.
pub open spec fn u64_be_bytes(v: u64) -> Seq<u8> {
    seq![
        (v / 0x100_0000_0000_0000) as u8,
        (v / 0x1_0000_0000_0000 % 0x100) as u8,
        (v / 0x100_0000_0000 % 0x100) as u8,
        (v / 0x1_0000_0000 % 0x100) as u8,
        (v / 0x100_0000 % 0x100) as u8,
        (v / 0x1_0000 % 0x100) as u8,
        (v / 0x100 % 0x100) as u8,
        (v % 0x100) as u8,
    ]
}

/// The number that eight bytes spell, most significant first.
pub open spec fn be_bytes_u64(b: Seq<u8>) -> u64
    recommends
        b.len() == 8,
{
    (b[0] * 0x100_0000_0000_0000 + b[1] * 0x1_0000_0000_0000 + b[2] * 0x100_0000_0000 + b[3]
        * 0x1_0000_0000 + b[4] * 0x100_0000 + b[5] * 0x1_0000 + b[6] * 0x100 + b[7]) as u64
}

/// The eight bytes of `v` in two's complement, most significant first.
pub open spec fn i64_be_bytes(v: i64) -> Seq<u8> {
    u64_be_bytes(v as u64)
}

/// The signed number that eight bytes spell in two's complement.
pub open spec fn be_bytes_i64(b: Seq<u8>) -> i64
    recommends
        b.len() == 8,
{
    be_bytes_u64(b) as i64
}

/// Reading back the bytes of a number gives the number.
pub proof fn lemma_u64_be_round_trip(v: u64)
    ensures
        u64_be_bytes(v).len() == 8,
        be_bytes_u64(u64_be_bytes(v)) == v,
{
    let b = u64_be_bytes(v);
    assert(b[0] == (v / 0x100_0000_0000_0000) as u8);
    assert(b[1] == (v / 0x1_0000_0000_0000 % 0x100) as u8);
    assert(b[2] == (v / 0x100_0000_0000 % 0x100) as u8);
    assert(b[3] == (v / 0x1_0000_0000 % 0x100) as u8);
    assert(b[4] == (v / 0x100_0000 % 0x100) as u8);
    assert(b[5] == (v / 0x1_0000 % 0x100) as u8);
    assert(b[6] == (v / 0x100 % 0x100) as u8);
    assert(b[7] == (v % 0x100) as u8);
    assert(((v / 0x100_0000_0000_0000) as u8) * 0x100_0000_0000_0000 + ((v / 0x1_0000_0000_0000
        % 0x100) as u8) * 0x1_0000_0000_0000 + ((v / 0x100_0000_0000 % 0x100) as u8)
        * 0x100_0000_0000 + ((v / 0x1_0000_0000 % 0x100) as u8) * 0x1_0000_0000 + ((v / 0x100_0000
        % 0x100) as u8) * 0x100_0000 + ((v / 0x1_0000 % 0x100) as u8) * 0x1_0000 + ((v / 0x100
        % 0x100) as u8) * 0x100 + ((v % 0x100) as u8) == v) by (bit_vector);
}

/// Writing out the number that eight bytes spell gives the bytes.
pub proof fn lemma_be_u64_round_trip(b: Seq<u8>)
    requires
        b.len() == 8,
    ensures
        u64_be_bytes(be_bytes_u64(b)) == b,
{
    let (b0, b1, b2, b3, b4, b5, b6, b7) = (b[0], b[1], b[2], b[3], b[4], b[5], b[6], b[7]);
    let v = be_bytes_u64(b);
    assert({
        let v = (b0 * 0x100_0000_0000_0000 + b1 * 0x1_0000_0000_0000 + b2 * 0x100_0000_0000 + b3
            * 0x1_0000_0000 + b4 * 0x100_0000 + b5 * 0x1_0000 + b6 * 0x100 + b7) as u64;
        &&& (v / 0x100_0000_0000_0000) as u8 == b0
        &&& (v / 0x1_0000_0000_0000 % 0x100) as u8 == b1
        &&& (v / 0x100_0000_0000 % 0x100) as u8 == b2
        &&& (v / 0x1_0000_0000 % 0x100) as u8 == b3
        &&& (v / 0x100_0000 % 0x100) as u8 == b4
        &&& (v / 0x1_0000 % 0x100) as u8 == b5
        &&& (v / 0x100 % 0x100) as u8 == b6
        &&& (v % 0x100) as u8 == b7
    }) by (bit_vector);
    assert(u64_be_bytes(v) =~= b);
}

/// Two's complement is a one-to-one reading of sixty-four bits.
pub proof fn lemma_i64_u64_round_trip(v: i64, u: u64)
    ensures
        (v as u64) as i64 == v,
        (u as i64) as u64 == u,
{
    assert((v as u64) as i64 == v) by (bit_vector);
    assert((u as i64) as u64 == u) by (bit_vector);
}

/// Writes `v` as eight bytes, most significant first.
pub fn u64_to_be_bytes(v: u64) -> (out: Vec<u8>)
    ensures
        out@ == u64_be_bytes(v),
{
    let mut out: Vec<u8> = Vec::with_capacity(8);
    out.push((v >> 56) as u8);
    out.push(((v >> 48) & 0xff) as u8);
    out.push(((v >> 40) & 0xff) as u8);
    out.push(((v >> 32) & 0xff) as u8);
    out.push(((v >> 24) & 0xff) as u8);
    out.push(((v >> 16) & 0xff) as u8);
    out.push(((v >> 8) & 0xff) as u8);
    out.push((v & 0xff) as u8);
    proof {
        assert({
            &&& (v >> 56) as u8 == (v / 0x100_0000_0000_0000) as u8
            &&& ((v >> 48) & 0xff) as u8 == (v / 0x1_0000_0000_0000 % 0x100) as u8
            &&& ((v >> 40) & 0xff) as u8 == (v / 0x100_0000_0000 % 0x100) as u8
            &&& ((v >> 32) & 0xff) as u8 == (v / 0x1_0000_0000 % 0x100) as u8
            &&& ((v >> 24) & 0xff) as u8 == (v / 0x100_0000 % 0x100) as u8
            &&& ((v >> 16) & 0xff) as u8 == (v / 0x1_0000 % 0x100) as u8
            &&& ((v >> 8) & 0xff) as u8 == (v / 0x100 % 0x100) as u8
            &&& (v & 0xff) as u8 == (v % 0x100) as u8
        }) by (bit_vector);
        assert(out@ =~= u64_be_bytes(v));
    }
    out
}

/// Reads eight bytes, most significant first, as a number.
pub fn u64_from_be_bytes(b: &[u8]) -> (v: u64)
    requires
        b@.len() == 8,
    ensures
        v == be_bytes_u64(b@),
{
    let (b0, b1, b2, b3, b4, b5, b6, b7) = (b[0], b[1], b[2], b[3], b[4], b[5], b[6], b[7]);
    let v: u64 = ((b0 as u64) << 56) | ((b1 as u64) << 48) | ((b2 as u64) << 40) | ((b3 as u64)
        << 32) | ((b4 as u64) << 24) | ((b5 as u64) << 16) | ((b6 as u64) << 8) | (b7 as u64);
    proof {
        assert(((b0 as u64) << 56) | ((b1 as u64) << 48) | ((b2 as u64) << 40) | ((b3 as u64)
            << 32) | ((b4 as u64) << 24) | ((b5 as u64) << 16) | ((b6 as u64) << 8) | (b7 as u64)
            == (b0 * 0x100_0000_0000_0000 + b1 * 0x1_0000_0000_0000 + b2 * 0x100_0000_0000 + b3
            * 0x1_0000_0000 + b4 * 0x100_0000 + b5 * 0x1_0000 + b6 * 0x100 + b7) as u64)
            by (bit_vector);
    }
    v
}

/// Writes `v` as eight bytes in two's complement, most significant first.
pub fn i64_to_be_bytes(v: i64) -> (out: Vec<u8>)
    ensures
        out@ == i64_be_bytes(v),
{
    u64_to_be_bytes(#[verifier::truncate] (v as u64))
}

/// Reads eight bytes in two's complement, most significant first.
pub fn i64_from_be_bytes(b: &[u8]) -> (v: i64)
    requires
        b@.len() == 8,
    ensures
        v == be_bytes_i64(b@),
{
    #[verifier::truncate]
    (u64_from_be_bytes(b) as i64)
}

} // verus!
