//! Network (big-endian) byte order of the address payloads.
use vstd::prelude::*;

verus! {

/// The four bytes of `v`, most significant first.
pub open spec fn u32_be(v: u32) -> Seq<u8> {
    seq![
        ((v >> 24u32) & 0xff) as u8,
        ((v >> 16u32) & 0xff) as u8,
        ((v >> 8u32) & 0xff) as u8,
        (v & 0xff) as u8,
    ]
}

/// The number whose bytes, most significant first, are `b0 b1 b2 b3`.
pub open spec fn u32_of_be(b0: u8, b1: u8, b2: u8, b3: u8) -> u32 {
    (b0 as u32) << 24u32 | (b1 as u32) << 16u32 | (b2 as u32) << 8u32 | (b3 as u32)
}

/// The eight bytes of `v`, most significant first.
pub open spec fn u64_be(v: u64) -> Seq<u8> {
    seq![
        ((v >> 56u64) & 0xff) as u8,
        ((v >> 48u64) & 0xff) as u8,
        ((v >> 40u64) & 0xff) as u8,
        ((v >> 32u64) & 0xff) as u8,
        ((v >> 24u64) & 0xff) as u8,
        ((v >> 16u64) & 0xff) as u8,
        ((v >> 8u64) & 0xff) as u8,
        (v & 0xff) as u8,
    ]
}

/// The number whose eight bytes, most significant first, are `b`.
pub open spec fn u64_of_be(b: Seq<u8>) -> u64 {
    (b[0] as u64) << 56u64 | (b[1] as u64) << 48u64 | (b[2] as u64) << 40u64 | (b[3] as u64)
        << 32u64 | (b[4] as u64) << 24u64 | (b[5] as u64) << 16u64 | (b[6] as u64) << 8u64 | (
    b[7] as u64)
}

/// The sixteen bytes of `v`, most significant first.
pub open spec fn u128_be(v: u128) -> Seq<u8> {
    u64_be((v >> 64u128) as u64) + u64_be((v & 0xffff_ffff_ffff_ffff) as u64)
}

/// The number whose sixteen bytes, most significant first, are `b`.
pub open spec fn u128_of_be(b: Seq<u8>) -> u128 {
    (u64_of_be(b.take(8)) as u128) << 64u128 | (u64_of_be(b.subrange(8, 16)) as u128)
}

pub proof fn lemma_u32_be_round_trip(v: u32)
    ensures
        u32_of_be(u32_be(v)[0], u32_be(v)[1], u32_be(v)[2], u32_be(v)[3]) == v,
{
    assert(u32_of_be(
        ((v >> 24u32) & 0xff) as u8,
        ((v >> 16u32) & 0xff) as u8,
        ((v >> 8u32) & 0xff) as u8,
        (v & 0xff) as u8,
    ) == v) by (bit_vector);
}

pub proof fn lemma_u32_bytes_round_trip(b0: u8, b1: u8, b2: u8, b3: u8)
    ensures
        u32_be(u32_of_be(b0, b1, b2, b3)) == seq![b0, b1, b2, b3],
{
    let v = u32_of_be(b0, b1, b2, b3);
    assert(((v >> 24u32) & 0xff) as u8 == b0 && ((v >> 16u32) & 0xff) as u8 == b1 && ((v
        >> 8u32) & 0xff) as u8 == b2 && (v & 0xff) as u8 == b3) by (bit_vector)
        requires
            v == (b0 as u32) << 24u32 | (b1 as u32) << 16u32 | (b2 as u32) << 8u32 | (b3 as u32),
    ;
    assert(u32_be(v) =~= seq![b0, b1, b2, b3]);
}

pub proof fn lemma_u64_be_round_trip(v: u64)
    ensures
        u64_of_be(u64_be(v)) == v,
{
    let b = u64_be(v);
    let (b0, b1, b2, b3, b4, b5, b6, b7) = (b[0], b[1], b[2], b[3], b[4], b[5], b[6], b[7]);
    assert(((b0 as u64) << 56u64 | (b1 as u64) << 48u64 | (b2 as u64) << 40u64 | (b3 as u64)
        << 32u64 | (b4 as u64) << 24u64 | (b5 as u64) << 16u64 | (b6 as u64) << 8u64 | (
    b7 as u64)) == v) by (bit_vector)
        requires
            b0 == ((v >> 56u64) & 0xff) as u8,
            b1 == ((v >> 48u64) & 0xff) as u8,
            b2 == ((v >> 40u64) & 0xff) as u8,
            b3 == ((v >> 32u64) & 0xff) as u8,
            b4 == ((v >> 24u64) & 0xff) as u8,
            b5 == ((v >> 16u64) & 0xff) as u8,
            b6 == ((v >> 8u64) & 0xff) as u8,
            b7 == (v & 0xff) as u8,
    ;
}

pub proof fn lemma_u64_bytes_round_trip(b: Seq<u8>)
    requires
        b.len() == 8,
    ensures
        u64_be(u64_of_be(b)) == b,
{
    let v = u64_of_be(b);
    let (b0, b1, b2, b3, b4, b5, b6, b7) = (b[0], b[1], b[2], b[3], b[4], b[5], b[6], b[7]);
    assert(b0 == ((v >> 56u64) & 0xff) as u8 && b1 == ((v >> 48u64) & 0xff) as u8 && b2 == ((v
        >> 40u64) & 0xff) as u8 && b3 == ((v >> 32u64) & 0xff) as u8 && b4 == ((v >> 24u64)
        & 0xff) as u8 && b5 == ((v >> 16u64) & 0xff) as u8 && b6 == ((v >> 8u64) & 0xff) as u8
        && b7 == (v & 0xff) as u8) by (bit_vector)
        requires
            v == (b0 as u64) << 56u64 | (b1 as u64) << 48u64 | (b2 as u64) << 40u64 | (
            b3 as u64) << 32u64 | (b4 as u64) << 24u64 | (b5 as u64) << 16u64 | (b6 as u64)
                << 8u64 | (b7 as u64),
    ;
    assert(u64_be(v) =~= b);
}

pub proof fn lemma_u128_be_round_trip(v: u128)
    ensures
        u128_be(v).len() == 16,
        u128_of_be(u128_be(v)) == v,
{
    let hi = (v >> 64u128) as u64;
    let lo = (v & 0xffff_ffff_ffff_ffff) as u64;
    let b = u128_be(v);
    assert(b.take(8) =~= u64_be(hi));
    assert(b.subrange(8, 16) =~= u64_be(lo));
    lemma_u64_be_round_trip(hi);
    lemma_u64_be_round_trip(lo);
    assert(((hi as u128) << 64u128 | (lo as u128)) == v) by (bit_vector)
        requires
            hi == (v >> 64u128) as u64,
            lo == (v & 0xffff_ffff_ffff_ffff) as u64,
    ;
}

pub proof fn lemma_u128_bytes_round_trip(b: Seq<u8>)
    requires
        b.len() == 16,
    ensures
        u128_be(u128_of_be(b)) == b,
{
    let hi = u64_of_be(b.take(8));
    let lo = u64_of_be(b.subrange(8, 16));
    let v = u128_of_be(b);
    assert((v >> 64u128) as u64 == hi && (v & 0xffff_ffff_ffff_ffff) as u64 == lo) by (bit_vector)
        requires
            v == (hi as u128) << 64u128 | (lo as u128),
    ;
    lemma_u64_bytes_round_trip(b.take(8));
    lemma_u64_bytes_round_trip(b.subrange(8, 16));
    assert(u128_be(v) =~= b);
}

/// The network-order bytes of `v`.
pub fn u32_to_be(v: u32) -> (r: [u8; 4])
    ensures
        r@ == u32_be(v),
{
    let r = [
        ((v >> 24u32) & 0xff) as u8,
        ((v >> 16u32) & 0xff) as u8,
        ((v >> 8u32) & 0xff) as u8,
        (v & 0xff) as u8,
    ];
    assert(r@ =~= u32_be(v));
    r
}

/// The network-order bytes of `v`.
pub fn u64_to_be(v: u64) -> (r: [u8; 8])
    ensures
        r@ == u64_be(v),
{
    let r = [
        ((v >> 56u64) & 0xff) as u8,
        ((v >> 48u64) & 0xff) as u8,
        ((v >> 40u64) & 0xff) as u8,
        ((v >> 32u64) & 0xff) as u8,
        ((v >> 24u64) & 0xff) as u8,
        ((v >> 16u64) & 0xff) as u8,
        ((v >> 8u64) & 0xff) as u8,
        (v & 0xff) as u8,
    ];
    assert(r@ =~= u64_be(v));
    r
}

/// The number whose eight network-order bytes start at `at` in `b`.
pub fn u64_from_be(b: &[u8; 16], at: usize) -> (r: u64)
    requires
        at + 8 <= 16,
    ensures
        r == u64_of_be(b@.subrange(at as int, at + 8)),
{
    (b[at] as u64) << 56u64 | (b[at + 1] as u64) << 48u64 | (b[at + 2] as u64) << 40u64 | (b[at
        + 3] as u64) << 32u64 | (b[at + 4] as u64) << 24u64 | (b[at + 5] as u64) << 16u64 | (b[at
        + 6] as u64) << 8u64 | (b[at + 7] as u64)
}

} // verus!
