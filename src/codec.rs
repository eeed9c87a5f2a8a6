//! Fixed-width big-endian integer fields.

use vstd::prelude::*;

verus! {

/// Big-endian bytes of a 64-bit value.
pub open spec fn be64_of(x: u64) -> Seq<u8> {
    seq![
        ((x >> 56u64) & 0xff) as u8, ((x >> 48u64) & 0xff) as u8,
        ((x >> 40u64) & 0xff) as u8, ((x >> 32u64) & 0xff) as u8,
        ((x >> 24u64) & 0xff) as u8, ((x >> 16u64) & 0xff) as u8,
        ((x >> 8u64) & 0xff) as u8, (x & 0xff) as u8,
    ]
}

/// The value that eight big-endian bytes spell.
pub open spec fn be64_value(b: Seq<u8>) -> u64 {
    ((b[0] as u64) << 56u64) | ((b[1] as u64) << 48u64) | ((b[2] as u64) << 40u64) | ((b[3] as u64) << 32u64)
        | ((b[4] as u64) << 24u64) | ((b[5] as u64) << 16u64) | ((b[6] as u64) << 8u64) | (b[7] as u64)
}

/// Reading back the bytes of a value gives the value.
pub proof fn lemma_be64_round_trip(x: u64)
    ensures
        be64_value(be64_of(x)) == x,
{
    let b0 = ((x >> 56u64) & 0xff) as u8;
    let b1 = ((x >> 48u64) & 0xff) as u8;
    let b2 = ((x >> 40u64) & 0xff) as u8;
    let b3 = ((x >> 32u64) & 0xff) as u8;
    let b4 = ((x >> 24u64) & 0xff) as u8;
    let b5 = ((x >> 16u64) & 0xff) as u8;
    let b6 = ((x >> 8u64) & 0xff) as u8;
    let b7 = (x & 0xff) as u8;
    assert(((b0 as u64) << 56u64) | ((b1 as u64) << 48u64) | ((b2 as u64) << 40u64) | ((b3 as u64) << 32u64)
        | ((b4 as u64) << 24u64) | ((b5 as u64) << 16u64) | ((b6 as u64) << 8u64) | (b7 as u64) == x) by (bit_vector)
        requires
            b0 == ((x >> 56u64) & 0xff) as u8,
            b1 == ((x >> 48u64) & 0xff) as u8,
            b2 == ((x >> 40u64) & 0xff) as u8,
            b3 == ((x >> 32u64) & 0xff) as u8,
            b4 == ((x >> 24u64) & 0xff) as u8,
            b5 == ((x >> 16u64) & 0xff) as u8,
            b6 == ((x >> 8u64) & 0xff) as u8,
            b7 == (x & 0xff) as u8,
    ;
}


/// Writing the value that eight bytes spell gives the same bytes.
pub proof fn lemma_be64_bytes_round_trip(b: Seq<u8>)
    requires
        b.len() == 8,
    ensures
        be64_of(be64_value(b)) == b,
{
    let (b0, b1, b2, b3, b4, b5, b6, b7) = (b[0], b[1], b[2], b[3], b[4], b[5], b[6], b[7]);
    let x = be64_value(b);
    assert(((x >> 56u64) & 0xff) as u8 == b0 && ((x >> 48u64) & 0xff) as u8 == b1
        && ((x >> 40u64) & 0xff) as u8 == b2 && ((x >> 32u64) & 0xff) as u8 == b3
        && ((x >> 24u64) & 0xff) as u8 == b4 && ((x >> 16u64) & 0xff) as u8 == b5
        && ((x >> 8u64) & 0xff) as u8 == b6 && (x & 0xff) as u8 == b7) by (bit_vector)
        requires
            x == ((b0 as u64) << 56u64) | ((b1 as u64) << 48u64) | ((b2 as u64) << 40u64) | ((b3 as u64) << 32u64)
                | ((b4 as u64) << 24u64) | ((b5 as u64) << 16u64) | ((b6 as u64) << 8u64) | (b7 as u64),
    ;
    assert(be64_of(x) =~= b);
}

/// High half of a 128-bit value.
pub open spec fn hi64(x: u128) -> u64 {
    (x >> 64u128) as u64
}

/// Low half of a 128-bit value.
pub open spec fn lo64(x: u128) -> u64 {
    (x & 0xffff_ffff_ffff_ffffu128) as u64
}

/// The 128-bit value made of two halves.
pub open spec fn join64(hi: u64, lo: u64) -> u128 {
    ((hi as u128) << 64u128) | (lo as u128)
}

/// Big-endian bytes of a 128-bit value.
pub open spec fn be128_of(x: u128) -> Seq<u8> {
    be64_of(hi64(x)) + be64_of(lo64(x))
}

/// The value that sixteen big-endian bytes spell.
pub open spec fn be128_value(b: Seq<u8>) -> u128 {
    join64(be64_value(b.subrange(0, 8)), be64_value(b.subrange(8, 16)))
}

pub proof fn lemma_halves(x: u128, hi: u64, lo: u64)
    ensures
        join64(hi64(x), lo64(x)) == x,
        hi64(join64(hi, lo)) == hi,
        lo64(join64(hi, lo)) == lo,
{
    assert((((x >> 64u128) as u64) as u128) << 64u128 | (((x & 0xffff_ffff_ffff_ffffu128) as u64) as u128) == x) by (bit_vector);
    assert(((((hi as u128) << 64u128) | (lo as u128)) >> 64u128) as u64 == hi) by (bit_vector);
    assert(((((hi as u128) << 64u128) | (lo as u128)) & 0xffff_ffff_ffff_ffffu128) as u64 == lo) by (bit_vector);
}

/// Reading back the bytes of a 128-bit value gives the value.
pub proof fn lemma_be128_round_trip(x: u128)
    ensures
        be128_value(be128_of(x)) == x,
{
    let b = be128_of(x);
    assert(b.subrange(0, 8) =~= be64_of(hi64(x)));
    assert(b.subrange(8, 16) =~= be64_of(lo64(x)));
    lemma_be64_round_trip(hi64(x));
    lemma_be64_round_trip(lo64(x));
    lemma_halves(x, 0, 0);
}

/// Writing the value that sixteen bytes spell gives the same bytes.
pub proof fn lemma_be128_bytes_round_trip(b: Seq<u8>)
    requires
        b.len() == 16,
    ensures
        be128_of(be128_value(b)) == b,
{
    let hi = be64_value(b.subrange(0, 8));
    let lo = be64_value(b.subrange(8, 16));
    lemma_halves(0, hi, lo);
    lemma_be64_bytes_round_trip(b.subrange(0, 8));
    lemma_be64_bytes_round_trip(b.subrange(8, 16));
    assert(be128_of(be128_value(b)) =~= b);
}

/// Appends the big-endian bytes of a 64-bit value.
pub fn push_be64(out: &mut Vec<u8>, x: u64)
    ensures
        final(out)@ == old(out)@ + be64_of(x),
{
    out.push(((x >> 56u64) & 0xff) as u8);
    out.push(((x >> 48u64) & 0xff) as u8);
    out.push(((x >> 40u64) & 0xff) as u8);
    out.push(((x >> 32u64) & 0xff) as u8);
    out.push(((x >> 24u64) & 0xff) as u8);
    out.push(((x >> 16u64) & 0xff) as u8);
    out.push(((x >> 8u64) & 0xff) as u8);
    out.push((x & 0xff) as u8);
    assert(final(out)@ =~= old(out)@ + be64_of(x));
}

/// Appends the big-endian bytes of a 128-bit value.
pub fn push_be128(out: &mut Vec<u8>, x: u128)
    ensures
        final(out)@ == old(out)@ + be128_of(x),
{
    push_be64(out, (x >> 64u128) as u64);
    push_be64(out, (x & 0xffff_ffff_ffff_ffffu128) as u64);
    assert(final(out)@ =~= old(out)@ + be128_of(x));
}

/// Reads eight big-endian bytes at `at`.
pub fn read_be64(b: &[u8], at: usize) -> (r: u64)
    requires
        at + 8 <= b@.len(),
    ensures
        r == be64_value(b@.subrange(at as int, at + 8)),
{
    let ghost s = b@.subrange(at as int, at + 8);
    assert(s[0] == b@[at as int] && s[7] == b@[at + 7]);
    ((b[at] as u64) << 56u64) | ((b[at + 1] as u64) << 48u64) | ((b[at + 2] as u64) << 40u64)
        | ((b[at + 3] as u64) << 32u64) | ((b[at + 4] as u64) << 24u64) | ((b[at + 5] as u64) << 16u64)
        | ((b[at + 6] as u64) << 8u64) | (b[at + 7] as u64)
}

/// Reads sixteen big-endian bytes at `at`.
pub fn read_be128(b: &[u8], at: usize) -> (r: u128)
    requires
        at + 16 <= b@.len(),
    ensures
        r == be128_value(b@.subrange(at as int, at + 16)),
{
    let n = b.len();
    assert(at + 8 < n);
    let hi = read_be64(b, at);
    let lo = read_be64(b, at + 8);
    let ghost s = b@.subrange(at as int, at + 16);
    assert(s.subrange(0, 8) =~= b@.subrange(at as int, at + 8));
    assert(s.subrange(8, 16) =~= b@.subrange(at + 8, at + 16));
    ((hi as u128) << 64u128) | (lo as u128)
}

} // verus!
