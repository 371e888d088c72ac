//! Big-endian integer fields of the TLS and gRPC wire formats.

use vstd::prelude::*;

verus! {

/// Value of a 16-bit big-endian field with bytes `b0 b1`.
pub open spec fn be16(b0: u8, b1: u8) -> int {
    b0 * 0x100 + b1
}

/// Value of a 24-bit big-endian field with bytes `b0 b1 b2`.
pub open spec fn be24(b0: u8, b1: u8, b2: u8) -> int {
    b0 * 0x10000 + b1 * 0x100 + b2
}

/// Value of a 32-bit big-endian field with bytes `b0 b1 b2 b3`.
pub open spec fn be32(b0: u8, b1: u8, b2: u8, b3: u8) -> int {
    b0 * 0x1000000 + b1 * 0x10000 + b2 * 0x100 + b3
}

/// The two big-endian bytes of a 16-bit value.
pub open spec fn be16_bytes(x: u16) -> Seq<u8> {
    seq![(x / 0x100) as u8, (x % 0x100) as u8]
}

/// The three big-endian bytes of a value below 2^24.
pub open spec fn be24_bytes(x: u32) -> Seq<u8> {
    seq![(x / 0x10000 % 0x100) as u8, (x / 0x100 % 0x100) as u8, (x % 0x100) as u8]
}

/// The four big-endian bytes of a 32-bit value.
pub open spec fn be32_bytes(x: u32) -> Seq<u8> {
    seq![
        (x / 0x1000000) as u8,
        (x / 0x10000 % 0x100) as u8,
        (x / 0x100 % 0x100) as u8,
        (x % 0x100) as u8,
    ]
}

/// The eight big-endian bytes of a 64-bit value.
pub open spec fn be64_bytes(x: u64) -> Seq<u8> {
    seq![
        (x / 0x100000000000000) as u8,
        (x / 0x1000000000000 % 0x100) as u8,
        (x / 0x10000000000 % 0x100) as u8,
        (x / 0x100000000 % 0x100) as u8,
        (x / 0x1000000 % 0x100) as u8,
        (x / 0x10000 % 0x100) as u8,
        (x / 0x100 % 0x100) as u8,
        (x % 0x100) as u8,
    ]
}

/// Appends the 16-bit big-endian encoding of `x`.
pub fn put_u16(buf: &mut Vec<u8>, x: u16)
    ensures
        final(buf)@ == old(buf)@ + be16_bytes(x),
{
    buf.push((x / 0x100) as u8);
    buf.push((x % 0x100) as u8);
    assert(buf@ =~= old(buf)@ + be16_bytes(x));
}

/// Appends the 24-bit big-endian encoding of `x`.
pub fn put_u24(buf: &mut Vec<u8>, x: u32)
    requires
        x < 0x1000000,
    ensures
        final(buf)@ == old(buf)@ + be24_bytes(x),
{
    buf.push((x / 0x10000 % 0x100) as u8);
    buf.push((x / 0x100 % 0x100) as u8);
    buf.push((x % 0x100) as u8);
    assert(buf@ =~= old(buf)@ + be24_bytes(x));
}

/// Appends the 32-bit big-endian encoding of `x`.
pub fn put_u32(buf: &mut Vec<u8>, x: u32)
    ensures
        final(buf)@ == old(buf)@ + be32_bytes(x),
{
    buf.push((x / 0x1000000) as u8);
    buf.push((x / 0x10000 % 0x100) as u8);
    buf.push((x / 0x100 % 0x100) as u8);
    buf.push((x % 0x100) as u8);
    assert(buf@ =~= old(buf)@ + be32_bytes(x));
}

/// Reads the 16-bit big-endian field at `i`.
pub fn read_u16(buf: &Vec<u8>, i: usize) -> (x: u16)
    requires
        i + 2 <= buf@.len(),
    ensures
        x == be16(buf@[i as int], buf@[i + 1]),
{
    let _n: usize = buf.len();
    buf[i] as u16 * 0x100 + buf[i + 1] as u16
}

/// Reads the 24-bit big-endian field at `i`.
pub fn read_u24(buf: &Vec<u8>, i: usize) -> (x: u32)
    requires
        i + 3 <= buf@.len(),
    ensures
        x == be24(buf@[i as int], buf@[i + 1], buf@[i + 2]),
{
    let _n: usize = buf.len();
    buf[i] as u32 * 0x10000 + buf[i + 1] as u32 * 0x100 + buf[i + 2] as u32
}

/// Reads the 32-bit big-endian field at `i`.
pub fn read_u32(buf: &Vec<u8>, i: usize) -> (x: u32)
    requires
        i + 4 <= buf@.len(),
    ensures
        x == be32(buf@[i as int], buf@[i + 1], buf@[i + 2], buf@[i + 3]),
{
    let _n: usize = buf.len();
    buf[i] as u32 * 0x1000000 + buf[i + 1] as u32 * 0x10000 + buf[i + 2] as u32 * 0x100
        + buf[i + 3] as u32
}

/// Appends all of `src` to `dst`.
pub fn extend_bytes(dst: &mut Vec<u8>, src: &Vec<u8>)
    ensures
        final(dst)@ == old(dst)@ + src@,
{
    let mut i: usize = 0;
    while i < src.len()
        invariant
            i <= src@.len(),
            dst@ == old(dst)@ + src@.subrange(0, i as int),
        decreases src@.len() - i,
    {
        dst.push(src[i]);
        assert(dst@ =~= old(dst)@ + src@.subrange(0, i + 1));
        i = i + 1;
    }
    assert(dst@ =~= old(dst)@ + src@);
}

/// Copies the bytes of `src` from `start` to `end` into a new vector.
pub fn sub_vec(src: &Vec<u8>, start: usize, end: usize) -> (r: Vec<u8>)
    requires
        start <= end <= src@.len(),
    ensures
        r@ == src@.subrange(start as int, end as int),
{
    let mut r: Vec<u8> = Vec::new();
    let mut i: usize = start;
    while i < end
        invariant
            start <= i <= end <= src@.len(),
            r@ == src@.subrange(start as int, i as int),
        decreases end - i,
    {
        r.push(src[i]);
        assert(r@ =~= src@.subrange(start as int, i + 1));
        i = i + 1;
    }
    r
}

/// Round-trip: the bytes written by `be16_bytes` read back as the value.
pub proof fn lemma_be16_round_trip(x: u16)
    ensures
        be16(be16_bytes(x)[0], be16_bytes(x)[1]) == x,
{
}

/// Round-trip for 32-bit fields.
pub proof fn lemma_be32_round_trip(x: u32)
    ensures
        be32(be32_bytes(x)[0], be32_bytes(x)[1], be32_bytes(x)[2], be32_bytes(x)[3]) == x,
{
}

/// Two distinct 64-bit values have distinct big-endian encodings.
pub proof fn lemma_be64_injective(x: u64, y: u64)
    requires
        be64_bytes(x) == be64_bytes(y),
    ensures
        x == y,
{
    assert((x / 0x100000000000000) as u8 == (y / 0x100000000000000) as u8
        && (x / 0x1000000000000 % 0x100) as u8 == (y / 0x1000000000000 % 0x100) as u8
        && (x / 0x10000000000 % 0x100) as u8 == (y / 0x10000000000 % 0x100) as u8
        && (x / 0x100000000 % 0x100) as u8 == (y / 0x100000000 % 0x100) as u8
        && (x / 0x1000000 % 0x100) as u8 == (y / 0x1000000 % 0x100) as u8
        && (x / 0x10000 % 0x100) as u8 == (y / 0x10000 % 0x100) as u8
        && (x / 0x100 % 0x100) as u8 == (y / 0x100 % 0x100) as u8
        && (x % 0x100) as u8 == (y % 0x100) as u8 ==> x == y) by (bit_vector);
    assert(be64_bytes(x)[0] == be64_bytes(y)[0]);
    assert(be64_bytes(x)[1] == be64_bytes(y)[1]);
    assert(be64_bytes(x)[2] == be64_bytes(y)[2]);
    assert(be64_bytes(x)[3] == be64_bytes(y)[3]);
    assert(be64_bytes(x)[4] == be64_bytes(y)[4]);
    assert(be64_bytes(x)[5] == be64_bytes(y)[5]);
    assert(be64_bytes(x)[6] == be64_bytes(y)[6]);
    assert(be64_bytes(x)[7] == be64_bytes(y)[7]);
}

} // verus!
