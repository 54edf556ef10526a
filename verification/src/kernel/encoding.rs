//! Fixed byte encodings of integers, and the FNV-1a mix over a byte string.

use vstd::prelude::*;

verus! {

/// FNV-1a 64-bit offset basis.
pub const FNV_OFFSET_BASIS: u64 = 0xcbf2_9ce4_8422_2325;

/// FNV-1a 64-bit prime.
pub const FNV_PRIME: u64 = 0x0100_0000_01b3;

/// Byte `i` of `x`, counting from the least significant byte.
pub open spec fn byte_of_u32(x: u32, i: int) -> u8 {
    ((x >> ((8 * i) as u32)) & 0xff) as u8
}

/// Byte `i` of `x`, counting from the least significant byte.
pub open spec fn byte_of_u64(x: u64, i: int) -> u8 {
    ((x >> ((8 * i) as u64)) & 0xff) as u8
}

/// Byte `i` of `x`, counting from the least significant byte.
pub open spec fn byte_of_u128(x: u128, i: int) -> u8 {
    ((x >> ((8 * i) as u128)) & 0xff) as u8
}

/// The four bytes of `x`, least significant first.
pub open spec fn le_bytes_u32(x: u32) -> Seq<u8> {
    Seq::new(4, |i: int| byte_of_u32(x, i))
}

/// The eight bytes of `x`, least significant first.
pub open spec fn le_bytes_u64(x: u64) -> Seq<u8> {
    Seq::new(8, |i: int| byte_of_u64(x, i))
}

/// Byte `i` of `x`, counting from the most significant byte.
pub open spec fn be_byte_of_u128(x: u128, i: int) -> u8 {
    byte_of_u128(x, 15 - i)
}

/// The sixteen bytes of `x`, most significant first.
pub open spec fn be_bytes_u128(x: u128) -> Seq<u8> {
    Seq::new(16, |i: int| be_byte_of_u128(x, i))
}

/// Appends the little-endian bytes of `x` to `buf`.
pub fn push_u32_le(buf: &mut Vec<u8>, x: u32)
    ensures
        final(buf)@ == old(buf)@ + le_bytes_u32(x),
{
    let mut i: u32 = 0;
    while i < 4
        invariant
            0 <= i <= 4,
            buf@.len() == old(buf)@.len() + i,
            forall|j: int| 0 <= j < old(buf)@.len() ==> buf@[j] == old(buf)@[j],
            forall|j: int| 0 <= j < i ==> buf@[old(buf)@.len() + j] == byte_of_u32(x, j),
        decreases 4 - i,
    {
        let b: u8 = ((x >> (8 * i)) & 0xff) as u8;
        buf.push(b);
        i = i + 1;
    }
    assert(buf@ =~= old(buf)@ + le_bytes_u32(x));
}

/// Appends the little-endian bytes of `x` to `buf`.
pub fn push_u64_le(buf: &mut Vec<u8>, x: u64)
    ensures
        final(buf)@ == old(buf)@ + le_bytes_u64(x),
{
    let mut i: u64 = 0;
    while i < 8
        invariant
            0 <= i <= 8,
            buf@.len() == old(buf)@.len() + i,
            forall|j: int| 0 <= j < old(buf)@.len() ==> buf@[j] == old(buf)@[j],
            forall|j: int| 0 <= j < i ==> buf@[old(buf)@.len() + j] == byte_of_u64(x, j),
        decreases 8 - i,
    {
        let b: u8 = ((x >> (8 * i)) & 0xff) as u8;
        buf.push(b);
        i = i + 1;
    }
    assert(buf@ =~= old(buf)@ + le_bytes_u64(x));
}

/// Appends the big-endian bytes of `x` to `buf`.
pub fn push_u128_be(buf: &mut Vec<u8>, x: u128)
    ensures
        final(buf)@ == old(buf)@ + be_bytes_u128(x),
{
    let mut i: u128 = 0;
    while i < 16
        invariant
            0 <= i <= 16,
            buf@.len() == old(buf)@.len() + i,
            forall|j: int| 0 <= j < old(buf)@.len() ==> buf@[j] == old(buf)@[j],
            forall|j: int| 0 <= j < i ==> buf@[old(buf)@.len() + j] == be_byte_of_u128(x, j),
        decreases 16 - i,
    {
        let b: u8 = ((x >> (8 * (15 - i))) & 0xff) as u8;
        buf.push(b);
        i = i + 1;
    }
    assert(buf@ =~= old(buf)@ + be_bytes_u128(x));
}

/// One FNV-1a round: xor the byte into the state, then multiply by the prime
/// modulo 2^64.
pub open spec fn fnv1a_round(h: u64, b: u8) -> u64 {
    (((h ^ (b as u64)) * FNV_PRIME) % 0x1_0000_0000_0000_0000) as u64
}

/// FNV-1a over `bytes`, starting from state `h`.
pub open spec fn fnv1a(h: u64, bytes: Seq<u8>) -> u64
    decreases bytes.len(),
{
    if bytes.len() == 0 {
        h
    } else {
        fnv1a_round(fnv1a(h, bytes.drop_last()), bytes.last())
    }
}

/// Mixes `bytes` into the FNV-1a state `h`.
pub fn fnv1a_mix(h: u64, bytes: &[u8]) -> (out: u64)
    ensures
        out == fnv1a(h, bytes@),
{
    let mut acc: u64 = h;
    let mut i: usize = 0;
    while i < bytes.len()
        invariant
            0 <= i <= bytes@.len(),
            acc == fnv1a(h, bytes@.take(i as int)),
        decreases bytes@.len() - i,
    {
        let b: u8 = bytes[i];
        assert(bytes@.take(i + 1).drop_last() =~= bytes@.take(i as int));
        assert(bytes@.take(i + 1).last() == b);
        acc = (acc ^ (b as u64)).wrapping_mul(FNV_PRIME);
        i = i + 1;
    }
    assert(bytes@.take(i as int) =~= bytes@);
    acc
}

/// Mixing a concatenation is mixing the first part and then the second.
pub proof fn lemma_fnv1a_concat(h: u64, a: Seq<u8>, b: Seq<u8>)
    ensures
        fnv1a(h, a + b) == fnv1a(fnv1a(h, a), b),
    decreases b.len(),
{
    if b.len() == 0 {
        assert(a + b =~= a);
    } else {
        assert((a + b).drop_last() =~= a + b.drop_last());
        assert((a + b).last() == b.last());
        lemma_fnv1a_concat(h, a, b.drop_last());
    }
}

/// Mixes the little-endian bytes of `x` into the FNV-1a state `h`.
pub fn mix_u32_le(h: u64, x: u32) -> (out: u64)
    ensures
        out == fnv1a(h, le_bytes_u32(x)),
{
    let mut acc: u64 = h;
    let mut i: u32 = 0;
    while i < 4
        invariant
            0 <= i <= 4,
            acc == fnv1a(h, le_bytes_u32(x).take(i as int)),
        decreases 4 - i,
    {
        let b: u8 = ((x >> (8 * i)) & 0xff) as u8;
        proof {
            let next = le_bytes_u32(x).take(i + 1);
            assert(next.drop_last() =~= le_bytes_u32(x).take(i as int));
            assert(next.last() == byte_of_u32(x, i as int));
        }
        acc = (acc ^ (b as u64)).wrapping_mul(FNV_PRIME);
        i = i + 1;
    }
    assert(le_bytes_u32(x).take(4) =~= le_bytes_u32(x));
    acc
}

/// Mixes the little-endian bytes of `x` into the FNV-1a state `h`.
pub fn mix_u64_le(h: u64, x: u64) -> (out: u64)
    ensures
        out == fnv1a(h, le_bytes_u64(x)),
{
    let mut acc: u64 = h;
    let mut i: u64 = 0;
    while i < 8
        invariant
            0 <= i <= 8,
            acc == fnv1a(h, le_bytes_u64(x).take(i as int)),
        decreases 8 - i,
    {
        let b: u8 = ((x >> (8 * i)) & 0xff) as u8;
        proof {
            let next = le_bytes_u64(x).take(i + 1);
            assert(next.drop_last() =~= le_bytes_u64(x).take(i as int));
            assert(next.last() == byte_of_u64(x, i as int));
        }
        acc = (acc ^ (b as u64)).wrapping_mul(FNV_PRIME);
        i = i + 1;
    }
    assert(le_bytes_u64(x).take(8) =~= le_bytes_u64(x));
    acc
}

/// Mixes the big-endian bytes of `x` into the FNV-1a state `h`.
pub fn mix_u128_be(h: u64, x: u128) -> (out: u64)
    ensures
        out == fnv1a(h, be_bytes_u128(x)),
{
    let mut acc: u64 = h;
    let mut i: u128 = 0;
    while i < 16
        invariant
            0 <= i <= 16,
            acc == fnv1a(h, be_bytes_u128(x).take(i as int)),
        decreases 16 - i,
    {
        let b: u8 = ((x >> (8 * (15 - i))) & 0xff) as u8;
        proof {
            let next = be_bytes_u128(x).take(i + 1);
            assert(next.drop_last() =~= be_bytes_u128(x).take(i as int));
            assert(next.last() == be_byte_of_u128(x, i as int));
        }
        acc = (acc ^ (b as u64)).wrapping_mul(FNV_PRIME);
        i = i + 1;
    }
    assert(be_bytes_u128(x).take(16) =~= be_bytes_u128(x));
    acc
}

} // verus!
