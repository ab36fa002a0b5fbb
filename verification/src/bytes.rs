//! Little-endian encoding of integers, the byte order of every
//! multi-byte field on a GPT disk.

use vstd::prelude::*;

verus! {

/// The two bytes of `x`, least significant first.
pub open spec fn u16_le(x: u16) -> Seq<u8> {
    seq![(x % 0x100) as u8, (x / 0x100) as u8]
}

/// The four bytes of `x`, least significant first.
pub open spec fn u32_le(x: u32) -> Seq<u8> {
    seq![
        (x % 0x100) as u8,
        (x / 0x100 % 0x100) as u8,
        (x / 0x1_0000 % 0x100) as u8,
        (x / 0x100_0000) as u8,
    ]
}

/// The eight bytes of `x`, least significant first.
pub open spec fn u64_le(x: u64) -> Seq<u8> {
    u32_le((x % 0x1_0000_0000) as u32) + u32_le((x / 0x1_0000_0000) as u32)
}

/// The number whose little-endian bytes are `b0 b1 b2 b3`.
pub open spec fn u32_from_le(b0: u8, b1: u8, b2: u8, b3: u8) -> u32 {
    (b0 + b1 * 0x100 + b2 * 0x1_0000 + b3 * 0x100_0000) as u32
}

/// `n` zero bytes.
pub open spec fn zeros(n: nat) -> Seq<u8> {
    Seq::new(n, |i: int| 0u8)
}

/// An encoded number is as long as its type is wide.
pub proof fn lemma_le_len(x16: u16, x32: u32, x64: u64)
    ensures
        u16_le(x16).len() == 2,
        u32_le(x32).len() == 4,
        u64_le(x64).len() == 8,
{
}

/// Decoding undoes encoding.
pub proof fn lemma_u32_le_round_trip(x: u32)
    ensures
        u32_le(x).len() == 4,
        u32_from_le(u32_le(x)[0], u32_le(x)[1], u32_le(x)[2], u32_le(x)[3]) == x,
{
}

/// Encoding undoes decoding.
pub proof fn lemma_u32_from_le_round_trip(b0: u8, b1: u8, b2: u8, b3: u8)
    ensures
        u32_le(u32_from_le(b0, b1, b2, b3)) == seq![b0, b1, b2, b3],
{
    let x = u32_from_le(b0, b1, b2, b3);
    let n: int = b0 + b1 * 0x100 + b2 * 0x1_0000 + b3 * 0x100_0000;
    assert(x == n);
    assert(n % 0x100 == b0);
    assert(n / 0x100 == b1 + b2 * 0x100 + b3 * 0x1_0000);
    assert(n / 0x1_0000 == b2 + b3 * 0x100);
    assert(n / 0x100_0000 == b3);
    assert(u32_le(x)[0] == b0);
    assert(u32_le(x)[1] == b1);
    assert(u32_le(x)[2] == b2);
    assert(u32_le(x)[3] == b3);
    assert(u32_le(x) =~= seq![b0, b1, b2, b3]);
}

/// Assembles a `u32` from its little-endian bytes.
pub fn read_u32_le(b0: u8, b1: u8, b2: u8, b3: u8) -> (x: u32)
    ensures
        x == u32_from_le(b0, b1, b2, b3),
{
    (b0 as u32) + (b1 as u32) * 0x100 + (b2 as u32) * 0x1_0000 + (b3 as u32) * 0x100_0000
}

/// Appends the little-endian bytes of `x` to `out`.
pub fn push_u16_le(out: &mut Vec<u8>, x: u16)
    ensures
        final(out)@ == old(out)@ + u16_le(x),
{
    out.push((x % 0x100) as u8);
    out.push((x / 0x100) as u8);
    assert(out@ =~= old(out)@ + u16_le(x));
}

/// Appends the little-endian bytes of `x` to `out`.
pub fn push_u32_le(out: &mut Vec<u8>, x: u32)
    ensures
        final(out)@ == old(out)@ + u32_le(x),
{
    out.push((x % 0x100) as u8);
    out.push((x / 0x100 % 0x100) as u8);
    out.push((x / 0x1_0000 % 0x100) as u8);
    out.push((x / 0x100_0000) as u8);
    assert(out@ =~= old(out)@ + u32_le(x));
}

/// Appends the little-endian bytes of `x` to `out`.
pub fn push_u64_le(out: &mut Vec<u8>, x: u64)
    ensures
        final(out)@ == old(out)@ + u64_le(x),
{
    push_u32_le(out, (x % 0x1_0000_0000) as u32);
    push_u32_le(out, (x / 0x1_0000_0000) as u32);
    assert(out@ =~= old(out)@ + u64_le(x));
}

/// Appends `n` zero bytes to `out`.
pub fn push_zeros(out: &mut Vec<u8>, n: usize)
    ensures
        final(out)@ == old(out)@ + zeros(n as nat),
{
    let mut i: usize = 0;
    while i < n
        invariant
            i <= n,
            out@ == old(out)@ + zeros(i as nat),
        decreases n - i,
    {
        out.push(0u8);
        i = i + 1;
        assert(out@ =~= old(out)@ + zeros(i as nat));
    }
}

/// Appends a copy of `src` to `out`.
pub fn push_all(out: &mut Vec<u8>, src: &[u8])
    ensures
        final(out)@ == old(out)@ + src@,
{
    out.extend_from_slice(src);
}

} // verus!
