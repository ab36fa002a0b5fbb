//! CRC-32 checksums as the GUID Partition Table uses them.

use vstd::prelude::*;

verus! {

/// The generator polynomial of CRC-32, in reflected form.
pub const POLYNOMIAL: u32 = 0xEDB8_8320;

/// One shift of the checksum register: the low bit leaves, and the
/// polynomial is folded in when that bit was set.
pub open spec fn shift_bit(reg: u32) -> u32 {
    if reg & 1 == 1 {
        (reg >> 1) ^ POLYNOMIAL
    } else {
        reg >> 1
    }
}

/// `n` shifts of the register.
pub open spec fn shift_bits(reg: u32, n: nat) -> u32
    decreases n,
{
    if n == 0 {
        reg
    } else {
        shift_bit(shift_bits(reg, (n - 1) as nat))
    }
}

/// The register after one more byte of the message.
pub open spec fn feed_byte(reg: u32, byte: u8) -> u32 {
    shift_bits(reg ^ (byte as u32), 8)
}

/// The register after all of `bytes`, starting from `reg`.
pub open spec fn feed(reg: u32, bytes: Seq<u8>) -> u32
    decreases bytes.len(),
{
    if bytes.len() == 0 {
        reg
    } else {
        feed_byte(feed(reg, bytes.drop_last()), bytes.last())
    }
}

/// The CRC-32 of `bytes`: the register starts with all bits set, takes
/// in the message byte by byte, and is inverted at the end.
pub open spec fn crc32_of(bytes: Seq<u8>) -> u32 {
    feed(0xFFFF_FFFF, bytes) ^ 0xFFFF_FFFF
}

fn step(reg: u32) -> (out: u32)
    ensures
        out == shift_bit(reg),
{
    if reg & 1 == 1 {
        (reg >> 1) ^ POLYNOMIAL
    } else {
        reg >> 1
    }
}

/// Computes the CRC-32 of `bytes`, one bit at a time.
pub fn crc32(bytes: &[u8]) -> (sum: u32)
    ensures
        sum == crc32_of(bytes@),
{
    let mut reg: u32 = 0xFFFF_FFFF;
    let mut i: usize = 0;
    while i < bytes.len()
        invariant
            i <= bytes.len(),
            reg == feed(0xFFFF_FFFF, bytes@.take(i as int)),
        decreases bytes.len() - i,
    {
        let ghost before = reg;
        reg = reg ^ (bytes[i] as u32);
        let mut k: u8 = 0;
        while k < 8
            invariant
                k <= 8,
                reg == shift_bits(before ^ (bytes[i as int] as u32), k as nat),
                i < bytes.len(),
            decreases 8 - k,
        {
            reg = step(reg);
            k = k + 1;
        }
        proof {
            let next = bytes@.take(i + 1);
            assert(next.drop_last() =~= bytes@.take(i as int));
            assert(next.last() == bytes[i as int]);
        }
        i = i + 1;
    }
    assert(bytes@.take(i as int) =~= bytes@);
    reg ^ 0xFFFF_FFFF
}

/// The same checksum, computed by `crc32fast::hash`. That crate
/// documents its result as the IEEE CRC-32 of the slice, which is what
/// [`crc32_of`] defines; nothing here proves that its tables and
/// vector code agree with the definition.
#[verifier::external_body]
pub(crate) fn checksum(bytes: &[u8]) -> (sum: u32)
    ensures
        sum == crc32_of(bytes@),
{
    crc32fast::hash(bytes)
}

} // verus!
