//! The protective master boot record: the first block of a GPT disk,
//! which tells tools that know nothing of GPT that the disk is taken.

use vstd::prelude::*;
use crate::bytes::{u32_le, zeros, push_u32_le, push_zeros};
use crate::err::BobErr;
use crate::file::ImageFile;

verus! {

/// The size of a logical block in bytes.
pub const LOGICAL_BLOCK_SZ: usize = 512;

/// The partition type that marks a disk as GPT-managed.
pub const OS_TYPE_GPT_PROTECTIVE: u8 = 0xEE;

/// One of the four partition records of a master boot record.
#[derive(Debug, Clone, Copy)]
pub struct PartitionRecord {
    pub boot_indicator: u8,
    pub starting_chs: [u8; 3],
    pub os_type: u8,
    pub ending_chs: [u8; 3],
    pub starting_lba: u32,
    pub size_in_lba: u32,
}

impl View for PartitionRecord {
    type V = Seq<u8>;

    /// The sixteen bytes of the record on disk.
    open spec fn view(&self) -> Seq<u8> {
        seq![self.boot_indicator] + self.starting_chs@ + seq![self.os_type] + self.ending_chs@
            + u32_le(self.starting_lba) + u32_le(self.size_in_lba)
    }
}

impl PartitionRecord {
    /// The record that describes no partition: all zero.
    pub open spec fn unused() -> PartitionRecord {
        PartitionRecord {
            boot_indicator: 0,
            starting_chs: [0u8, 0u8, 0u8],
            os_type: 0,
            ending_chs: [0u8, 0u8, 0u8],
            starting_lba: 0,
            size_in_lba: 0,
        }
    }

    /// The record that claims a disk of `total_blocks` blocks for GPT. It
    /// starts at block 1, and its size is the block count cut down to 32
    /// bits. The end of the disk lies beyond what cylinder, head and
    /// sector can address, so the ending CHS is the largest there is.
    pub open spec fn protective(total_blocks: int) -> PartitionRecord {
        PartitionRecord {
            boot_indicator: 0,
            starting_chs: [0x00u8, 0x02u8, 0x00u8],
            os_type: OS_TYPE_GPT_PROTECTIVE,
            ending_chs: [0xFFu8, 0xFFu8, 0xFFu8],
            starting_lba: 1,
            size_in_lba: (total_blocks % 0x1_0000_0000) as u32,
        }
    }

    /// An unused record.
    pub fn new() -> (r: PartitionRecord)
        ensures
            r == PartitionRecord::unused(),
            r@ == zeros(16),
    {
        let r = PartitionRecord {
            boot_indicator: 0,
            starting_chs: [0, 0, 0],
            os_type: 0,
            ending_chs: [0, 0, 0],
            starting_lba: 0,
            size_in_lba: 0,
        };
        assert(r.starting_chs =~= PartitionRecord::unused().starting_chs);
        assert(r.ending_chs =~= PartitionRecord::unused().ending_chs);
        assert(r@ =~= zeros(16));
        r
    }

    /// The sixteen bytes of the record.
    pub fn bytes(&self) -> (out: Vec<u8>)
        ensures
            out@ == self@,
            out@.len() == 16,
    {
        let mut out: Vec<u8> = Vec::new();
        out.push(self.boot_indicator);
        out.push(self.starting_chs[0]);
        out.push(self.starting_chs[1]);
        out.push(self.starting_chs[2]);
        out.push(self.os_type);
        out.push(self.ending_chs[0]);
        out.push(self.ending_chs[1]);
        out.push(self.ending_chs[2]);
        push_u32_le(&mut out, self.starting_lba);
        push_u32_le(&mut out, self.size_in_lba);
        assert(out@ =~= self@);
        out
    }

    /// Writes the record at the cursor of `f`.
    pub fn write(&self, f: &mut ImageFile) -> (res: Result<(), BobErr>)
        ensures
            old(f)@.takes(self@) ==> res == Ok::<(), BobErr>(()) && final(f)@ == old(f)@.write(
                self@,
            ),
            !old(f)@.takes(self@) ==> res == Err::<(), BobErr>(BobErr::IO) && final(f)@ == old(f)@,
    {
        let b = self.bytes();
        f.write_all(b.as_slice())
    }
}

/// The protective master boot record of a disk of `total_blocks` blocks:
/// 446 bytes that UEFI has no use for, the record that claims the disk,
/// three unused records, and the boot signature.
#[verifier::opaque]
pub open spec fn protective_mbr(total_blocks: int) -> Seq<u8> {
    zeros(446) + PartitionRecord::protective(total_blocks)@ + zeros(48) + seq![0x55u8, 0xAAu8]
}

/// The protective MBR is one block long and ends in the boot signature.
pub proof fn lemma_protective_mbr_shape(total_blocks: int)
    ensures
        protective_mbr(total_blocks).len() == LOGICAL_BLOCK_SZ,
        protective_mbr(total_blocks)[510] == 0x55,
        protective_mbr(total_blocks)[511] == 0xAA,
        protective_mbr(total_blocks)[450] == OS_TYPE_GPT_PROTECTIVE,
{
    reveal(protective_mbr);
}

/// Builds the record that claims a disk of `total_blocks` blocks.
pub fn protective_record(total_blocks: u64) -> (r: PartitionRecord)
    ensures
        r == PartitionRecord::protective(total_blocks as int),
{
    let mut r = PartitionRecord::new();
    r.starting_chs = [0x00, 0x02, 0x00];
    r.ending_chs = [0xFF, 0xFF, 0xFF];
    r.os_type = OS_TYPE_GPT_PROTECTIVE;
    r.starting_lba = 1;
    r.size_in_lba = (total_blocks % 0x1_0000_0000) as u32;
    assert(r.starting_chs =~= PartitionRecord::protective(total_blocks as int).starting_chs);
    assert(r.ending_chs =~= PartitionRecord::protective(total_blocks as int).ending_chs);
    r
}

/// Builds the protective MBR block of a disk of `total_blocks` blocks.
pub fn protective_mbr_block(total_blocks: u64) -> (block: Vec<u8>)
    ensures
        block@ == protective_mbr(total_blocks as int),
        block@.len() == LOGICAL_BLOCK_SZ,
{
    proof {
        reveal(protective_mbr);
    }
    let mut block: Vec<u8> = Vec::new();
    push_zeros(&mut block, 446);
    let claim = protective_record(total_blocks).bytes();
    block.extend_from_slice(claim.as_slice());
    let unused = PartitionRecord::new().bytes();
    block.extend_from_slice(unused.as_slice());
    block.extend_from_slice(unused.as_slice());
    block.extend_from_slice(unused.as_slice());
    block.push(0x55);
    block.push(0xAA);
    assert(block@ =~= protective_mbr(total_blocks as int));
    block
}

} // verus!
