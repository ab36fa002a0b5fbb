//! The GPT header: one block near the front of the disk, and its copy
//! in the last block.

use vstd::prelude::*;
use crate::bytes::{
    lemma_le_len, lemma_u32_le_round_trip, push_u32_le, push_u64_le, push_zeros, read_u32_le,
    u32_from_le, u32_le, u64_le, zeros,
};
use crate::crc::{checksum, crc32, crc32_of};
use crate::err::BobErr;
use crate::file::ImageFile;
use crate::gpt::{
    GPT_HEADER_SZ, GPT_REVISION, GPT_SIGNATURE, NUM_PARTITION_ENTRIES, PARTITION_ENTRY_SZ,
};
use crate::guid::{is_v4, Guid};
use crate::mbr::LOGICAL_BLOCK_SZ;

verus! {

/// The blocks at the front of the disk that partitions must leave
/// alone: the protective MBR, the header, and 32 blocks of entries.
pub const FRONT_RESERVE: u64 = 34;

/// The blocks at the back of the disk that partitions must leave
/// alone: 32 blocks of entries and the backup header.
pub const BACK_RESERVE: u64 = 33;

/// The fewest blocks an image can have: both reserves and one block to
/// use.
pub const MIN_BLOCKS: u64 = 68;

/// A GPT header, field by field.
#[derive(Debug, Clone, Copy)]
pub struct GptHeader {
    pub signature: u64,
    pub revision: u32,
    pub header_sz: u32,
    pub header_crc32: u32,
    pub reserved: u32,
    pub my_lba: u64,
    pub alt_lba: u64,
    pub first_usable_lba: u64,
    pub last_usable_lba: u64,
    pub disk_guid: Guid,
    pub partition_entry_lba: u64,
    pub num_partition_entries: u32,
    pub partition_entry_sz: u32,
    pub partition_entry_array_crc32: u32,
}

impl View for GptHeader {
    type V = Seq<u8>;

    /// The 92 bytes of the header on disk.
    open spec fn view(&self) -> Seq<u8> {
        self.wire()
    }
}

impl GptHeader {
    /// The 92 bytes of the header on disk, field after field.
    #[verifier::opaque]
    pub open spec fn wire(self) -> Seq<u8> {
        u64_le(self.signature) + u32_le(self.revision) + u32_le(self.header_sz) + u32_le(
            self.header_crc32,
        ) + u32_le(self.reserved) + u64_le(self.my_lba) + u64_le(self.alt_lba) + u64_le(
            self.first_usable_lba,
        ) + u64_le(self.last_usable_lba) + self.disk_guid@ + u64_le(self.partition_entry_lba)
            + u32_le(self.num_partition_entries) + u32_le(self.partition_entry_sz) + u32_le(
            self.partition_entry_array_crc32,
        )
    }
}

/// Whether the checksum stored in a header block is the CRC-32 of its
/// first 92 bytes, taken with the four bytes of the checksum at zero.
pub open spec fn block_crc_matches(block: Seq<u8>) -> bool {
    &&& block.len() >= GPT_HEADER_SZ
    &&& u32_from_le(block[16], block[17], block[18], block[19]) == crc32_of(
        block.subrange(0, 16) + zeros(4) + block.subrange(20, GPT_HEADER_SZ as int),
    )
}

impl GptHeader {
    /// A header without positions or checksums: the fixed fields are
    /// set, the rest is zero.
    pub open spec fn blank(disk_guid: Guid) -> GptHeader {
        GptHeader {
            signature: GPT_SIGNATURE,
            revision: GPT_REVISION,
            header_sz: GPT_HEADER_SZ,
            header_crc32: 0,
            reserved: 0,
            my_lba: 0,
            alt_lba: 0,
            first_usable_lba: 0,
            last_usable_lba: 0,
            disk_guid,
            partition_entry_lba: 0,
            num_partition_entries: 0,
            partition_entry_sz: 0,
            partition_entry_array_crc32: 0,
        }
    }

    /// The header with `crc` in place of its checksum.
    pub open spec fn with_crc(self, crc: u32) -> GptHeader {
        GptHeader { header_crc32: crc, ..self }
    }

    /// The checksum that belongs to the header: the CRC-32 of its 92
    /// bytes with the checksum field at zero.
    pub open spec fn own_crc(self) -> u32 {
        crc32_of(self.with_crc(0)@)
    }

    /// Whether the header carries the checksum that belongs to it.
    pub open spec fn sealed(self) -> bool {
        self.header_crc32 == self.own_crc()
    }

    /// The header's block on disk: its 92 bytes, and zeros up to the end
    /// of the block.
    pub open spec fn block(self) -> Seq<u8> {
        self@ + zeros((LOGICAL_BLOCK_SZ - GPT_HEADER_SZ) as nat)
    }

    /// The primary header of a disk of `total_blocks` blocks, before its
    /// checksum is set. It sits in block 1 and points at the entries in
    /// block 2 and at its copy in the last block.
    pub open spec fn primary(total_blocks: int, disk_guid: Guid, array_crc: u32) -> GptHeader {
        GptHeader {
            my_lba: 1,
            alt_lba: (total_blocks - 1) as u64,
            first_usable_lba: FRONT_RESERVE,
            last_usable_lba: (total_blocks - FRONT_RESERVE) as u64,
            partition_entry_lba: 2,
            num_partition_entries: NUM_PARTITION_ENTRIES,
            partition_entry_sz: PARTITION_ENTRY_SZ,
            partition_entry_array_crc32: array_crc,
            ..GptHeader::blank(disk_guid)
        }
    }

    /// The backup of a primary header, before its checksum is set: the
    /// two header positions change places, and the entries it points at
    /// are the copy in the blocks just before it.
    pub open spec fn backup_of(self) -> GptHeader {
        GptHeader {
            header_crc32: 0,
            my_lba: self.alt_lba,
            alt_lba: self.my_lba,
            partition_entry_lba: (self.alt_lba - (BACK_RESERVE - 1)) as u64,
            ..self
        }
    }

    /// A header takes 92 bytes, and its block 512.
    pub proof fn lemma_len(self)
        ensures
            self@.len() == GPT_HEADER_SZ,
            self.block().len() == LOGICAL_BLOCK_SZ,
    {
        reveal(GptHeader::wire);
        self.disk_guid.lemma_len();
        lemma_le_len(0, self.revision, self.signature);
        lemma_le_len(0, self.header_sz, self.my_lba);
        lemma_le_len(0, self.header_crc32, self.alt_lba);
        lemma_le_len(0, self.reserved, self.first_usable_lba);
        lemma_le_len(0, self.num_partition_entries, self.last_usable_lba);
        lemma_le_len(0, self.partition_entry_sz, self.partition_entry_lba);
        lemma_le_len(0, self.partition_entry_array_crc32, 0);
    }

    /// Builds the primary header of a disk of `total_blocks` blocks,
    /// without its checksum.
    pub fn primary_header(total_blocks: u64, disk_guid: Guid, array_crc: u32) -> (h: GptHeader)
        requires
            total_blocks >= MIN_BLOCKS,
        ensures
            h == GptHeader::primary(total_blocks as int, disk_guid, array_crc),
    {
        let mut h = GptHeader::with_disk_guid(disk_guid);
        h.my_lba = 1;
        h.alt_lba = total_blocks - 1;
        h.first_usable_lba = FRONT_RESERVE;
        h.last_usable_lba = total_blocks - FRONT_RESERVE;
        h.partition_entry_lba = 2;
        h.num_partition_entries = NUM_PARTITION_ENTRIES;
        h.partition_entry_sz = PARTITION_ENTRY_SZ;
        h.partition_entry_array_crc32 = array_crc;
        h
    }

    /// Builds the backup of a primary header, without its checksum.
    pub fn backup_header(&self) -> (b: GptHeader)
        requires
            self.alt_lba >= BACK_RESERVE - 1,
        ensures
            b == self.backup_of(),
    {
        let mut b = *self;
        b.header_crc32 = 0;
        b.my_lba = self.alt_lba;
        b.alt_lba = self.my_lba;
        b.partition_entry_lba = self.alt_lba - (BACK_RESERVE - 1);
        b
    }

    /// A blank header with a fresh random disk GUID.
    pub fn new() -> (h: GptHeader)
        ensures
            h == GptHeader::blank(h.disk_guid),
            is_v4(h.disk_guid@),
    {
        GptHeader::with_disk_guid(Guid::new_v4())
    }

    /// A blank header for the disk that `disk_guid` names.
    pub fn with_disk_guid(disk_guid: Guid) -> (h: GptHeader)
        ensures
            h == GptHeader::blank(disk_guid),
    {
        GptHeader {
            signature: GPT_SIGNATURE,
            revision: GPT_REVISION,
            header_sz: GPT_HEADER_SZ,
            header_crc32: 0,
            reserved: 0,
            my_lba: 0,
            alt_lba: 0,
            first_usable_lba: 0,
            last_usable_lba: 0,
            disk_guid,
            partition_entry_lba: 0,
            num_partition_entries: 0,
            partition_entry_sz: 0,
            partition_entry_array_crc32: 0,
        }
    }

    /// The 92 bytes of the header.
    pub fn bytes(&self) -> (out: Vec<u8>)
        ensures
            out@ == self@,
            out@.len() == GPT_HEADER_SZ,
    {
        proof {
            reveal(GptHeader::wire);
        }
        let mut out: Vec<u8> = Vec::new();
        push_u64_le(&mut out, self.signature);
        assert(out@ =~= u64_le(self.signature));
        push_u32_le(&mut out, self.revision);
        push_u32_le(&mut out, self.header_sz);
        push_u32_le(&mut out, self.header_crc32);
        push_u32_le(&mut out, self.reserved);
        push_u64_le(&mut out, self.my_lba);
        push_u64_le(&mut out, self.alt_lba);
        push_u64_le(&mut out, self.first_usable_lba);
        push_u64_le(&mut out, self.last_usable_lba);
        let guid = self.disk_guid.to_bytes();
        out.extend_from_slice(guid.as_slice());
        push_u64_le(&mut out, self.partition_entry_lba);
        push_u32_le(&mut out, self.num_partition_entries);
        push_u32_le(&mut out, self.partition_entry_sz);
        push_u32_le(&mut out, self.partition_entry_array_crc32);
        proof {
            self.lemma_len();
        }
        out
    }

    /// Computes the header's checksum over its 92 bytes, taken with the
    /// checksum field at zero, and stores it in that field.
    pub fn crc(&mut self)
        ensures
            *final(self) == old(self).with_crc(old(self).own_crc()),
            final(self).sealed(),
    {
        self.header_crc32 = 0;
        let bytes = self.bytes();
        self.header_crc32 = checksum(bytes.as_slice());
    }

    /// Writes the header's block at the cursor of `f`: the 92 bytes and
    /// the zeros that fill the block.
    pub fn write(&self, f: &mut ImageFile) -> (res: Result<(), BobErr>)
        ensures
            old(f)@.takes(self.block()) ==> res == Ok::<(), BobErr>(()) && final(f)@ == old(
                f)@.write(self.block()),
            !old(f)@.takes(self.block()) ==> res == Err::<(), BobErr>(BobErr::IO) && final(f)@
                == old(f)@,
    {
        let mut block = self.bytes();
        push_zeros(&mut block, LOGICAL_BLOCK_SZ - GPT_HEADER_SZ as usize);
        f.write_all(block.as_slice())
    }

    /// The checksum that a sealed header stores is found again by
    /// whoever takes the header's block from the disk, sets the four
    /// bytes of the checksum to zero and computes the CRC-32 of the
    /// first 92 bytes.
    pub proof fn lemma_crc_round_trip(self)
        requires
            self.sealed(),
        ensures
            self.block().len() == LOGICAL_BLOCK_SZ,
            block_crc_matches(self.block()),
    {
        reveal(GptHeader::wire);
        let block = self.block();
        Guid::lemma_view_then_decode(self.disk_guid);
        lemma_u32_le_round_trip(self.header_crc32);
        assert(u32_le(0) =~= zeros(4));
        assert(block.subrange(0, 16) + zeros(4) + block.subrange(20, GPT_HEADER_SZ as int)
            =~= self.with_crc(0)@);
    }
}

/// Recomputes the checksum of a header block as it was read from a
/// disk, and compares it with the one the block stores.
pub fn header_crc_matches(block: &[u8]) -> (ok: bool)
    ensures
        ok == block_crc_matches(block@),
{
    if block.len() < GPT_HEADER_SZ as usize {
        return false;
    }
    let stored = read_u32_le(block[16], block[17], block[18], block[19]);
    let mut cleared: Vec<u8> = Vec::new();
    let mut i: usize = 0;
    while i < GPT_HEADER_SZ as usize
        invariant
            i <= GPT_HEADER_SZ,
            block@.len() >= GPT_HEADER_SZ,
            cleared@.len() == i,
            forall|k: int|
                0 <= k < i ==> cleared@[k] == if 16 <= k < 20 {
                    0u8
                } else {
                    block@[k]
                },
        decreases GPT_HEADER_SZ - i,
    {
        if 16 <= i && i < 20 {
            cleared.push(0);
        } else {
            cleared.push(block[i]);
        }
        i = i + 1;
    }
    assert(cleared@ =~= block@.subrange(0, 16) + zeros(4) + block@.subrange(
        20,
        GPT_HEADER_SZ as int,
    ));
    crc32(cleared.as_slice()) == stored
}

} // verus!
