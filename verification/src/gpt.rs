//! The records of a GUID Partition Table: what the user asks for, the
//! header, and the partition entries, each with its exact bytes on disk.

use vstd::prelude::*;
use crate::err::BobErr;
use crate::guid::Guid;
use crate::utf16::{lemma_utf16le_bmp, name_fits};

verus! {

/// The signature of a GPT header: the ASCII text "EFI PART", read as a
/// little-endian number.
pub const GPT_SIGNATURE: u64 = 0x5452_4150_2049_4645;

/// Revision 1.0 of the header format.
pub const GPT_REVISION: u32 = 0x0001_0000;

/// The number of header bytes that carry meaning; the checksum covers
/// exactly these.
pub const GPT_HEADER_SZ: u32 = 92;

/// The number of slots in the partition entry array.
pub const NUM_PARTITION_ENTRIES: u32 = 128;

/// The size of one partition entry in bytes.
pub const PARTITION_ENTRY_SZ: u32 = 128;

/// The size of the whole partition entry array in bytes: 32 blocks.
pub const ENTRY_ARRAY_BYTES: usize = 16384;

/// The kinds of partition that an image can hold.
#[derive(Clone, Copy, Debug, PartialEq, Eq, Structural)]
pub enum PartitionType {
    EFISystem,
}

/// One partition as the user asks for it: its kind, and the byte
/// offsets in the image where it starts and ends.
#[derive(Clone, Copy, Debug)]
pub struct PartitionInput {
    pub pt: PartitionType,
    pub start_offset: usize,
    pub end_offset: usize,
}

/// Collects the fields of a [`PartitionInput`] one by one.
pub struct PartitionBuilder {
    pub pt: Option<PartitionType>,
    pub start_offset: Option<usize>,
    pub end_offset: Option<usize>,
}

impl PartitionBuilder {
    /// A builder with no field set.
    pub fn new() -> (b: PartitionBuilder)
        ensures
            b.pt is None,
            b.start_offset is None,
            b.end_offset is None,
    {
        PartitionBuilder { pt: None, start_offset: None, end_offset: None }
    }

    /// Sets the kind of the partition.
    pub fn partition_type(self, pt: PartitionType) -> (b: PartitionBuilder)
        ensures
            b.pt == Some(pt),
            b.start_offset == self.start_offset,
            b.end_offset == self.end_offset,
    {
        let mut b = self;
        b.pt = Some(pt);
        b
    }

    /// Sets the byte offset at which the partition starts.
    pub fn start_offset(self, start_offset: usize) -> (b: PartitionBuilder)
        ensures
            b.pt == self.pt,
            b.start_offset == Some(start_offset),
            b.end_offset == self.end_offset,
    {
        let mut b = self;
        b.start_offset = Some(start_offset);
        b
    }

    /// Sets the byte offset at which the partition ends.
    pub fn end_offset(self, end_offset: usize) -> (b: PartitionBuilder)
        ensures
            b.pt == self.pt,
            b.start_offset == self.start_offset,
            b.end_offset == Some(end_offset),
    {
        let mut b = self;
        b.end_offset = Some(end_offset);
        b
    }

    /// The partition that was described, if every field was set.
    pub fn build(self) -> (res: Result<PartitionInput, BobErr>)
        ensures
            match (self.pt, self.start_offset, self.end_offset) {
                (Some(pt), Some(start_offset), Some(end_offset)) => res matches Ok(p) && p
                    == (PartitionInput { pt, start_offset, end_offset }),
                _ => res matches Err(e) && e == BobErr::PartitionParse,
            },
    {
        match (self.pt, self.start_offset, self.end_offset) {
            (Some(pt), Some(start_offset), Some(end_offset)) => Ok(
                PartitionInput { pt, start_offset, end_offset },
            ),
            _ => Err(BobErr::PartitionParse),
        }
    }
}

impl PartitionType {
    /// The disk bytes of the GUID that marks a partition of this kind.
    /// For an EFI system partition that is
    /// C12A7328-F81F-11D2-BA4B-00A0C93EC93B.
    pub open spec fn uuid_wire(self) -> Seq<u8> {
        seq![
            0x28u8, 0x73u8, 0x2Au8, 0xC1u8, 0x1Fu8, 0xF8u8, 0xD2u8, 0x11u8,
            0xBAu8, 0x4Bu8, 0x00u8, 0xA0u8, 0xC9u8, 0x3Eu8, 0xC9u8, 0x3Bu8,
        ]
    }

    /// The name that a partition of this kind gets.
    pub open spec fn spec_name(self) -> Seq<char> {
        "EFI system partition"@
    }

    /// The GUID that marks a partition of this kind.
    pub fn uuid(&self) -> (g: Guid)
        ensures
            g@ == self.uuid_wire(),
            g == Guid::decode(self.uuid_wire()),
    {
        let b: [u8; 16] = [
            0x28, 0x73, 0x2A, 0xC1, 0x1F, 0xF8, 0xD2, 0x11,
            0xBA, 0x4B, 0x00, 0xA0, 0xC9, 0x3E, 0xC9, 0x3B,
        ];
        assert(b@ =~= self.uuid_wire());
        match self {
            PartitionType::EFISystem => Guid::from_bytes(b),
        }
    }

    /// The name that a partition of this kind gets.
    pub fn name(&self) -> (s: String)
        ensures
            s@ == self.spec_name(),
    {
        match self {
            PartitionType::EFISystem => "EFI system partition".to_owned(),
        }
    }

    /// The name of every kind fits the name field of an entry.
    pub proof fn lemma_name_fits(self)
        ensures
            name_fits(self.spec_name()),
    {
        reveal_strlit("EFI system partition");
        let s = self.spec_name();
        assert(s.len() == 20);
        assert forall|i: int| 0 <= i < s.len() implies ((#[trigger] s[i]) as u32) < 0x1_0000 by {
        }
        lemma_utf16le_bmp(s);
    }
}

} // verus!
