//! The first structures of a FAT32 filesystem, written through a
//! [`Partition`].

use vstd::prelude::*;
use crate::bytes::{lemma_le_len, push_u16_le, push_u32_le, u16_le, u32_le, zeros};
use crate::err::BobErr;
use crate::partition::Partition;

verus! {

pub const SECTOR_SIZE: u16 = 512;

pub const SECTORS_PER_CLUSTER: u8 = 2;

pub const NUM_FATS: u8 = 2;

/// Everything that is written when a partition is formatted.
pub struct FatMeta {
    pub bpb: Bpb,
    pub ebr: ExtendedBootRecord,
    pub fs_info: FSInfo,
    pub fat: FileAllocationTable,
}

/// The BIOS parameter block.
pub struct Bpb {
    pub jmp_short: [u8; 3],
    pub oem_identifier: [u8; 8],
    pub bytes_per_sector: u16,
    pub sectors_per_cluster: u8,
    pub reserved_sectors: u16,
    pub num_fats: u8,
    pub max_dir_entries: u16,
    pub total_sectors_short: u16,
    pub media_descriptor: u8,
    pub sectors_per_fat_short: u16,
    pub sectors_per_track: u16,
    pub num_heads: u16,
    pub hidden_sectors: u32,
    pub total_sectors_long: u32,
}

/// The extended boot record of FAT32.
pub struct ExtendedBootRecord {
    pub sectors_per_fat_long: u32,
    pub flags: u16,
    pub fat_version: u16,
    pub root_cluster: u32,
    pub fsinfo_sector: u16,
    pub backup_boot_sector: u16,
    pub reserved: [u8; 12],
    pub drive_number: u8,
    pub windows_nt_flags: u8,
    pub signature: u8,
    pub volume_id: u32,
    pub volume_label: [u8; 11],
    pub fs_type_label: [u8; 8],
}

/// The FSInfo sector.
pub struct FSInfo {
    pub lead_signature: u32,
    pub reserved1: [u8; 480],
    pub struct_signature: u32,
    pub free_count: u32,
    pub next_free: u32,
    pub reserved2: [u8; 12],
    pub trail_signature: u32,
}

/// The file allocation table. Nothing of it is kept yet.
pub struct FileAllocationTable {}

/// The number of sectors in a partition of `size` bytes, cut down to
/// the 32 bits that the parameter block has for it.
pub open spec fn sectors_of(size: int) -> u32 {
    (size / (SECTOR_SIZE as int) % 0x1_0000_0000) as u32
}

impl View for Bpb {
    type V = Seq<u8>;

    /// The bytes of the block that are written: the fields up to the
    /// sectors of a FAT, 24 bytes.
    open spec fn view(&self) -> Seq<u8> {
        self.jmp_short@ + self.oem_identifier@ + u16_le(self.bytes_per_sector)
            + seq![self.sectors_per_cluster] + u16_le(self.reserved_sectors) + seq![self.num_fats]
            + u16_le(self.max_dir_entries) + u16_le(self.total_sectors_short)
            + seq![self.media_descriptor] + u16_le(self.sectors_per_fat_short)
    }
}

impl View for ExtendedBootRecord {
    type V = Seq<u8>;

    /// The bytes of the record that are written: every field but the
    /// backup boot sector, 52 bytes.
    open spec fn view(&self) -> Seq<u8> {
        u32_le(self.sectors_per_fat_long) + u16_le(self.flags) + u16_le(self.fat_version)
            + u32_le(self.root_cluster) + u16_le(self.fsinfo_sector) + self.reserved@
            + seq![self.drive_number, self.windows_nt_flags, self.signature] + u32_le(
            self.volume_id,
        ) + self.volume_label@ + self.fs_type_label@
    }
}

impl View for FSInfo {
    type V = Seq<u8>;

    /// The 512 bytes of the sector.
    open spec fn view(&self) -> Seq<u8> {
        u32_le(self.lead_signature) + self.reserved1@ + u32_le(self.struct_signature) + u32_le(
            self.free_count,
        ) + u32_le(self.next_free) + self.reserved2@ + u32_le(self.trail_signature)
    }
}

impl View for FatMeta {
    type V = Seq<u8>;

    /// What formatting writes: parameter block, extended boot record
    /// and FSInfo sector, one behind the other.
    open spec fn view(&self) -> Seq<u8> {
        self.bpb@ + self.ebr@ + self.fs_info@
    }
}

impl Bpb {
    /// Whether the block is the one for a partition of `size` bytes: a
    /// short jump, no OEM name, sectors of 512 bytes, two to a cluster,
    /// two FATs, and the count of sectors.
    pub open spec fn is_for(&self, size: int) -> bool {
        &&& self.jmp_short@ == seq![0xEBu8, 0x3Cu8, 0x90u8]
        &&& self.oem_identifier@ == zeros(8)
        &&& self.bytes_per_sector == SECTOR_SIZE
        &&& self.sectors_per_cluster == SECTORS_PER_CLUSTER
        &&& self.reserved_sectors == 0
        &&& self.num_fats == NUM_FATS
        &&& self.max_dir_entries == 0
        &&& self.total_sectors_short == 0
        &&& self.media_descriptor == 0
        &&& self.sectors_per_fat_short == 0
        &&& self.sectors_per_track == 0
        &&& self.num_heads == 0
        &&& self.hidden_sectors == 0
        &&& self.total_sectors_long == sectors_of(size)
    }

    /// The bytes that are written of every parameter block that this
    /// module makes.
    pub open spec fn layout() -> Seq<u8> {
        seq![0xEBu8, 0x3Cu8, 0x90u8] + zeros(8) + u16_le(SECTOR_SIZE) + seq![SECTORS_PER_CLUSTER]
            + u16_le(0) + seq![NUM_FATS] + u16_le(0) + u16_le(0) + seq![0u8] + u16_le(0)
    }

    /// The parameter block for the partition `p`.
    pub fn new<T: Partition>(p: &T) -> (b: Bpb)
        requires
            p.inv(),
        ensures
            b.is_for(p.span()),
            b@ == Bpb::layout(),
    {
        let sectors = (p.size() / 512) as u64;
        let total_sectors_long = (sectors % 0x1_0000_0000) as u32;
        let b = Bpb {
            jmp_short: [0xEB, 0x3C, 0x90],
            oem_identifier: [0;8],
            bytes_per_sector: SECTOR_SIZE,
            sectors_per_cluster: SECTORS_PER_CLUSTER,
            reserved_sectors: 0,
            num_fats: NUM_FATS,
            max_dir_entries: 0,
            total_sectors_short: 0,
            media_descriptor: 0,
            sectors_per_fat_short: 0,
            sectors_per_track: 0,
            num_heads: 0,
            hidden_sectors: 0,
            total_sectors_long,
        };
        assert(b.jmp_short@ =~= seq![0xEBu8, 0x3Cu8, 0x90u8]);
        assert(b.oem_identifier@ =~= zeros(8));
        b
    }

    /// The bytes of the block that are written.
    pub fn bytes(&self) -> (out: Vec<u8>)
        ensures
            out@ == self@,
            out@.len() == 24,
    {
        let mut out: Vec<u8> = Vec::new();
        out.extend_from_slice(self.jmp_short.as_slice());
        assert(out@ =~= self.jmp_short@);
        out.extend_from_slice(self.oem_identifier.as_slice());
        push_u16_le(&mut out, self.bytes_per_sector);
        out.push(self.sectors_per_cluster);
        push_u16_le(&mut out, self.reserved_sectors);
        out.push(self.num_fats);
        push_u16_le(&mut out, self.max_dir_entries);
        push_u16_le(&mut out, self.total_sectors_short);
        out.push(self.media_descriptor);
        push_u16_le(&mut out, self.sectors_per_fat_short);
        proof {
            lemma_le_len(self.bytes_per_sector, 0, 0);
            lemma_le_len(self.reserved_sectors, 0, 0);
            lemma_le_len(self.max_dir_entries, 0, 0);
            lemma_le_len(self.total_sectors_short, 0, 0);
            lemma_le_len(self.sectors_per_fat_short, 0, 0);
            assert(out@ =~= self@);
        }
        out
    }
}

impl ExtendedBootRecord {
    /// Whether every field of the record is zero.
    pub open spec fn is_blank(&self) -> bool {
        &&& self.sectors_per_fat_long == 0
        &&& self.flags == 0
        &&& self.fat_version == 0
        &&& self.root_cluster == 0
        &&& self.fsinfo_sector == 0
        &&& self.backup_boot_sector == 0
        &&& self.reserved@ == zeros(12)
        &&& self.drive_number == 0
        &&& self.windows_nt_flags == 0
        &&& self.signature == 0
        &&& self.volume_id == 0
        &&& self.volume_label@ == zeros(11)
        &&& self.fs_type_label@ == zeros(8)
    }

    /// A record with every field at zero.
    pub fn new() -> (r: ExtendedBootRecord)
        ensures
            r.is_blank(),
            r@ == zeros(52),
    {
        let r = ExtendedBootRecord {
            sectors_per_fat_long: 0,
            flags: 0,
            fat_version: 0,
            root_cluster: 0,
            fsinfo_sector: 0,
            backup_boot_sector: 0,
            reserved: [0;12],
            drive_number: 0,
            windows_nt_flags: 0,
            signature: 0,
            volume_id: 0,
            volume_label: [0;11],
            fs_type_label: [0;8],
        };
        assert(r.reserved@ =~= zeros(12));
        assert(r.volume_label@ =~= zeros(11));
        assert(r.fs_type_label@ =~= zeros(8));
        assert(r@ =~= zeros(52));
        r
    }

    /// The bytes of the record that are written.
    pub fn bytes(&self) -> (out: Vec<u8>)
        ensures
            out@ == self@,
            out@.len() == 52,
    {
        let mut out: Vec<u8> = Vec::new();
        push_u32_le(&mut out, self.sectors_per_fat_long);
        assert(out@ =~= u32_le(self.sectors_per_fat_long));
        push_u16_le(&mut out, self.flags);
        push_u16_le(&mut out, self.fat_version);
        push_u32_le(&mut out, self.root_cluster);
        push_u16_le(&mut out, self.fsinfo_sector);
        out.extend_from_slice(self.reserved.as_slice());
        let ghost before = out@;
        out.push(self.drive_number);
        out.push(self.windows_nt_flags);
        out.push(self.signature);
        assert(out@ =~= before + seq![
            self.drive_number,
            self.windows_nt_flags,
            self.signature,
        ]);
        push_u32_le(&mut out, self.volume_id);
        out.extend_from_slice(self.volume_label.as_slice());
        out.extend_from_slice(self.fs_type_label.as_slice());
        proof {
            lemma_le_len(self.flags, self.sectors_per_fat_long, 0);
            lemma_le_len(self.fat_version, self.root_cluster, 0);
            lemma_le_len(self.fsinfo_sector, self.volume_id, 0);
        }
        out
    }
}

impl FSInfo {
    /// Whether the sector is the one of a filesystem that knows nothing
    /// of its free clusters yet: the three signatures, zeros elsewhere.
    pub open spec fn is_blank(&self) -> bool {
        &&& self.lead_signature == 0x4161_5252
        &&& self.reserved1@ == zeros(480)
        &&& self.struct_signature == 0x6141_7272
        &&& self.free_count == 0
        &&& self.next_free == 0
        &&& self.reserved2@ == zeros(12)
        &&& self.trail_signature == 0xAA55_0000
    }

    /// The sector of a filesystem that knows nothing of its free
    /// clusters yet.
    pub fn new() -> (s: FSInfo)
        ensures
            s.is_blank(),
    {
        let s = FSInfo {
            lead_signature: 0x4161_5252,
            reserved1: [0;480],
            struct_signature: 0x6141_7272,
            free_count: 0,
            next_free: 0,
            reserved2: [0;12],
            trail_signature: 0xAA55_0000,
        };
        assert(s.reserved1@ =~= zeros(480));
        assert(s.reserved2@ =~= zeros(12));
        s
    }

    /// The 512 bytes of the sector.
    pub fn bytes(&self) -> (out: Vec<u8>)
        ensures
            out@ == self@,
            out@.len() == 512,
    {
        let mut out: Vec<u8> = Vec::new();
        push_u32_le(&mut out, self.lead_signature);
        assert(out@ =~= u32_le(self.lead_signature));
        out.extend_from_slice(self.reserved1.as_slice());
        push_u32_le(&mut out, self.struct_signature);
        push_u32_le(&mut out, self.free_count);
        push_u32_le(&mut out, self.next_free);
        out.extend_from_slice(self.reserved2.as_slice());
        push_u32_le(&mut out, self.trail_signature);
        proof {
            lemma_le_len(0, self.lead_signature, 0);
            lemma_le_len(0, self.struct_signature, 0);
            lemma_le_len(0, self.free_count, 0);
            lemma_le_len(0, self.next_free, 0);
            lemma_le_len(0, self.trail_signature, 0);
        }
        out
    }
}

impl FileAllocationTable {
    /// An empty table.
    pub fn new() -> FileAllocationTable {
        FileAllocationTable {  }
    }
}

/// What formatting writes into every partition: 588 bytes that do not
/// depend on the partition.
pub open spec fn fat_image() -> Seq<u8> {
    Bpb::layout() + zeros(52) + (u32_le(0x4161_5252) + zeros(480) + u32_le(0x6141_7272) + u32_le(
        0,
    ) + u32_le(0) + zeros(12) + u32_le(0xAA55_0000))
}

impl FatMeta {
    /// The structures for the partition `p`.
    pub fn new<T: Partition>(p: &T) -> (m: FatMeta)
        requires
            p.inv(),
        ensures
            m.bpb.is_for(p.span()),
            m.ebr.is_blank(),
            m.fs_info.is_blank(),
            m@ == fat_image(),
    {
        let bpb = Bpb::new(p);
        let ebr = ExtendedBootRecord::new();
        let fs_info = FSInfo::new();
        let fat = FileAllocationTable::new();
        FatMeta { bpb, ebr, fs_info, fat }
    }

    /// The bytes of the structures, in the order in which they are
    /// written.
    pub fn bytes(&self) -> (out: Vec<u8>)
        ensures
            out@ == self@,
            out@.len() == 588,
    {
        let mut out: Vec<u8> = Vec::new();
        let bpb = self.bpb.bytes();
        out.extend_from_slice(bpb.as_slice());
        assert(out@ =~= self.bpb@);
        let ebr = self.ebr.bytes();
        out.extend_from_slice(ebr.as_slice());
        let fs_info = self.fs_info.bytes();
        out.extend_from_slice(fs_info.as_slice());
        out
    }
}

/// The answer of a formatter to the answer of the write it made.
pub open spec fn discard_count(w: Result<usize, BobErr>) -> Result<(), BobErr> {
    match w {
        Ok(_) => Ok(()),
        Err(e) => Err(e),
    }
}

/// Whether formatting can take a partition from `before` to `after`
/// and answer `res`: one write of the FAT structures was made, and its
/// answer handed on.
pub open spec fn formatted<T: Partition>(before: &T, after: &T, res: Result<(), BobErr>) -> bool {
    exists|w: Result<usize, BobErr>| #[trigger]
        before.wrote(after, fat_image(), w) && res == discard_count(w)
}

/// Formats the partition as FAT32 by writing the first structures of
/// the filesystem at the cursor.
pub fn format_as_fat<T: Partition>(p: &mut T) -> (res: Result<(), BobErr>)
    requires
        old(p).inv(),
    ensures
        final(p).inv(),
        formatted(old(p), final(p), res),
{
    let meta = FatMeta::new(p);
    let bytes = meta.bytes();
    let w = p.write(bytes.as_slice());
    assert(old(p).wrote(p, fat_image(), w));
    match w {
        Ok(_) => Ok(()),
        Err(e) => Err(e),
    }
}

} // verus!
