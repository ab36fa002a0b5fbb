//! The builder of disk images and the image it builds.
//!
//! An image is laid out front to back: the protective MBR in block 0,
//! the primary header in block 1, the partition entries in blocks 2 to
//! 33, then the space for partitions, then a copy of the entries in the
//! 32 blocks before the last, and the backup header in the last block.

use vstd::prelude::*;
use vstd::string::StringExecFns;
use crate::crc::{checksum, crc32_of};
use crate::entry::{
    all_addressable, all_names_fit, entry_array, entry_array_bytes, GptPartitionEntry,
};
use crate::err::BobErr;
use crate::file::{byte_after, FileState, ImageFile, Written};
use crate::gpt::{PartitionInput, ENTRY_ARRAY_BYTES, NUM_PARTITION_ENTRIES};
use crate::guid::{is_v4, Guid};
use crate::header::{block_crc_matches, GptHeader, BACK_RESERVE, MIN_BLOCKS};
use crate::mbr::{protective_mbr, protective_mbr_block, LOGICAL_BLOCK_SZ};
use crate::partition::{Partition, PartitionView};

verus! {

/// An assembled image: its two headers, its partition entries, and the
/// file that holds them.
#[derive(Debug)]
pub struct GptImage {
    pub hdr: GptHeader,
    pub bkp_hdr: GptHeader,
    pub pentry: Vec<GptPartitionEntry>,
    pub fd: ImageFile,
}

/// What goes into an image before it is built.
pub struct DiskImgBuilder {
    pub image_size: Option<usize>,
    pub output: Option<String>,
    pub partitions: Vec<PartitionInput>,
}

/// The character of the digit `d`.
pub open spec fn digit_char(d: int) -> char {
    if d == 0 {
        '0'
    } else if d == 1 {
        '1'
    } else if d == 2 {
        '2'
    } else if d == 3 {
        '3'
    } else if d == 4 {
        '4'
    } else if d == 5 {
        '5'
    } else if d == 6 {
        '6'
    } else if d == 7 {
        '7'
    } else if d == 8 {
        '8'
    } else {
        '9'
    }
}

/// `n` in decimal digits, without sign or leading zeros.
pub open spec fn decimal(n: nat) -> Seq<char>
    decreases n,
{
    if n < 10 {
        seq![digit_char(n as int)]
    } else {
        decimal(n / 10).push(digit_char((n % 10) as int))
    }
}

/// The name of the file that an image goes to when none was asked for.
/// It holds the time of its making, in seconds since the Unix epoch, so
/// that an image made earlier is not written over.
pub open spec fn default_name(unix_secs: nat) -> Seq<char> {
    "disk_image_"@ + decimal(unix_secs) + ".img"@
}

fn digit_str(d: u64) -> (s: &'static str)
    requires
        d < 10,
    ensures
        s@ == seq![digit_char(d as int)],
{
    proof {
        reveal_strlit("0");
        reveal_strlit("1");
        reveal_strlit("2");
        reveal_strlit("3");
        reveal_strlit("4");
        reveal_strlit("5");
        reveal_strlit("6");
        reveal_strlit("7");
        reveal_strlit("8");
        reveal_strlit("9");
    }
    let s = if d == 0 {
        "0"
    } else if d == 1 {
        "1"
    } else if d == 2 {
        "2"
    } else if d == 3 {
        "3"
    } else if d == 4 {
        "4"
    } else if d == 5 {
        "5"
    } else if d == 6 {
        "6"
    } else if d == 7 {
        "7"
    } else if d == 8 {
        "8"
    } else {
        "9"
    };
    assert(s@ =~= seq![digit_char(d as int)]);
    s
}

/// Appends `n` in decimal digits to `out`.
pub fn push_decimal(out: &mut String, n: u64)
    ensures
        final(out)@ == old(out)@ + decimal(n as nat),
    decreases n,
{
    if n >= 10 {
        push_decimal(out, n / 10);
    }
    out.append(digit_str(n % 10));
    assert(out@ =~= old(out)@ + decimal(n as nat));
}

/// The file name for an image made `unix_secs` seconds after the Unix
/// epoch, where the user asked for none.
pub fn default_file_name(unix_secs: u64) -> (name: String)
    ensures
        name@ == default_name(unix_secs as nat),
{
    let mut name = "disk_image_".to_owned();
    push_decimal(&mut name, unix_secs);
    name.append(".img");
    name
}

/// The five writes that make an image, in the order in which they are
/// made.
pub open spec fn layout(
    total_blocks: int,
    hdr: GptHeader,
    bkp_hdr: GptHeader,
    entries: Seq<GptPartitionEntry>,
) -> Seq<Written> {
    seq![
        Written { at: 0, data: protective_mbr(total_blocks) },
        Written { at: LOGICAL_BLOCK_SZ as int, data: hdr.block() },
        Written { at: 2 * LOGICAL_BLOCK_SZ, data: entry_array(entries) },
        Written {
            at: (total_blocks - BACK_RESERVE) * LOGICAL_BLOCK_SZ,
            data: entry_array(entries),
        },
        Written { at: (total_blocks - 1) * LOGICAL_BLOCK_SZ, data: bkp_hdr.block() },
    ]
}

/// The error that keeps an image of `total_blocks` blocks with
/// `entries` from being laid out, if there is one: the size is looked
/// at first, then the number of entries, then their names.
pub open spec fn layout_error(total_blocks: int, entries: Seq<GptPartitionEntry>) -> Option<
    BobErr,
> {
    if total_blocks < MIN_BLOCKS {
        Some(BobErr::ImageTooSmall)
    } else if entries.len() > NUM_PARTITION_ENTRIES {
        Some(BobErr::TooManyPartitions)
    } else if !all_names_fit(entries) {
        Some(BobErr::PartitionNameTooLong)
    } else {
        None
    }
}

/// Five writes into a fresh file of `size` bytes, of one block, one
/// block, 32 blocks, 32 blocks and one block, the last two at the back
/// of the file, leave its length as it was and its cursor behind the
/// last whole block.
proof fn lemma_five_writes(size: int, mbr: Seq<u8>, hdr: Seq<u8>, array: Seq<u8>, bkp: Seq<u8>)
    requires
        size / 512 >= MIN_BLOCKS,
        mbr.len() == 512,
        hdr.len() == 512,
        array.len() == ENTRY_ARRAY_BYTES,
        bkp.len() == 512,
    ensures
        ({
            let tb = size / 512;
            let fresh = FileState { len: size, pos: 0, log: Seq::empty() };
            fresh.seek(0).write(mbr).seek(512).write(hdr).write(array).seek(
                (tb - BACK_RESERVE) * 512,
            ).write(array).seek((tb - 1) * 512).write(bkp) == (FileState {
                len: size,
                pos: tb * 512,
                log: seq![
                    Written { at: 0, data: mbr },
                    Written { at: 512, data: hdr },
                    Written { at: 1024, data: array },
                    Written { at: (tb - BACK_RESERVE) * 512, data: array },
                    Written { at: (tb - 1) * 512, data: bkp },
                ],
            })
        }),
{
    let tb = size / 512;
    let fresh = FileState { len: size, pos: 0, log: Seq::empty() };
    let end = fresh.seek(0).write(mbr).seek(512).write(hdr).write(array).seek(
        (tb - BACK_RESERVE) * 512,
    ).write(array).seek((tb - 1) * 512).write(bkp);
    assert(end.log =~= seq![
        Written { at: 0, data: mbr },
        Written { at: 512, data: hdr },
        Written { at: 1024, data: array },
        Written { at: (tb - BACK_RESERVE) * 512, data: array },
        Written { at: (tb - 1) * 512, data: bkp },
    ]);
}

impl GptImage {
    /// Every partition of the image can be given a view.
    pub open spec fn wf(&self) -> bool {
        all_addressable(self.pentry@)
    }

    /// The primary header of an image of `image_size` bytes with these
    /// entries, checksum included.
    pub open spec fn primary_for(
        image_size: int,
        disk_guid: Guid,
        entries: Seq<GptPartitionEntry>,
    ) -> GptHeader {
        let p = GptHeader::primary(
            image_size / (LOGICAL_BLOCK_SZ as int),
            disk_guid,
            crc32_of(entry_array(entries)),
        );
        p.with_crc(p.own_crc())
    }

    /// The backup header of an image of `image_size` bytes with these
    /// entries, with a checksum of its own.
    pub open spec fn backup_for(
        image_size: int,
        disk_guid: Guid,
        entries: Seq<GptPartitionEntry>,
    ) -> GptHeader {
        let b = GptHeader::primary(
            image_size / (LOGICAL_BLOCK_SZ as int),
            disk_guid,
            crc32_of(entry_array(entries)),
        ).backup_of();
        b.with_crc(b.own_crc())
    }

    /// Whether the image is the one of `image_size` bytes that
    /// `disk_guid` names: its headers are those that belong to its
    /// entries, and its file has the configured length and holds the
    /// five writes of the layout and no others.
    pub open spec fn assembled(&self, image_size: int, disk_guid: Guid) -> bool {
        let total_blocks = image_size / (LOGICAL_BLOCK_SZ as int);
        &&& self.hdr == GptImage::primary_for(image_size, disk_guid, self.pentry@)
        &&& self.bkp_hdr == GptImage::backup_for(image_size, disk_guid, self.pentry@)
        &&& self.fd@ == (FileState {
            len: image_size,
            pos: total_blocks * LOGICAL_BLOCK_SZ,
            log: layout(total_blocks, self.hdr, self.bkp_hdr, self.pentry@),
        })
    }

    /// Both headers of an assembled image carry the checksums that
    /// belong to them: whoever reads a header block back, sets the
    /// checksum field to zero and computes the CRC-32 of the 92 bytes
    /// finds the stored checksum, and the checksum of the entry array is
    /// the CRC-32 of the 16384 bytes that were written.
    pub proof fn lemma_assembled_checksums(&self, image_size: int, disk_guid: Guid)
        requires
            self.assembled(image_size, disk_guid),
        ensures
            self.hdr.sealed(),
            self.bkp_hdr.sealed(),
            block_crc_matches(self.fd@.log[1].data),
            block_crc_matches(self.fd@.log[4].data),
            self.hdr.partition_entry_array_crc32 == crc32_of(self.fd@.log[2].data),
            self.bkp_hdr.partition_entry_array_crc32 == crc32_of(self.fd@.log[3].data),
            self.bkp_hdr.disk_guid == self.hdr.disk_guid,
            self.hdr.disk_guid == disk_guid,
    {
        self.hdr.lemma_crc_round_trip();
        self.bkp_hdr.lemma_crc_round_trip();
    }

    /// The bytes of an assembled image, region by region: block 0 holds
    /// the protective MBR, block 1 the primary header, blocks 2 to 33
    /// the entry array, the 32 blocks before the last its copy, the last
    /// block the backup header, and every other byte is zero. The file
    /// is as long as it was configured to be.
    pub proof fn lemma_assembled_bytes(&self, image_size: int, disk_guid: Guid)
        requires
            self.assembled(image_size, disk_guid),
            layout_error(image_size / 512, self.pentry@) is None,
        ensures
            self.fd@.len == image_size,
            ({
                let tb = image_size / 512;
                let f = self.fd@;
                &&& forall|i: int|
                    0 <= i < 512 ==> #[trigger] f.byte_at(i) == protective_mbr(tb)[i]
                &&& forall|i: int|
                    512 <= i < 1024 ==> #[trigger] f.byte_at(i) == self.hdr.block()[i - 512]
                &&& forall|i: int|
                    1024 <= i < 1024 + ENTRY_ARRAY_BYTES ==> #[trigger] f.byte_at(i)
                        == entry_array(self.pentry@)[i - 1024]
                &&& forall|i: int|
                    (tb - 33) * 512 <= i < (tb - 1) * 512 ==> #[trigger] f.byte_at(i)
                        == entry_array(self.pentry@)[i - (tb - 33) * 512]
                &&& forall|i: int|
                    (tb - 1) * 512 <= i < tb * 512 ==> #[trigger] f.byte_at(i)
                        == self.bkp_hdr.block()[i - (tb - 1) * 512]
                &&& forall|i: int|
                    i < 0 || 1024 + ENTRY_ARRAY_BYTES <= i < (tb - 33) * 512 || tb * 512 <= i
                        ==> #[trigger] f.byte_at(i) == 0
            }),
    {
        let tb = image_size / 512;
        crate::entry::lemma_entry_array_len(self.pentry@);
        crate::mbr::lemma_protective_mbr_shape(tb);
        self.hdr.lemma_len();
        self.bkp_hdr.lemma_len();
        let log = self.fd@.log;
        assert(log.len() == 5);
        assert forall|i: int| true implies #[trigger] byte_after(log, i) == (if log[4].covers(i) {
            log[4].data[i - log[4].at]
        } else if log[3].covers(i) {
            log[3].data[i - log[3].at]
        } else if log[2].covers(i) {
            log[2].data[i - log[2].at]
        } else if log[1].covers(i) {
            log[1].data[i - log[1].at]
        } else if log[0].covers(i) {
            log[0].data[i - log[0].at]
        } else {
            0u8
        }) by {
            let l4 = log.drop_last();
            let l3 = l4.drop_last();
            let l2 = l3.drop_last();
            let l1 = l2.drop_last();
            let l0 = l1.drop_last();
            assert(l0.len() == 0);
            reveal_with_fuel(byte_after, 6);
        }
    }

    /// Whether entry `i` is the first that carries `name`.
    pub open spec fn first_named(&self, name: Seq<char>, i: int) -> bool {
        &&& 0 <= i < self.pentry@.len()
        &&& self.pentry@[i].partition_name@ == name
        &&& forall|j: int| 0 <= j < i ==> (#[trigger] self.pentry@[j]).partition_name@ != name
    }

    /// Whether no entry carries `name`.
    pub open spec fn none_named(&self, name: Seq<char>) -> bool {
        forall|j: int|
            0 <= j < self.pentry@.len() ==> (#[trigger] self.pentry@[j]).partition_name@ != name
    }

    /// Lays out the image of `image_size` bytes that `disk_guid` names,
    /// with `entries` as its partitions. Nothing random goes into it:
    /// the same arguments give the same image.
    pub fn assemble(image_size: usize, disk_guid: Guid, entries: Vec<GptPartitionEntry>) -> (res:
        Result<GptImage, BobErr>)
        ensures
            match layout_error(image_size as int / (LOGICAL_BLOCK_SZ as int), entries@) {
                Some(e) => res matches Err(f) && f == e,
                None => res matches Ok(img) && img.pentry@ == entries@ && img.assembled(
                    image_size as int,
                    disk_guid,
                ),
            },
    {
        let mut fd = ImageFile::create(image_size as u64);
        if image_size / LOGICAL_BLOCK_SZ < MIN_BLOCKS as usize {
            return Err(BobErr::ImageTooSmall);
        }
        match DiskImgBuilder::write_protective_mbr_header(&mut fd, image_size) {
            Ok(()) => {},
            Err(e) => {
                return Err(e);
            },
        }
        match DiskImgBuilder::write_gpt_partition_table(&mut fd, image_size, disk_guid, &entries) {
            Ok((hdr, bkp_hdr)) => {
                let img = GptImage { hdr, bkp_hdr, pentry: entries, fd };
                proof {
                    let tb = image_size as int / 512;
                    assert(layout_error(tb, entries@) is None);
                    crate::entry::lemma_entry_array_len(entries@);
                    crate::mbr::lemma_protective_mbr_shape(tb);
                    img.hdr.lemma_len();
                    img.bkp_hdr.lemma_len();
                    lemma_five_writes(
                        image_size as int,
                        protective_mbr(tb),
                        img.hdr.block(),
                        entry_array(img.pentry@),
                        img.bkp_hdr.block(),
                    );
                }
                Ok(img)
            },
            Err(e) => Err(e),
        }
    }

    /// A view of the first partition that carries `name`, with its
    /// cursor at the start of the partition and a handle of its own on
    /// the file; nothing where no partition carries the name.
    pub fn get_partition_view(&self, name: &str) -> (v: Option<PartitionView<'_>>)
        requires
            self.wf(),
        ensures
            match v {
                Some(p) => p.inv() && exists|i: int|
                    #![trigger self.pentry@[i]]
                    self.first_named(name@, i) && *p.meta == self.pentry@[i] && p.offset == 0
                        && p.fd@ == self.fd@.resume(),
                None => self.none_named(name@),
            },
    {
        let wanted = name.to_owned();
        let mut i: usize = 0;
        while i < self.pentry.len()
            invariant
                i <= self.pentry.len(),
                wanted@ == name@,
                self.wf(),
                forall|j: int|
                    0 <= j < i ==> (#[trigger] self.pentry@[j]).partition_name@ != name@,
            decreases self.pentry.len() - i,
        {
            if self.pentry[i].partition_name == wanted {
                assert(self.first_named(name@, i as int));
                assert(self.pentry@[i as int].addressable());
                return Some(PartitionView::new(self.fd.resume(), &self.pentry[i]));
            }
            i = i + 1;
        }
        None
    }
}

impl DiskImgBuilder {
    /// A builder that knows neither size nor file nor partitions.
    pub fn new() -> (b: DiskImgBuilder)
        ensures
            b.image_size is None,
            b.output is None,
            b.partitions@.len() == 0,
    {
        DiskImgBuilder { image_size: None, output: None, partitions: Vec::new() }
    }

    /// Sets the size of the image in bytes.
    pub fn total_size(self, s: usize) -> (b: DiskImgBuilder)
        ensures
            b.image_size == Some(s),
            b.output == self.output,
            b.partitions == self.partitions,
    {
        let mut b = self;
        b.image_size = Some(s);
        b
    }

    /// Sets the name of the file that the image goes to.
    pub fn output_file(self, o: &str) -> (b: DiskImgBuilder)
        ensures
            b.image_size == self.image_size,
            b.output matches Some(name) && name@ == o@,
            b.partitions == self.partitions,
    {
        let mut b = self;
        b.output = Some(o.to_owned());
        b
    }

    /// Adds a partition behind those that were added before.
    pub fn partition(self, p: PartitionInput) -> (b: DiskImgBuilder)
        ensures
            b.image_size == self.image_size,
            b.output == self.output,
            b.partitions@ == self.partitions@.push(p),
    {
        let mut b = self;
        b.partitions.push(p);
        b
    }

    /// The name of the file for an image that is made `unix_secs`
    /// seconds after the Unix epoch: the one that was asked for, or the
    /// default.
    pub fn file_name_at(&self, unix_secs: u64) -> (name: String)
        ensures
            name@ == match self.output {
                Some(o) => o@,
                None => default_name(unix_secs as nat),
            },
    {
        match &self.output {
            Some(o) => o.clone(),
            None => default_file_name(unix_secs),
        }
    }

    /// Builds the image. Without a size there is none to build; a size
    /// of fewer than 68 blocks cannot hold the table; more than 128
    /// partitions do not fit the entry array. Else the image is laid out
    /// with one entry for each partition, in the order in which they
    /// were added, under a fresh random disk GUID.
    pub fn build(self) -> (res: Result<GptImage, BobErr>)
        ensures
            match self.image_size {
                None => res matches Err(e) && e == BobErr::MissingArgument,
                Some(s) => if s / LOGICAL_BLOCK_SZ < MIN_BLOCKS {
                    res matches Err(e) && e == BobErr::ImageTooSmall
                } else if self.partitions@.len() > NUM_PARTITION_ENTRIES {
                    res matches Err(e) && e == BobErr::TooManyPartitions
                } else {
                    res matches Ok(img) && DiskImgBuilder::built(img, s as int, self.partitions@)
                },
            },
    {
        let image_size = match self.image_size {
            Some(s) => s,
            None => {
                return Err(BobErr::MissingArgument);
            },
        };
        let entries = DiskImgBuilder::entries_for(&self.partitions);
        let disk_guid = Guid::new_v4();
        GptImage::assemble(image_size, disk_guid, entries)
    }

    /// Whether `img` is an image of `image_size` bytes for `partitions`:
    /// entry `i` describes partition `i`, the disk GUID is of version 4,
    /// and headers and file are those that belong to the entries.
    pub open spec fn built(
        img: GptImage,
        image_size: int,
        partitions: Seq<PartitionInput>,
    ) -> bool {
        &&& img.pentry@.len() == partitions.len()
        &&& forall|i: int|
            0 <= i < partitions.len() ==> (#[trigger] img.pentry@[i]).describes(partitions[i])
        &&& is_v4(img.hdr.disk_guid@)
        &&& img.assembled(image_size, img.hdr.disk_guid)
        &&& img.wf()
    }

    /// One entry for each partition, in order, each with a fresh random
    /// unique GUID.
    pub fn entries_for(partitions: &Vec<PartitionInput>) -> (entries: Vec<GptPartitionEntry>)
        ensures
            entries@.len() == partitions@.len(),
            forall|i: int|
                0 <= i < partitions@.len() ==> (#[trigger] entries@[i]).describes(partitions@[i]),
            all_names_fit(entries@),
            all_addressable(entries@),
    {
        let mut entries: Vec<GptPartitionEntry> = Vec::new();
        let mut i: usize = 0;
        while i < partitions.len()
            invariant
                i <= partitions.len(),
                entries@.len() == i,
                forall|k: int| 0 <= k < i ==> (#[trigger] entries@[k]).describes(partitions@[k]),
                all_names_fit(entries@),
                all_addressable(entries@),
            decreases partitions.len() - i,
        {
            let e = GptPartitionEntry::from_partition(&partitions[i]);
            entries.push(e);
            i = i + 1;
        }
        entries
    }

    /// Writes the protective MBR of an image of `size` bytes into block
    /// 0 of `f`.
    pub fn write_protective_mbr_header(f: &mut ImageFile, size: usize) -> (res: Result<
        (),
        BobErr,
    >)
        ensures
            res == Ok::<(), BobErr>(()),
            final(f)@ == old(f)@.seek(0).write(
                protective_mbr(size as int / (LOGICAL_BLOCK_SZ as int)),
            ),
    {
        let block = protective_mbr_block((size / LOGICAL_BLOCK_SZ) as u64);
        f.seek_to(0);
        f.write_all(block.as_slice())
    }

    /// Writes the partition table of an image of `image_size` bytes into
    /// `f`: the primary header into block 1, the entry array behind it,
    /// the copy of the array into the 32 blocks before the last, and the
    /// backup header into the last block. Answers the two headers.
    /// Where the image cannot be laid out, nothing is written.
    pub fn write_gpt_partition_table(
        f: &mut ImageFile,
        image_size: usize,
        disk_guid: Guid,
        entries: &Vec<GptPartitionEntry>,
    ) -> (res: Result<(GptHeader, GptHeader), BobErr>)
        ensures
            match layout_error(image_size as int / (LOGICAL_BLOCK_SZ as int), entries@) {
                Some(e) => res == Err::<(GptHeader, GptHeader), BobErr>(e) && final(f)@ == old(
                    f)@,
                None => {
                    let tb = image_size as int / (LOGICAL_BLOCK_SZ as int);
                    let hdr = GptImage::primary_for(image_size as int, disk_guid, entries@);
                    let bkp = GptImage::backup_for(image_size as int, disk_guid, entries@);
                    &&& res == Ok::<(GptHeader, GptHeader), BobErr>((hdr, bkp))
                    &&& final(f)@ == old(f)@.seek(LOGICAL_BLOCK_SZ as int).write(
                        hdr.block(),
                    ).write(entry_array(entries@)).seek(
                        (tb - BACK_RESERVE) * LOGICAL_BLOCK_SZ,
                    ).write(entry_array(entries@)).seek((tb - 1) * LOGICAL_BLOCK_SZ).write(
                        bkp.block(),
                    )
                },
            },
    {
        let size_in_blocks = (image_size / LOGICAL_BLOCK_SZ) as u64;
        if size_in_blocks < MIN_BLOCKS {
            return Err(BobErr::ImageTooSmall);
        }
        let array = match entry_array_bytes(entries) {
            Ok(a) => a,
            Err(e) => {
                return Err(e);
            },
        };
        let array_crc = checksum(array.as_slice());
        let mut header = GptHeader::primary_header(size_in_blocks, disk_guid, array_crc);
        let mut backup = header.backup_header();
        header.crc();
        backup.crc();
        proof {
            header.lemma_len();
            backup.lemma_len();
            old(f).lemma_bounds();
        }
        let ghost f0 = f@;
        f.seek_to(LOGICAL_BLOCK_SZ as u64);
        let ghost f1 = f@;
        let _ = header.write(f);
        let ghost f2 = f@;
        assert(f2 == f1.write(header.block()));
        let _ = f.write_all(array.as_slice());
        let ghost f3 = f@;
        assert(f3 == f2.write(array@));
        f.seek_to((size_in_blocks - BACK_RESERVE) * 512);
        let ghost f4 = f@;
        let _ = f.write_all(array.as_slice());
        let ghost f5 = f@;
        assert(f5 == f4.write(array@));
        f.seek_to((size_in_blocks - 1) * 512);
        let ghost f6 = f@;
        let _ = backup.write(f);
        assert(f@ == f6.write(backup.block()));
        Ok((header, backup))
    }
}

} // verus!
