//! Access to one partition of an image, and to nothing else.
//!
//! A formatter gets a [`Partition`]: it can write, move its cursor and
//! ask for the partition's kind, name and size. Positions are counted
//! from the start of the partition, and no write that begins at the
//! partition's cursor reaches past its end.

use vstd::prelude::*;
use crate::entry::GptPartitionEntry;
use crate::err::BobErr;
use crate::file::{lemma_byte_after_write, FileState, ImageFile, Written};
use crate::gpt::PartitionType;
use crate::mbr::LOGICAL_BLOCK_SZ;

verus! {

/// Where a seek goes: so many bytes from the start of the partition,
/// from its end, or from the cursor.
#[derive(Debug, Clone, Copy, PartialEq, Eq, Structural)]
pub enum SeekFrom {
    Start(u64),
    End(i64),
    Current(i64),
}

/// What a formatter may do with a partition.
pub trait Partition {
    /// Whether the value is in a state its methods can work from.
    spec fn inv(&self) -> bool;

    /// The size of the partition in bytes.
    spec fn span(&self) -> int;

    /// The name of the partition.
    spec fn label(&self) -> Seq<char>;

    /// Whether a write of `buf` can take the partition from `self` to
    /// `after` and answer `res`.
    spec fn wrote(&self, after: &Self, buf: Seq<u8>, res: Result<usize, BobErr>) -> bool;

    /// Whether a seek to `to` can take the partition from `self` to
    /// `after` and answer `res`.
    spec fn sought(&self, after: &Self, to: SeekFrom, res: Result<u64, BobErr>) -> bool;

    /// The kind of the partition.
    fn ptype(&self) -> (pt: PartitionType)
        ensures
            pt == PartitionType::EFISystem,
    ;

    /// The name of the partition.
    fn name(&self) -> (s: &str)
        ensures
            s@ == self.label(),
    ;

    /// The size of the partition in bytes.
    fn size(&self) -> (n: usize)
        requires
            self.inv(),
        ensures
            n == self.span(),
    ;

    /// Writes `buf` at the cursor and answers how many bytes went out.
    fn write(&mut self, buf: &[u8]) -> (res: Result<usize, BobErr>)
        requires
            old(self).inv(),
        ensures
            final(self).inv(),
            old(self).wrote(final(self), buf@, res),
    ;

    /// Hands every byte written so far on to the backing store.
    fn flush(&mut self) -> (res: Result<(), BobErr>)
        requires
            old(self).inv(),
        ensures
            final(self).inv(),
            final(self).span() == old(self).span(),
    ;

    /// Moves the cursor and answers its new place, counted from the
    /// start of the partition.
    fn seek(&mut self, pos: SeekFrom) -> (res: Result<u64, BobErr>)
        requires
            old(self).inv(),
        ensures
            final(self).inv(),
            old(self).sought(final(self), pos, res),
    ;
}

/// `x`, or the nearer end of `[lo, hi]` where `x` lies outside.
pub open spec fn clamp(x: int, lo: int, hi: int) -> int {
    if x < lo {
        lo
    } else if x > hi {
        hi
    } else {
        x
    }
}

/// A [`PartitionView`] in specifications: where the partition starts in
/// the file, how long it is, where its cursor stands, and the file.
pub ghost struct ViewState {
    pub base: int,
    pub span: int,
    pub cursor: int,
    pub file: FileState,
}

impl ViewState {
    /// The partition lies where a `usize` can address it, and the cursor
    /// lies in the partition or at its end.
    pub open spec fn inv(self) -> bool {
        &&& 0 <= self.base
        &&& 0 <= self.span
        &&& self.base + self.span <= usize::MAX
        &&& 0 <= self.cursor <= self.span
        &&& 0 <= self.file.pos <= u64::MAX
    }

    /// Whether the cursor of the file stands inside the partition.
    pub open spec fn in_range(self) -> bool {
        self.base <= self.file.pos < self.base + self.span
    }

    /// Whether the cursor of the file, where it stands inside the
    /// partition, stands where the cursor of the partition says.
    pub open spec fn synced(self) -> bool {
        self.in_range() ==> self.file.pos == self.base + self.cursor
    }

    /// The state in which a write begins: a file cursor outside the
    /// partition is first moved to the partition's cursor.
    pub open spec fn positioned(self) -> ViewState {
        if self.in_range() {
            self
        } else {
            ViewState { file: self.file.seek(self.base + self.cursor), ..self }
        }
    }

    /// What a write of `buf` does. A buffer longer than what is left of
    /// the partition behind the cursor is refused, and nothing is
    /// written; else the bytes go out and the cursor moves behind them.
    pub open spec fn write(self, buf: Seq<u8>) -> (ViewState, Result<usize, BobErr>) {
        let at = self.positioned();
        if buf.len() > self.span - self.cursor {
            (at, Err(BobErr::PartitionBoundsExceeded))
        } else if !at.file.takes(buf) {
            (at, Err(BobErr::IO))
        } else {
            (
                ViewState { cursor: self.cursor + buf.len(), file: at.file.write(buf), ..at },
                Ok(buf.len() as usize),
            )
        }
    }

    /// The offset in the partition that a seek asks for, before it is
    /// held to the partition.
    pub open spec fn target(self, to: SeekFrom) -> int {
        match to {
            SeekFrom::Start(o) => o as int,
            SeekFrom::End(d) => self.span + d,
            SeekFrom::Current(d) => self.cursor + d,
        }
    }

    /// What a seek does: the target is held to the partition, and both
    /// cursors move there.
    pub open spec fn seek(self, to: SeekFrom) -> (ViewState, Result<u64, BobErr>) {
        let c = clamp(self.target(to), 0, self.span);
        (ViewState { cursor: c, file: self.file.seek(self.base + c), ..self }, Ok(c as u64))
    }

    /// A write keeps the state sound.
    pub proof fn lemma_write_keeps_inv(self, buf: Seq<u8>)
        requires
            self.inv(),
        ensures
            self.write(buf).0.inv(),
            self.write(buf).0.base == self.base,
            self.write(buf).0.span == self.span,
    {
    }

    /// The cursor counts what was written: after two writes that went
    /// through it has moved by both lengths. A write that stays within
    /// what is left goes through, as far as the partition is concerned;
    /// one that does not is refused, writes nothing and leaves the
    /// cursor where it was.
    pub proof fn lemma_writes_accumulate(self, first: Seq<u8>, second: Seq<u8>)
        requires
            self.inv(),
        ensures
            ({
                let (v1, r1) = self.write(first);
                let (v2, r2) = v1.write(second);
                &&& r1 is Ok ==> v1.cursor == self.cursor + first.len()
                &&& r1 is Ok && r2 is Ok ==> v2.cursor == self.cursor + first.len() + second.len()
                &&& r1 is Ok ==> (r2 == Err::<usize, BobErr>(BobErr::PartitionBoundsExceeded)
                    <==> self.cursor + first.len() + second.len() > self.span)
                &&& r1 is Err ==> v1.cursor == self.cursor && v1.file.log == self.file.log
                &&& r2 is Err ==> v2.cursor == v1.cursor && v2.file.log == v1.file.log
            }),
    {
    }

    /// Where the two cursors agree, a write lands at the cursor of the
    /// partition, ends inside the partition, and leaves the cursors in
    /// agreement. The backing store has no reason to refuse it.
    pub proof fn lemma_write_stays_inside(self, buf: Seq<u8>)
        requires
            self.inv(),
            self.synced(),
        ensures
            ({
                let (v, r) = self.write(buf);
                &&& v.synced()
                &&& r != Err::<usize, BobErr>(BobErr::IO)
                &&& r is Ok ==> v.file.log == self.file.log.push(
                    Written { at: self.base + self.cursor, data: buf },
                ) && self.base + self.cursor + buf.len() <= self.base + self.span
                &&& r is Err ==> v.file.log == self.file.log
            }),
    {
    }

    /// Where the two cursors agree, a write changes no byte outside the
    /// partition, whether it goes through or not.
    pub proof fn lemma_write_keeps_outside(self, buf: Seq<u8>, i: int)
        requires
            self.inv(),
            self.synced(),
            i < self.base || self.base + self.span <= i,
        ensures
            self.write(buf).0.file.byte_at(i) == self.file.byte_at(i),
    {
        self.lemma_write_stays_inside(buf);
        lemma_byte_after_write(
            self.file.log,
            Written { at: self.base + self.cursor, data: buf },
            i,
        );
    }

    /// A seek brings the two cursors into agreement.
    pub proof fn lemma_seek_syncs(self, to: SeekFrom)
        requires
            self.inv(),
        ensures
            self.seek(to).0.inv(),
            self.seek(to).0.synced(),
            self.seek(to).0.file.log == self.file.log,
    {
    }
}

/// A window onto one partition of an image. It knows the partition's
/// entry, keeps a cursor of its own, and writes through its own handle
/// on the file of the image.
#[derive(Debug)]
pub struct PartitionView<'a> {
    pub meta: &'a GptPartitionEntry,
    pub offset: u64,
    pub fd: ImageFile,
}

impl<'a> View for PartitionView<'a> {
    type V = ViewState;

    open spec fn view(&self) -> ViewState {
        ViewState {
            base: self.meta.starting_lba * LOGICAL_BLOCK_SZ,
            span: if self.meta.ending_lba >= self.meta.starting_lba {
                (self.meta.ending_lba - self.meta.starting_lba) * LOGICAL_BLOCK_SZ
            } else {
                0
            },
            cursor: self.offset as int,
            file: self.fd@,
        }
    }
}

impl<'a> PartitionView<'a> {
    /// A view of the partition that `meta` describes, with its cursor at
    /// the start of the partition.
    pub fn new(fd: ImageFile, meta: &'a GptPartitionEntry) -> (v: PartitionView<'a>)
        requires
            meta.addressable(),
        ensures
            v.meta == meta,
            v.offset == 0,
            v.fd == fd,
            v.inv(),
    {
        let v = PartitionView { meta, offset: 0, fd };
        proof {
            v.fd.lemma_bounds();
        }
        v
    }

    /// Gives up the view for its handle on the file.
    pub fn into_file(self) -> (fd: ImageFile)
        ensures
            fd == self.fd,
    {
        self.fd
    }

    fn base_bytes(&self) -> (b: u64)
        requires
            self.meta.addressable(),
        ensures
            b == self@.base,
    {
        self.meta.starting_lba * 512
    }

    fn span_bytes(&self) -> (n: u64)
        requires
            self.meta.addressable(),
        ensures
            n == self@.span,
            self@.base + self@.span <= usize::MAX,
    {
        if self.meta.ending_lba >= self.meta.starting_lba {
            let blocks = self.meta.ending_lba - self.meta.starting_lba;
            assert(blocks * 512 <= self.meta.ending_lba * 512);
            blocks * 512
        } else {
            0
        }
    }
}

impl<'a> Partition for PartitionView<'a> {
    open spec fn inv(&self) -> bool {
        &&& self.meta.addressable()
        &&& self@.inv()
    }

    open spec fn span(&self) -> int {
        self@.span
    }

    open spec fn label(&self) -> Seq<char> {
        self.meta.partition_name@
    }

    open spec fn wrote(&self, after: &Self, buf: Seq<u8>, res: Result<usize, BobErr>) -> bool {
        &&& after.meta == self.meta
        &&& (after@, res) == self@.write(buf)
    }

    open spec fn sought(&self, after: &Self, to: SeekFrom, res: Result<u64, BobErr>) -> bool {
        &&& after.meta == self.meta
        &&& (after@, res) == self@.seek(to)
    }

    fn ptype(&self) -> (pt: PartitionType) {
        PartitionType::EFISystem
    }

    fn name(&self) -> (s: &str) {
        self.meta.partition_name.as_str()
    }

    fn size(&self) -> (n: usize) {
        self.span_bytes() as usize
    }

    fn write(&mut self, buf: &[u8]) -> (res: Result<usize, BobErr>) {
        let base = self.base_bytes();
        let span = self.span_bytes();
        let current_pos = self.fd.stream_position();
        if current_pos < base || current_pos >= base + span {
            self.fd.seek_to(base + self.offset);
        }
        let space_remaining = span - self.offset;
        if buf.len() as u64 > space_remaining {
            return Err(BobErr::PartitionBoundsExceeded);
        }
        match self.fd.write(buf) {
            Ok(written) => {
                self.offset = self.offset + written as u64;
                Ok(written)
            },
            Err(e) => Err(e),
        }
    }

    fn flush(&mut self) -> (res: Result<(), BobErr>)
        ensures
            res == Ok::<(), BobErr>(()),
            *final(self) == *old(self),
    {
        Ok(())
    }

    fn seek(&mut self, pos: SeekFrom) -> (res: Result<u64, BobErr>) {
        let base = self.base_bytes();
        let span = self.span_bytes();
        let target: i128 = match pos {
            SeekFrom::Start(o) => o as i128,
            SeekFrom::End(d) => span as i128 + d as i128,
            SeekFrom::Current(d) => self.offset as i128 + d as i128,
        };
        let held: u64 = if target < 0 {
            0
        } else if target > span as i128 {
            span
        } else {
            target as u64
        };
        self.offset = held;
        self.fd.seek_to(base + held);
        Ok(held)
    }
}

} // verus!
