//! The backing file of an image, as the library sees it.
//!
//! Nothing here touches a real file. An [`ImageFile`] records the length
//! of the file, the position of its cursor and every write made through
//! it, in order. Whoever owns the real file replays the extents; a byte
//! that no extent covers is zero, as in a file that was extended to its
//! length when it was created.

use vstd::prelude::*;
use crate::err::BobErr;

verus! {

/// Bytes together with the place in the file where they go.
#[derive(Debug)]
pub struct Extent {
    pub offset: u64,
    pub data: Vec<u8>,
}

/// An [`Extent`] in specifications.
pub ghost struct Written {
    pub at: int,
    pub data: Seq<u8>,
}

impl View for Extent {
    type V = Written;

    open spec fn view(&self) -> Written {
        Written { at: self.offset as int, data: self.data@ }
    }
}

impl Written {
    /// Whether the extent holds the byte at `i`.
    pub open spec fn covers(self, i: int) -> bool {
        self.at <= i < self.at + self.data.len()
    }

    /// The first position behind the extent.
    pub open spec fn end(self) -> int {
        self.at + self.data.len()
    }
}

/// What a file is at one moment: its length, its cursor, and the writes
/// that made it, oldest first.
pub ghost struct FileState {
    pub len: int,
    pub pos: int,
    pub log: Seq<Written>,
}

/// The byte at `i` after the writes of `log` went into a file of zeros:
/// that of the latest extent that covers `i`.
pub open spec fn byte_after(log: Seq<Written>, i: int) -> u8
    decreases log.len(),
{
    if log.len() == 0 {
        0
    } else if log.last().covers(i) {
        log.last().data[i - log.last().at]
    } else {
        byte_after(log.drop_last(), i)
    }
}

impl FileState {
    /// The byte at `i`.
    pub open spec fn byte_at(self, i: int) -> u8 {
        byte_after(self.log, i)
    }

    /// The state after `data` was written at the cursor.
    pub open spec fn write(self, data: Seq<u8>) -> FileState {
        FileState {
            len: if self.pos + data.len() > self.len {
                self.pos + data.len()
            } else {
                self.len
            },
            pos: self.pos + data.len(),
            log: self.log.push(Written { at: self.pos, data }),
        }
    }

    /// Whether `data` can be written at the cursor: the cursor must stay
    /// within what a `u64` can hold.
    pub open spec fn takes(self, data: Seq<u8>) -> bool {
        self.pos + data.len() <= u64::MAX
    }

    /// The state after the cursor moved to `pos`.
    pub open spec fn seek(self, pos: int) -> FileState {
        FileState { pos, ..self }
    }

    /// A handle on the same file that has no writes of its own yet.
    pub open spec fn resume(self) -> FileState {
        FileState { log: Seq::empty(), ..self }
    }

    /// The state after the writes of `later`, a handle that took over
    /// from this one, are added to the log.
    pub open spec fn absorb(self, later: FileState) -> FileState {
        FileState {
            len: if later.len > self.len {
                later.len
            } else {
                self.len
            },
            pos: later.pos,
            log: self.log + later.log,
        }
    }
}

/// A write changes the bytes it covers and no others.
pub proof fn lemma_byte_after_write(log: Seq<Written>, w: Written, i: int)
    ensures
        byte_after(log.push(w), i) == if w.covers(i) {
            w.data[i - w.at]
        } else {
            byte_after(log, i)
        },
{
    assert(log.push(w).drop_last() =~= log);
}

/// Writes that stay inside `[lo, hi)` leave every byte outside of it as
/// it was.
pub proof fn lemma_bytes_outside_kept(
    before: Seq<Written>,
    later: Seq<Written>,
    lo: int,
    hi: int,
    i: int,
)
    requires
        forall|k: int|
            0 <= k < later.len() ==> lo <= (#[trigger] later[k]).at && later[k].end() <= hi,
        i < lo || hi <= i,
    ensures
        byte_after(before + later, i) == byte_after(before, i),
    decreases later.len(),
{
    if later.len() == 0 {
        assert(before + later =~= before);
    } else {
        let w = later.last();
        assert((before + later).drop_last() =~= before + later.drop_last());
        assert((before + later).last() == w);
        assert(!w.covers(i));
        lemma_bytes_outside_kept(before, later.drop_last(), lo, hi, i);
    }
}

/// The library's stand-in for the open file behind an image.
#[derive(Debug)]
pub struct ImageFile {
    len: u64,
    pos: u64,
    writes: Vec<Extent>,
}

impl View for ImageFile {
    type V = FileState;

    closed spec fn view(&self) -> FileState {
        FileState {
            len: self.len as int,
            pos: self.pos as int,
            log: self.writes@.map_values(|e: Extent| e@),
        }
    }
}

impl ImageFile {
    /// A file of `len` zero bytes with the cursor at its start.
    pub fn create(len: u64) -> (f: ImageFile)
        ensures
            f@ == (FileState { len: len as int, pos: 0, log: Seq::empty() }),
    {
        let f = ImageFile { len, pos: 0, writes: Vec::new() };
        assert(f@.log =~= Seq::empty());
        f
    }

    /// Length and cursor of a handle are numbers that a `u64` holds.
    pub proof fn lemma_bounds(&self)
        ensures
            0 <= self@.len <= u64::MAX,
            0 <= self@.pos <= u64::MAX,
    {
    }

    /// The length of the file in bytes.
    pub fn len(&self) -> (n: u64)
        ensures
            n == self@.len,
    {
        self.len
    }

    /// Where the next write lands.
    pub fn stream_position(&self) -> (pos: u64)
        ensures
            pos == self@.pos,
    {
        self.pos
    }

    /// The writes made through this handle, oldest first.
    pub fn extents(&self) -> (log: &Vec<Extent>)
        ensures
            log@.map_values(|e: Extent| e@) == self@.log,
    {
        &self.writes
    }

    /// The byte at `i` as the writes so far leave it: that of the latest
    /// extent that covers `i`, or zero where none does.
    pub fn byte(&self, i: u64) -> (b: u8)
        ensures
            b == self@.byte_at(i as int),
    {
        let mut k: usize = self.writes.len();
        assert(self@.log.take(k as int) =~= self@.log);
        while k > 0
            invariant
                k <= self.writes.len(),
                byte_after(self@.log, i as int) == byte_after(self@.log.take(k as int), i as int),
            decreases k,
        {
            let e = &self.writes[k - 1];
            let ghost upto = self@.log.take(k as int);
            proof {
                assert(upto.last() == e@);
                assert(upto.drop_last() =~= self@.log.take(k - 1));
            }
            if e.offset <= i && i - e.offset < e.data.len() as u64 {
                return e.data[(i - e.offset) as usize];
            }
            k = k - 1;
        }
        0
    }

    /// Moves the cursor to `pos`, counted from the start of the file.
    pub fn seek_to(&mut self, pos: u64)
        ensures
            final(self)@ == old(self)@.seek(pos as int),
    {
        self.pos = pos;
    }

    /// Writes all of `buf` at the cursor and moves the cursor behind it.
    /// A write past the end lengthens the file. A write that would carry
    /// the cursor beyond what a `u64` can hold is refused and changes
    /// nothing.
    pub fn write(&mut self, buf: &[u8]) -> (res: Result<usize, BobErr>)
        ensures
            old(self)@.takes(buf@) ==> res == Ok::<usize, BobErr>(buf@.len() as usize)
                && final(self)@ == old(self)@.write(buf@),
            !old(self)@.takes(buf@) ==> res == Err::<usize, BobErr>(BobErr::IO) && final(self)@
                == old(self)@,
    {
        let n = buf.len();
        if n as u64 > u64::MAX - self.pos {
            return Err(BobErr::IO);
        }
        let end = self.pos + n as u64;
        let mut data: Vec<u8> = Vec::new();
        data.extend_from_slice(buf);
        let extent = Extent { offset: self.pos, data };
        proof {
            assert(extent.data@ =~= buf@);
            assert(self.writes@.push(extent).map_values(|e: Extent| e@) =~= self@.log.push(
                Written { at: self.pos as int, data: buf@ },
            ));
        }
        self.writes.push(extent);
        self.pos = end;
        if end > self.len {
            self.len = end;
        }
        Ok(n)
    }

    /// [`ImageFile::write`] for callers that have no use for the count.
    pub fn write_all(&mut self, buf: &[u8]) -> (res: Result<(), BobErr>)
        ensures
            old(self)@.takes(buf@) ==> res == Ok::<(), BobErr>(()) && final(self)@
                == old(self)@.write(buf@),
            !old(self)@.takes(buf@) ==> res == Err::<(), BobErr>(BobErr::IO) && final(self)@
                == old(self)@,
    {
        match self.write(buf) {
            Ok(_) => Ok(()),
            Err(e) => Err(e),
        }
    }

    /// A second handle on the same file: same length, same cursor, no
    /// writes of its own.
    pub fn resume(&self) -> (f: ImageFile)
        ensures
            f@ == self@.resume(),
    {
        let f = ImageFile { len: self.len, pos: self.pos, writes: Vec::new() };
        assert(f@.log =~= Seq::empty());
        f
    }

    /// Takes over what was done through `later`, a handle that resumed
    /// this one: its writes join the log, and its cursor becomes the
    /// cursor.
    pub fn absorb(&mut self, later: ImageFile)
        ensures
            final(self)@ == old(self)@.absorb(later@),
    {
        let mut later = later;
        proof {
            assert((self.writes@ + later.writes@).map_values(|e: Extent| e@) =~= self@.log
                + later@.log);
        }
        self.writes.append(&mut later.writes);
        self.pos = later.pos;
        if later.len > self.len {
            self.len = later.len;
        }
    }
}

} // verus!
