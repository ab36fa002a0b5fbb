//! Partition entries: 128 bytes each, 128 of them in the entry array.

use vstd::prelude::*;
use crate::bytes::{push_u64_le, push_zeros, u64_le, zeros};
use crate::crc::{checksum, crc32_of};
use crate::err::BobErr;
use crate::file::ImageFile;
use crate::gpt::{PartitionInput, ENTRY_ARRAY_BYTES, NUM_PARTITION_ENTRIES, PARTITION_ENTRY_SZ};
use crate::guid::{is_v4, Guid};
use crate::mbr::LOGICAL_BLOCK_SZ;
use crate::utf16::{encode_name, name_field, name_fits};

verus! {

/// One partition as the entry array describes it.
#[derive(Debug)]
pub struct GptPartitionEntry {
    pub partition_type_guid: Guid,
    pub unique_partition_guid: Guid,
    pub starting_lba: u64,
    pub ending_lba: u64,
    pub attributes: u64,
    pub partition_name: String,
}

impl View for GptPartitionEntry {
    type V = Seq<u8>;

    /// The 128 bytes of the entry on disk. They mean something only
    /// where the name fits its field.
    open spec fn view(&self) -> Seq<u8> {
        self.partition_type_guid@ + self.unique_partition_guid@ + u64_le(self.starting_lba)
            + u64_le(self.ending_lba) + u64_le(self.attributes) + name_field(
            self.partition_name@,
        )
    }
}

impl GptPartitionEntry {
    /// Whether the entry's name fits the 72 bytes it has on disk.
    pub open spec fn name_fits(&self) -> bool {
        name_fits(self.partition_name@)
    }

    /// Whether both ends of the partition, counted in bytes, are
    /// offsets that `usize` can hold.
    pub open spec fn addressable(&self) -> bool {
        &&& self.starting_lba * LOGICAL_BLOCK_SZ <= usize::MAX
        &&& self.ending_lba * LOGICAL_BLOCK_SZ <= usize::MAX
    }

    /// Whether the entry is what `p` asks for: the GUID and the name of
    /// its kind, its offsets counted in blocks, no attributes, and a
    /// unique GUID of version 4.
    pub open spec fn describes(&self, p: PartitionInput) -> bool {
        &&& self.partition_type_guid@ == p.pt.uuid_wire()
        &&& is_v4(self.unique_partition_guid@)
        &&& self.starting_lba == p.start_offset / LOGICAL_BLOCK_SZ
        &&& self.ending_lba == p.end_offset / LOGICAL_BLOCK_SZ
        &&& self.attributes == 0
        &&& self.partition_name@ == p.pt.spec_name()
    }

    /// The entry for `p`, with a fresh random unique GUID.
    pub fn from_partition(p: &PartitionInput) -> (e: GptPartitionEntry)
        ensures
            e.describes(*p),
            e.name_fits(),
            e.addressable(),
    {
        proof {
            p.pt.lemma_name_fits();
        }
        GptPartitionEntry {
            partition_type_guid: p.pt.uuid(),
            unique_partition_guid: Guid::new_v4(),
            starting_lba: (p.start_offset / LOGICAL_BLOCK_SZ) as u64,
            ending_lba: (p.end_offset / LOGICAL_BLOCK_SZ) as u64,
            attributes: 0,
            partition_name: p.pt.name(),
        }
    }

    /// The 128 bytes of the entry, or `PartitionNameTooLong` where the
    /// name does not fit its field.
    pub fn bytes(&self) -> (res: Result<Vec<u8>, BobErr>)
        ensures
            self.name_fits() ==> (res matches Ok(out) && out@ == self@ && out@.len()
                == PARTITION_ENTRY_SZ),
            !self.name_fits() ==> res == Err::<Vec<u8>, BobErr>(BobErr::PartitionNameTooLong),
    {
        let name = match encode_name(self.partition_name.as_str()) {
            Ok(field) => field,
            Err(e) => {
                return Err(e);
            },
        };
        let mut out: Vec<u8> = Vec::new();
        let type_guid = self.partition_type_guid.to_bytes();
        out.extend_from_slice(type_guid.as_slice());
        assert(out@ =~= self.partition_type_guid@);
        let unique = self.unique_partition_guid.to_bytes();
        out.extend_from_slice(unique.as_slice());
        push_u64_le(&mut out, self.starting_lba);
        push_u64_le(&mut out, self.ending_lba);
        push_u64_le(&mut out, self.attributes);
        out.extend_from_slice(name.as_slice());
        proof {
            Guid::lemma_view_then_decode(self.partition_type_guid);
            Guid::lemma_view_then_decode(self.unique_partition_guid);
        }
        Ok(out)
    }

    /// The CRC-32 of the entry's 128 bytes, or `PartitionNameTooLong`
    /// where the name does not fit its field. The checksum that a header
    /// stores is not made of these: it covers the whole entry array at
    /// once.
    pub fn crc(&self) -> (res: Result<u32, BobErr>)
        ensures
            self.name_fits() ==> res == Ok::<u32, BobErr>(crc32_of(self@)),
            !self.name_fits() ==> res == Err::<u32, BobErr>(BobErr::PartitionNameTooLong),
    {
        match self.bytes() {
            Ok(b) => Ok(checksum(b.as_slice())),
            Err(e) => Err(e),
        }
    }

    /// Writes the entry's 128 bytes at the cursor of `f`. An entry whose
    /// name does not fit is refused before anything is written.
    pub fn write(&self, f: &mut ImageFile) -> (res: Result<(), BobErr>)
        ensures
            !self.name_fits() ==> res == Err::<(), BobErr>(BobErr::PartitionNameTooLong)
                && final(f)@ == old(f)@,
            self.name_fits() && old(f)@.takes(self@) ==> res == Ok::<(), BobErr>(()) && final(
                f)@ == old(f)@.write(self@),
            self.name_fits() && !old(f)@.takes(self@) ==> res == Err::<(), BobErr>(BobErr::IO)
                && final(f)@ == old(f)@,
    {
        match self.bytes() {
            Ok(b) => f.write_all(b.as_slice()),
            Err(e) => Err(e),
        }
    }
}

/// The bytes of `entries` one after the other.
pub open spec fn entries_wire(entries: Seq<GptPartitionEntry>) -> Seq<u8>
    decreases entries.len(),
{
    if entries.len() == 0 {
        Seq::empty()
    } else {
        entries_wire(entries.drop_last()) + entries.last()@
    }
}

/// Whether the name of every entry fits its field.
pub open spec fn all_names_fit(entries: Seq<GptPartitionEntry>) -> bool {
    forall|i: int| 0 <= i < entries.len() ==> (#[trigger] entries[i]).name_fits()
}

/// Whether every entry is addressable.
pub open spec fn all_addressable(entries: Seq<GptPartitionEntry>) -> bool {
    forall|i: int| 0 <= i < entries.len() ==> (#[trigger] entries[i]).addressable()
}

/// The partition entry array on disk: the entries in order, then zeros
/// for the slots that are not used, 16384 bytes in all.
pub open spec fn entry_array(entries: Seq<GptPartitionEntry>) -> Seq<u8> {
    entries_wire(entries) + zeros((ENTRY_ARRAY_BYTES - entries_wire(entries).len()) as nat)
}

/// An entry whose name fits takes 128 bytes.
pub proof fn lemma_entry_len(e: GptPartitionEntry)
    requires
        e.name_fits(),
    ensures
        e@.len() == PARTITION_ENTRY_SZ,
{
    Guid::lemma_view_then_decode(e.partition_type_guid);
    Guid::lemma_view_then_decode(e.unique_partition_guid);
    assert(u64_le(e.starting_lba).len() == 8);
    assert(u64_le(e.ending_lba).len() == 8);
    assert(u64_le(e.attributes).len() == 8);
    assert(name_field(e.partition_name@).len() == 72);
}

/// Entries whose names fit take 128 bytes each.
pub proof fn lemma_entries_wire_len(entries: Seq<GptPartitionEntry>)
    requires
        all_names_fit(entries),
    ensures
        entries_wire(entries).len() == entries.len() * PARTITION_ENTRY_SZ,
    decreases entries.len(),
{
    if entries.len() > 0 {
        let e = entries.last();
        let rest = entries.drop_last();
        assert(e.name_fits());
        lemma_entry_len(e);
        assert forall|i: int| 0 <= i < rest.len() implies (#[trigger] rest[i]).name_fits() by {
            assert(rest[i] == entries[i]);
        }
        lemma_entries_wire_len(rest);
        assert(entries_wire(entries).len() == entries_wire(rest).len() + e@.len());
    }
}

/// The array of at most 128 entries whose names fit takes 16384 bytes.
pub proof fn lemma_entry_array_len(entries: Seq<GptPartitionEntry>)
    requires
        all_names_fit(entries),
        entries.len() <= NUM_PARTITION_ENTRIES,
    ensures
        entry_array(entries).len() == ENTRY_ARRAY_BYTES,
{
    lemma_entries_wire_len(entries);
}

/// In an array of at most 128 entries whose names fit, entry `i`
/// occupies the 128 bytes from `128 * i` on.
pub proof fn lemma_entry_in_array(entries: Seq<GptPartitionEntry>, i: int)
    requires
        all_names_fit(entries),
        entries.len() <= NUM_PARTITION_ENTRIES,
        0 <= i < entries.len(),
    ensures
        entry_array(entries).len() == ENTRY_ARRAY_BYTES,
        entry_array(entries).subrange(
            i * PARTITION_ENTRY_SZ,
            (i + 1) * PARTITION_ENTRY_SZ,
        ) == entries[i]@,
    decreases entries.len(),
{
    lemma_entries_wire_len(entries);
    let rest = entries.drop_last();
    assert forall|k: int| 0 <= k < rest.len() implies (#[trigger] rest[k]).name_fits() by {
        assert(rest[k] == entries[k]);
    }
    lemma_entries_wire_len(rest);
    let e = entries.last();
    assert(e.name_fits());
    lemma_entry_len(e);
    if i == entries.len() - 1 {
        assert(entry_array(entries).subrange(i * 128, (i + 1) * 128) =~= e@);
    } else {
        lemma_entry_in_array(rest, i);
        assert(rest[i] == entries[i]);
        assert(entry_array(entries).subrange(i * 128, (i + 1) * 128) =~= entry_array(
            rest,
        ).subrange(i * 128, (i + 1) * 128));
    }
}

/// Builds the partition entry array. More than 128 entries are refused
/// with `TooManyPartitions`; otherwise an entry whose name does not fit
/// is refused with `PartitionNameTooLong`.
pub fn entry_array_bytes(entries: &Vec<GptPartitionEntry>) -> (res: Result<Vec<u8>, BobErr>)
    ensures
        entries@.len() > NUM_PARTITION_ENTRIES ==> res == Err::<Vec<u8>, BobErr>(
            BobErr::TooManyPartitions,
        ),
        entries@.len() <= NUM_PARTITION_ENTRIES && !all_names_fit(entries@) ==> res == Err::<
            Vec<u8>,
            BobErr,
        >(BobErr::PartitionNameTooLong),
        entries@.len() <= NUM_PARTITION_ENTRIES && all_names_fit(entries@) ==> (res matches Ok(
            out,
        ) && out@ == entry_array(entries@) && out@.len() == ENTRY_ARRAY_BYTES),
{
    if entries.len() > NUM_PARTITION_ENTRIES as usize {
        return Err(BobErr::TooManyPartitions);
    }
    let mut out: Vec<u8> = Vec::new();
    let mut i: usize = 0;
    while i < entries.len()
        invariant
            i <= entries.len(),
            entries@.len() <= NUM_PARTITION_ENTRIES,
            all_names_fit(entries@.take(i as int)),
            out@ == entries_wire(entries@.take(i as int)),
            out@.len() == i * PARTITION_ENTRY_SZ,
        decreases entries.len() - i,
    {
        let ghost next = entries@.take(i + 1);
        proof {
            assert(next.drop_last() =~= entries@.take(i as int));
            assert(next.last() == entries@[i as int]);
        }
        match entries[i].bytes() {
            Ok(b) => {
                out.extend_from_slice(b.as_slice());
                proof {
                    assert forall|k: int| 0 <= k < next.len() implies (
                    #[trigger] next[k]).name_fits() by {
                        if k < i {
                            assert(entries@.take(i as int)[k] == next[k]);
                        }
                    }
                }
            },
            Err(e) => {
                assert(!entries@[i as int].name_fits());
                return Err(e);
            },
        }
        i = i + 1;
    }
    assert(entries@.take(i as int) =~= entries@);
    let fill = ENTRY_ARRAY_BYTES - out.len();
    push_zeros(&mut out, fill);
    Ok(out)
}

} // verus!
