//! What the command line asks of an image once it is built.

use vstd::prelude::*;
use crate::err::BobErr;
use crate::file::lemma_bytes_outside_kept;
use crate::fat::{discard_count, fat_image, format_as_fat};
use crate::gpt::PartitionType;
use crate::image::GptImage;
use crate::partition::{Partition, ViewState};

verus! {

/// The view of entry `i` of `gpt` as `get_partition_view` hands it
/// out: cursor at the start, and a handle of its own on the file.
pub open spec fn fresh_view(gpt: GptImage, i: int) -> ViewState {
    ViewState {
        base: gpt.pentry@[i].starting_lba * 512,
        span: if gpt.pentry@[i].ending_lba >= gpt.pentry@[i].starting_lba {
            (gpt.pentry@[i].ending_lba - gpt.pentry@[i].starting_lba) * 512
        } else {
            0
        },
        cursor: 0,
        file: gpt.fd@.resume(),
    }
}

/// Formatting changes no byte outside the partition it formats, as long
/// as the cursor of the file does not stand inside that partition away
/// from its start: the table at both ends of the image, and every
/// other partition that does not overlap this one, stay as they were.
pub proof fn lemma_fat_keeps_outside(gpt: GptImage, i: int, k: int)
    requires
        gpt.wf(),
        0 <= i < gpt.pentry@.len(),
        fresh_view(gpt, i).synced(),
        k < fresh_view(gpt, i).base || fresh_view(gpt, i).base + fresh_view(gpt, i).span <= k,
    ensures
        gpt.fd@.absorb(fresh_view(gpt, i).write(fat_image()).0.file).byte_at(k) == gpt.fd@.byte_at(
            k,
        ),
{
    let v = fresh_view(gpt, i);
    assert(gpt.pentry@[i].addressable());
    gpt.fd.lemma_bounds();
    v.lemma_write_stays_inside(fat_image());
    let after = v.write(fat_image()).0;
    lemma_bytes_outside_kept(gpt.fd@.log, after.file.log, v.base, v.base + v.span, k);
}

/// Writes a FAT filesystem to the EFI system partition of the image:
/// the first partition that carries the name of that kind. Without
/// such a partition the image stays as it is. Else the structures are
/// written through a view of the partition, and what the view did to
/// the file joins the file of the image, whether the write went
/// through or not.
pub fn write_fat_fs(gpt: &mut GptImage) -> (res: Result<(), BobErr>)
    requires
        old(gpt).wf(),
    ensures
        final(gpt).wf(),
        final(gpt).hdr == old(gpt).hdr,
        final(gpt).bkp_hdr == old(gpt).bkp_hdr,
        final(gpt).pentry == old(gpt).pentry,
        old(gpt).none_named(PartitionType::EFISystem.spec_name()) ==> res == Err::<(), BobErr>(
            BobErr::NoSuchPartition,
        ) && final(gpt).fd == old(gpt).fd,
        forall|i: int|
            #![trigger old(gpt).pentry@[i]]
            old(gpt).first_named(PartitionType::EFISystem.spec_name(), i) ==> {
                let (after, w) = fresh_view(*old(gpt), i).write(fat_image());
                &&& res == discard_count(w)
                &&& final(gpt).fd@ == old(gpt).fd@.absorb(after.file)
            },
{
    let name = PartitionType::EFISystem.name();
    let (res, fd) = match gpt.get_partition_view(name.as_str()) {
        Some(p) => {
            let mut p = p;
            let ghost start = p;
            let res = format_as_fat(&mut p);
            proof {
                let w = choose|w: Result<usize, BobErr>| #[trigger]
                    start.wrote(&p, fat_image(), w) && res == discard_count(w);
                assert forall|i: int|
                    #![trigger old(gpt).pentry@[i]]
                    old(gpt).first_named(
                        PartitionType::EFISystem.spec_name(),
                        i,
                    ) implies start@ == fresh_view(*old(gpt), i) by {
                    let k = choose|k: int|
                        #![trigger gpt.pentry@[k]]
                        gpt.first_named(name@, k) && *start.meta == gpt.pentry@[k];
                    assert(k == i);
                }
            }
            (res, p.into_file())
        },
        None => {
            return Err(BobErr::NoSuchPartition);
        },
    };
    gpt.fd.absorb(fd);
    res
}

} // verus!
