use bob::file::ImageFile;
use bob::mbr::{protective_mbr_block, protective_record, PartitionRecord, LOGICAL_BLOCK_SZ};

#[test]
fn unused_record_is_sixteen_zeros() {
    assert_eq!(PartitionRecord::new().bytes(), vec![0u8; 16]);
}

#[test]
fn protective_record_claims_the_disk() {
    let r = protective_record(8192);
    assert_eq!(r.boot_indicator, 0);
    assert_eq!(r.starting_chs, [0x00, 0x02, 0x00]);
    assert_eq!(r.os_type, 0xEE);
    assert_eq!(r.ending_chs, [0xFF, 0xFF, 0xFF]);
    assert_eq!(r.starting_lba, 1);
    assert_eq!(r.size_in_lba, 8192);
    assert_eq!(
        r.bytes(),
        vec![0, 0x00, 0x02, 0x00, 0xEE, 0xFF, 0xFF, 0xFF, 1, 0, 0, 0, 0x00, 0x20, 0, 0]
    );
}

#[test]
fn size_is_cut_down_to_32_bits() {
    assert_eq!(protective_record(0x1_0000_0005).size_in_lba, 5);
    assert_eq!(protective_record(0xFFFF_FFFF).size_in_lba, 0xFFFF_FFFF);
}

#[test]
fn protective_mbr_is_one_block() {
    let block = protective_mbr_block(8192);
    assert_eq!(block.len(), LOGICAL_BLOCK_SZ);
    assert!(block[..446].iter().all(|b| *b == 0));
    assert_eq!(&block[446..462], &protective_record(8192).bytes()[..]);
    assert!(block[462..510].iter().all(|b| *b == 0));
    assert_eq!(block[510], 0x55);
    assert_eq!(block[511], 0xAA);
}

#[test]
fn record_is_written_at_the_cursor() {
    let mut f = ImageFile::create(4096);
    f.seek_to(446);
    assert_eq!(protective_record(8).write(&mut f), Ok(()));
    assert_eq!(f.stream_position(), 462);
    assert_eq!(f.extents().len(), 1);
    assert_eq!(f.extents()[0].offset, 446);
    assert_eq!(f.extents()[0].data, protective_record(8).bytes());
    assert_eq!(f.byte(450), 0xEE);
    assert_eq!(f.byte(445), 0);
    assert_eq!(f.len(), 4096);
}
