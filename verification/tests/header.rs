use bob::file::ImageFile;
use bob::guid::Guid;
use bob::header::{header_crc_matches, GptHeader};

fn sample() -> GptHeader {
    let disk: [u8; 16] = [0, 1, 2, 3, 4, 5, 6, 7, 8, 9, 10, 11, 12, 13, 14, 15];
    GptHeader::primary_header(8192, Guid::from_bytes(disk), 0xEF5E_9C6C)
}

#[test]
fn blank_header_has_the_fixed_fields() {
    let h = GptHeader::new();
    assert_eq!(h.signature, 0x5452_4150_2049_4645);
    assert_eq!(h.revision, 0x0001_0000);
    assert_eq!(h.header_sz, 92);
    assert_eq!(h.header_crc32, 0);
    assert_eq!(h.reserved, 0);
    assert_eq!(h.my_lba, 0);
    assert_eq!(h.alt_lba, 0);
    assert_eq!(h.first_usable_lba, 0);
    assert_eq!(h.last_usable_lba, 0);
    assert_eq!(h.partition_entry_lba, 0);
    assert_eq!(h.num_partition_entries, 0);
    assert_eq!(h.partition_entry_sz, 0);
    assert_eq!(h.partition_entry_array_crc32, 0);
    let guid = h.disk_guid.to_bytes();
    assert_eq!(guid[7] & 0xF0, 0x40);
    assert_eq!(guid[8] & 0xC0, 0x80);
}

#[test]
fn primary_header_fields() {
    let h = sample();
    assert_eq!(h.my_lba, 1);
    assert_eq!(h.alt_lba, 8191);
    assert_eq!(h.first_usable_lba, 34);
    assert_eq!(h.last_usable_lba, 8192 - 34);
    assert_eq!(h.partition_entry_lba, 2);
    assert_eq!(h.num_partition_entries, 128);
    assert_eq!(h.partition_entry_sz, 128);
    assert_eq!(h.partition_entry_array_crc32, 0xEF5E_9C6C);
    assert_eq!(h.header_crc32, 0);
}

#[test]
fn backup_header_fields() {
    let p = sample();
    let b = p.backup_header();
    assert_eq!(b.my_lba, 8191);
    assert_eq!(b.alt_lba, 1);
    assert_eq!(b.partition_entry_lba, 8192 - 33);
    assert_eq!(b.first_usable_lba, p.first_usable_lba);
    assert_eq!(b.last_usable_lba, p.last_usable_lba);
    assert_eq!(b.disk_guid.to_bytes(), p.disk_guid.to_bytes());
    assert_eq!(b.partition_entry_array_crc32, p.partition_entry_array_crc32);
}

#[test]
fn header_bytes_stand_at_their_offsets() {
    let mut h = sample();
    h.header_crc32 = 0x1122_3344;
    let b = h.bytes();
    assert_eq!(b.len(), 92);
    assert_eq!(&b[0..8], b"EFI PART");
    assert_eq!(&b[8..12], &[0, 0, 1, 0]);
    assert_eq!(&b[12..16], &[92, 0, 0, 0]);
    assert_eq!(&b[16..20], &[0x44, 0x33, 0x22, 0x11]);
    assert_eq!(&b[20..24], &[0, 0, 0, 0]);
    assert_eq!(&b[24..32], &1u64.to_le_bytes());
    assert_eq!(&b[32..40], &8191u64.to_le_bytes());
    assert_eq!(&b[40..48], &34u64.to_le_bytes());
    assert_eq!(&b[48..56], &8158u64.to_le_bytes());
    assert_eq!(&b[56..72], &[0, 1, 2, 3, 4, 5, 6, 7, 8, 9, 10, 11, 12, 13, 14, 15]);
    assert_eq!(&b[72..80], &2u64.to_le_bytes());
    assert_eq!(&b[80..84], &128u32.to_le_bytes());
    assert_eq!(&b[84..88], &128u32.to_le_bytes());
    assert_eq!(&b[88..92], &0xEF5E_9C6Cu32.to_le_bytes());
}

#[test]
fn checksums_of_a_known_header() {
    let mut p = sample();
    let mut b = p.backup_header();
    p.crc();
    b.crc();
    assert_eq!(p.header_crc32, 0x7759_21BA);
    assert_eq!(b.header_crc32, 0x0835_15EA);
}

#[test]
fn checksum_does_not_depend_on_the_old_checksum() {
    let mut a = sample();
    let mut b = sample();
    b.header_crc32 = 0xFFFF_FFFF;
    a.crc();
    b.crc();
    assert_eq!(a.header_crc32, b.header_crc32);
}

#[test]
fn header_block_is_padded_with_zeros() {
    let mut h = sample();
    h.crc();
    let mut f = ImageFile::create(4096);
    f.seek_to(512);
    assert_eq!(h.write(&mut f), Ok(()));
    assert_eq!(f.stream_position(), 1024);
    assert_eq!(f.extents().len(), 1);
    let block = &f.extents()[0].data;
    assert_eq!(block.len(), 512);
    assert_eq!(&block[..92], &h.bytes()[..]);
    assert!(block[92..].iter().all(|b| *b == 0));
    assert!(header_crc_matches(block));
}

#[test]
fn changed_header_block_is_found_out() {
    let mut h = sample();
    h.crc();
    let mut block = h.bytes();
    assert!(header_crc_matches(&block));
    block[40] ^= 1;
    assert!(!header_crc_matches(&block));
    assert!(!header_crc_matches(&block[..91]));
}
