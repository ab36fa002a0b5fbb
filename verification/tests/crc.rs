use bob::crc::crc32;
use bob::guid::Guid;
use bob::header::{header_crc_matches, GptHeader};

#[test]
fn crc32_of_the_check_string() {
    assert_eq!(crc32(b"123456789"), 0xCBF4_3926);
}

#[test]
fn crc32_of_nothing_is_zero() {
    assert_eq!(crc32(b""), 0);
}

#[test]
fn crc32_of_short_texts() {
    assert_eq!(crc32(b"a"), 0xE8B7_BE43);
    assert_eq!(crc32(b"hello world"), 0x0D4A_1185);
}

#[test]
fn crc32_of_an_empty_entry_array() {
    assert_eq!(crc32(&vec![0u8; 16384]), 0xAB54_D286);
}

#[test]
fn crc32_tells_a_changed_bit() {
    let mut data = vec![0x5Au8; 100];
    let before = crc32(&data);
    data[37] ^= 0x04;
    assert_ne!(crc32(&data), before);
}

#[test]
fn header_checksum_is_the_crc32_of_the_header() {
    let mut h = GptHeader::with_disk_guid(Guid::from_bytes([7; 16]));
    h.my_lba = 1;
    h.alt_lba = 99;
    h.header_crc32 = 0xDEAD_BEEF;
    h.crc();
    let mut cleared = h;
    cleared.header_crc32 = 0;
    assert_eq!(h.header_crc32, crc32(&cleared.bytes()));
    assert_ne!(h.header_crc32, 0xDEAD_BEEF);
    assert_ne!(h.header_crc32, 0);
    assert!(header_crc_matches(&h.bytes()));
}
