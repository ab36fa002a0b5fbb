use bob::entry::{entry_array_bytes, GptPartitionEntry};
use bob::err::BobErr;
use bob::file::ImageFile;
use bob::gpt::{PartitionBuilder, PartitionInput, PartitionType};
use bob::guid::Guid;
use bob::utf16::encode_name;

const ESP: [u8; 16] = [
    0x28, 0x73, 0x2A, 0xC1, 0x1F, 0xF8, 0xD2, 0x11, 0xBA, 0x4B, 0x00, 0xA0, 0xC9, 0x3E, 0xC9,
    0x3B,
];

fn esp(start_offset: usize, end_offset: usize) -> PartitionInput {
    PartitionBuilder::new()
        .partition_type(PartitionType::EFISystem)
        .start_offset(start_offset)
        .end_offset(end_offset)
        .build()
        .unwrap()
}

fn named(name: &str) -> GptPartitionEntry {
    GptPartitionEntry {
        partition_type_guid: Guid::from_bytes(ESP),
        unique_partition_guid: Guid::from_bytes([
            0x10, 0x11, 0x12, 0x13, 0x14, 0x15, 0x16, 0x17, 0x18, 0x19, 0x1A, 0x1B, 0x1C, 0x1D,
            0x1E, 0x1F,
        ]),
        starting_lba: 2048,
        ending_lba: 4096,
        attributes: 0,
        partition_name: name.to_string(),
    }
}

#[test]
fn partition_builder_wants_every_field() {
    assert!(matches!(PartitionBuilder::new().build(), Err(BobErr::PartitionParse)));
    assert!(matches!(
        PartitionBuilder::new().start_offset(1).end_offset(2).build(),
        Err(BobErr::PartitionParse)
    ));
    assert!(matches!(
        PartitionBuilder::new().partition_type(PartitionType::EFISystem).end_offset(2).build(),
        Err(BobErr::PartitionParse)
    ));
    assert!(matches!(
        PartitionBuilder::new().partition_type(PartitionType::EFISystem).start_offset(1).build(),
        Err(BobErr::PartitionParse)
    ));
    let p = esp(512, 1024);
    assert_eq!(p.pt, PartitionType::EFISystem);
    assert_eq!(p.start_offset, 512);
    assert_eq!(p.end_offset, 1024);
}

#[test]
fn partition_builder_keeps_the_later_value() {
    let p = PartitionBuilder::new()
        .start_offset(1)
        .partition_type(PartitionType::EFISystem)
        .end_offset(9)
        .start_offset(5)
        .build()
        .unwrap();
    assert_eq!(p.start_offset, 5);
    assert_eq!(p.end_offset, 9);
}

#[test]
fn efi_system_partition_type() {
    assert_eq!(PartitionType::EFISystem.uuid().to_bytes(), ESP);
    assert_eq!(PartitionType::EFISystem.uuid().time_low, 0xC12A_7328);
    assert_eq!(PartitionType::EFISystem.name(), "EFI system partition");
}

#[test]
fn entry_from_partition() {
    let e = GptPartitionEntry::from_partition(&esp(1_048_576, 2_097_152));
    assert_eq!(e.partition_type_guid.to_bytes(), ESP);
    assert_eq!(e.starting_lba, 2048);
    assert_eq!(e.ending_lba, 4096);
    assert_eq!(e.attributes, 0);
    assert_eq!(e.partition_name, "EFI system partition");
    let unique = e.unique_partition_guid.to_bytes();
    assert_ne!(unique, [0u8; 16]);
    assert_eq!(unique[7] & 0xF0, 0x40);
    assert_eq!(unique[8] & 0xC0, 0x80);
}

#[test]
fn offsets_are_counted_in_whole_blocks() {
    let e = GptPartitionEntry::from_partition(&esp(1023, 1537));
    assert_eq!(e.starting_lba, 1);
    assert_eq!(e.ending_lba, 3);
    let e = GptPartitionEntry::from_partition(&esp(0, usize::MAX));
    assert_eq!(e.starting_lba, 0);
    assert_eq!(e.ending_lba, (usize::MAX / 512) as u64);
}

#[test]
fn two_entries_get_two_unique_guids() {
    let p = esp(1_048_576, 2_097_152);
    let a = GptPartitionEntry::from_partition(&p);
    let b = GptPartitionEntry::from_partition(&p);
    assert_ne!(a.unique_partition_guid.to_bytes(), b.unique_partition_guid.to_bytes());
}

#[test]
fn entry_bytes_stand_at_their_offsets() {
    let mut e = named("EFI system partition");
    e.attributes = 0x8000_0000_0000_0001;
    let b = e.bytes().unwrap();
    assert_eq!(b.len(), 128);
    assert_eq!(&b[0..16], &ESP);
    assert_eq!(&b[16..32], &e.unique_partition_guid.to_bytes());
    assert_eq!(&b[32..40], &2048u64.to_le_bytes());
    assert_eq!(&b[40..48], &4096u64.to_le_bytes());
    assert_eq!(&b[48..56], &0x8000_0000_0000_0001u64.to_le_bytes());
    let name: Vec<u8> = "EFI system partition".encode_utf16().flat_map(|u| u.to_le_bytes()).collect();
    assert_eq!(name.len(), 40);
    assert_eq!(&b[56..96], &name[..]);
    assert!(b[96..].iter().all(|x| *x == 0));
}

#[test]
fn entry_checksum_of_a_known_entry() {
    assert_eq!(named("EFI system partition").crc(), Ok(0xB611_5A65));
}

#[test]
fn name_is_encoded_as_utf16le() {
    assert_eq!(encode_name("").unwrap(), vec![0u8; 72]);
    let field = encode_name("A\u{00E9}\u{20AC}\u{1F600}").unwrap();
    assert_eq!(field.len(), 72);
    assert_eq!(&field[..10], &[0x41, 0x00, 0xE9, 0x00, 0xAC, 0x20, 0x3D, 0xD8, 0x00, 0xDE]);
    assert!(field[10..].iter().all(|x| *x == 0));
    let edge = encode_name("\u{FFFF}\u{10000}\u{10FFFF}").unwrap();
    assert_eq!(&edge[..10], &[0xFF, 0xFF, 0x00, 0xD8, 0x00, 0xDC, 0xFF, 0xDB, 0xFF, 0xDF]);
}

#[test]
fn name_encoding_agrees_with_std() {
    for name in ["EFI system partition", "boot", "\u{00FC}ber", "\u{65E5}\u{672C}\u{8A9E}", "a\u{1F980}b"] {
        let mut expected: Vec<u8> = name.encode_utf16().flat_map(|u| u.to_le_bytes()).collect();
        expected.resize(72, 0);
        assert_eq!(encode_name(name).unwrap(), expected);
    }
}

#[test]
fn name_of_72_bytes_fits() {
    let name = "x".repeat(36);
    let field = encode_name(&name).unwrap();
    assert_eq!(field.len(), 72);
    assert!(field.chunks(2).all(|u| u == [0x78, 0x00]));
    assert!(named(&name).bytes().is_ok());
    let pairs = "\u{1F600}".repeat(18);
    assert_eq!(encode_name(&pairs).unwrap().len(), 72);
}

#[test]
fn name_of_more_than_72_bytes_is_refused() {
    assert_eq!(encode_name(&"x".repeat(37)), Err(BobErr::PartitionNameTooLong));
    assert_eq!(encode_name(&"x".repeat(5000)), Err(BobErr::PartitionNameTooLong));
    let pairs = "\u{1F600}".repeat(18) + "y";
    assert_eq!(encode_name(&pairs), Err(BobErr::PartitionNameTooLong));
    let e = named(&"x".repeat(37));
    assert_eq!(e.bytes(), Err(BobErr::PartitionNameTooLong));
    assert_eq!(e.crc(), Err(BobErr::PartitionNameTooLong));
}

#[test]
fn entry_with_long_name_writes_nothing() {
    let mut f = ImageFile::create(4096);
    f.seek_to(1024);
    let e = named(&"n".repeat(40));
    assert_eq!(e.write(&mut f), Err(BobErr::PartitionNameTooLong));
    assert!(f.extents().is_empty());
    assert_eq!(f.stream_position(), 1024);
    assert_eq!(f.len(), 4096);
}

#[test]
fn entry_is_written_at_the_cursor() {
    let mut f = ImageFile::create(4096);
    f.seek_to(1024);
    let e = named("EFI system partition");
    assert_eq!(e.write(&mut f), Ok(()));
    assert_eq!(f.stream_position(), 1152);
    assert_eq!(f.extents()[0].offset, 1024);
    assert_eq!(f.extents()[0].data, e.bytes().unwrap());
}

#[test]
fn entry_array_is_32_blocks() {
    let none: Vec<GptPartitionEntry> = Vec::new();
    assert_eq!(entry_array_bytes(&none).unwrap(), vec![0u8; 16384]);
    let two = vec![named("first"), named("second")];
    let array = entry_array_bytes(&two).unwrap();
    assert_eq!(array.len(), 16384);
    assert_eq!(&array[..128], &two[0].bytes().unwrap()[..]);
    assert_eq!(&array[128..256], &two[1].bytes().unwrap()[..]);
    assert!(array[256..].iter().all(|x| *x == 0));
}

#[test]
fn entry_array_has_128_slots() {
    let full: Vec<GptPartitionEntry> = (0..128).map(|_| named("p")).collect();
    let array = entry_array_bytes(&full).unwrap();
    assert_eq!(array.len(), 16384);
    assert_eq!(&array[127 * 128..], &named("p").bytes().unwrap()[..]);
    let over: Vec<GptPartitionEntry> = (0..129).map(|_| named("p")).collect();
    assert_eq!(entry_array_bytes(&over), Err(BobErr::TooManyPartitions));
}

#[test]
fn entry_array_refuses_a_long_name() {
    let entries = vec![named("fine"), named(&"z".repeat(37)), named("fine")];
    assert_eq!(entry_array_bytes(&entries), Err(BobErr::PartitionNameTooLong));
    let mut over: Vec<GptPartitionEntry> = (0..129).map(|_| named("p")).collect();
    over[3] = named(&"z".repeat(37));
    assert_eq!(entry_array_bytes(&over), Err(BobErr::TooManyPartitions));
}
