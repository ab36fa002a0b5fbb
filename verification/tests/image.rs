use bob::crc::crc32;
use bob::entry::GptPartitionEntry;
use bob::err::BobErr;
use bob::gpt::{PartitionBuilder, PartitionInput, PartitionType};
use bob::guid::Guid;
use bob::header::header_crc_matches;
use bob::image::{default_file_name, DiskImgBuilder, GptImage};
use bob::mbr::protective_mbr_block;

const MIB: usize = 1024 * 1024;

fn esp(start_offset: usize, end_offset: usize) -> PartitionInput {
    PartitionBuilder::new()
        .partition_type(PartitionType::EFISystem)
        .start_offset(start_offset)
        .end_offset(end_offset)
        .build()
        .unwrap()
}

fn four_mib() -> GptImage {
    DiskImgBuilder::new()
        .total_size(4 * MIB)
        .partition(esp(1_048_576, 2_097_152))
        .build()
        .unwrap()
}

fn read(img: &GptImage, from: u64, len: u64) -> Vec<u8> {
    (from..from + len).map(|i| img.fd.byte(i)).collect()
}

fn u64_at(img: &GptImage, at: u64) -> u64 {
    let b = read(img, at, 8);
    u64::from_le_bytes([b[0], b[1], b[2], b[3], b[4], b[5], b[6], b[7]])
}

#[test]
fn four_mib_image_with_one_partition() {
    let img = four_mib();
    assert_eq!(img.fd.len(), 4 * 1024 * 1024);
    assert_eq!(img.fd.byte(510), 0x55);
    assert_eq!(img.fd.byte(511), 0xAA);
    assert_eq!(read(&img, 512, 8), b"EFI PART");
    let entry = 2 * 512;
    assert_eq!(u64_at(&img, entry + 32), 2048);
    assert_eq!(u64_at(&img, entry + 40), 4096);
    let unique = read(&img, entry + 16, 16);
    assert_ne!(unique, vec![0u8; 16]);
    assert_eq!(unique[7] & 0xF0, 0x40);
    assert_eq!(unique[8] & 0xC0, 0x80);
    assert_eq!(
        read(&img, entry, 16),
        vec![0x28, 0x73, 0x2A, 0xC1, 0x1F, 0xF8, 0xD2, 0x11, 0xBA, 0x4B, 0x00, 0xA0, 0xC9, 0x3E, 0xC9, 0x3B]
    );
}

#[test]
fn image_is_as_long_as_configured() {
    for size in [34816usize, 34817, 35327, 4 * MIB, 4 * MIB + 511, 64 * MIB] {
        let img = DiskImgBuilder::new().total_size(size).partition(esp(MIB, 2 * MIB)).build().unwrap();
        assert_eq!(img.fd.len(), size as u64);
        for e in img.fd.extents() {
            assert!(e.offset + e.data.len() as u64 <= size as u64);
        }
    }
}

#[test]
fn image_without_size_is_refused() {
    assert!(matches!(DiskImgBuilder::new().build(), Err(BobErr::MissingArgument)));
    assert!(matches!(
        DiskImgBuilder::new().output_file("x.img").partition(esp(MIB, 2 * MIB)).build(),
        Err(BobErr::MissingArgument)
    ));
}

#[test]
fn image_of_fewer_than_68_blocks_is_refused() {
    for size in [0usize, 1, 511, 512, 17408, 34304, 34815] {
        assert!(matches!(
            DiskImgBuilder::new().total_size(size).build(),
            Err(BobErr::ImageTooSmall)
        ));
        assert!(matches!(
            DiskImgBuilder::new().total_size(size).partition(esp(MIB, 2 * MIB)).build(),
            Err(BobErr::ImageTooSmall)
        ));
    }
    assert!(DiskImgBuilder::new().total_size(34816).build().is_ok());
}

#[test]
fn image_of_more_than_128_partitions_is_refused() {
    let mut b = DiskImgBuilder::new().total_size(4 * MIB);
    for _ in 0..128 {
        b = b.partition(esp(MIB, 2 * MIB));
    }
    let full = b.build().unwrap();
    assert_eq!(full.pentry.len(), 128);
    let mut b = DiskImgBuilder::new().total_size(4 * MIB);
    for _ in 0..129 {
        b = b.partition(esp(MIB, 2 * MIB));
    }
    assert!(matches!(b.build(), Err(BobErr::TooManyPartitions)));
    let mut b = DiskImgBuilder::new().total_size(100);
    for _ in 0..129 {
        b = b.partition(esp(MIB, 2 * MIB));
    }
    assert!(matches!(b.build(), Err(BobErr::ImageTooSmall)));
}

#[test]
fn image_is_written_front_to_back() {
    let img = four_mib();
    let log = img.fd.extents();
    assert_eq!(log.len(), 5);
    let at: Vec<u64> = log.iter().map(|e| e.offset).collect();
    assert_eq!(at, vec![0, 512, 1024, (8192 - 33) * 512, 8191 * 512]);
    let len: Vec<usize> = log.iter().map(|e| e.data.len()).collect();
    assert_eq!(len, vec![512, 512, 16384, 16384, 512]);
    assert_eq!(log[0].data, protective_mbr_block(8192));
    assert_eq!(log[2].data, log[3].data);
    assert_eq!(&log[1].data[..92], &img.hdr.bytes()[..]);
    assert_eq!(&log[4].data[..92], &img.bkp_hdr.bytes()[..]);
    assert_eq!(img.fd.stream_position(), 8192 * 512);
}

#[test]
fn headers_of_a_built_image() {
    let img = four_mib();
    let (p, b) = (&img.hdr, &img.bkp_hdr);
    assert_eq!(p.my_lba, 1);
    assert_eq!(p.alt_lba, 8191);
    assert_eq!(p.first_usable_lba, 34);
    assert_eq!(p.last_usable_lba, 8192 - 34);
    assert_eq!(p.partition_entry_lba, 2);
    assert_eq!(p.num_partition_entries, 128);
    assert_eq!(p.partition_entry_sz, 128);
    assert_eq!(b.my_lba, 8191);
    assert_eq!(b.alt_lba, 1);
    assert_eq!(b.partition_entry_lba, 8192 - 33);
    assert_eq!(b.first_usable_lba, 34);
    assert_eq!(b.last_usable_lba, 8192 - 34);
    assert_eq!(b.disk_guid.to_bytes(), p.disk_guid.to_bytes());
    assert_eq!(b.partition_entry_array_crc32, p.partition_entry_array_crc32);
    assert_ne!(b.header_crc32, p.header_crc32);
    let guid = p.disk_guid.to_bytes();
    assert_eq!(guid[7] & 0xF0, 0x40);
    assert_eq!(guid[8] & 0xC0, 0x80);
}

#[test]
fn header_checksums_are_found_again_on_disk() {
    let img = four_mib();
    let primary = read(&img, 512, 512);
    let backup = read(&img, 8191 * 512, 512);
    assert!(header_crc_matches(&primary));
    assert!(header_crc_matches(&backup));
    let mut cleared = primary[..92].to_vec();
    cleared[16..20].copy_from_slice(&[0; 4]);
    assert_eq!(img.hdr.header_crc32, crc32(&cleared));
    assert_eq!(primary[16..20], img.hdr.header_crc32.to_le_bytes());
    let array = read(&img, 1024, 16384);
    assert_eq!(img.hdr.partition_entry_array_crc32, crc32(&array));
    let copy = read(&img, (8192 - 33) * 512, 16384);
    assert_eq!(array, copy);
}

#[test]
fn image_with_an_odd_size_counts_whole_blocks() {
    let img = DiskImgBuilder::new().total_size(4 * MIB + 100).build().unwrap();
    assert_eq!(img.hdr.alt_lba, 8191);
    assert_eq!(img.fd.len(), (4 * MIB + 100) as u64);
    assert_eq!(img.fd.extents()[4].offset, 8191 * 512);
    assert_eq!(img.fd.byte(8192 * 512 + 50), 0);
}

#[test]
fn partitions_keep_their_order() {
    let img = DiskImgBuilder::new()
        .total_size(16 * MIB)
        .partition(esp(MIB, 2 * MIB))
        .partition(esp(4 * MIB, 6 * MIB))
        .partition(esp(2 * MIB, 3 * MIB))
        .build()
        .unwrap();
    let lbas: Vec<(u64, u64)> = img.pentry.iter().map(|e| (e.starting_lba, e.ending_lba)).collect();
    assert_eq!(lbas, vec![(2048, 4096), (8192, 12288), (4096, 6144)]);
    assert_eq!(u64_at(&img, 1024 + 128 + 32), 8192);
    assert_eq!(u64_at(&img, 1024 + 256 + 40), 6144);
    assert_eq!(read(&img, 1024 + 384, 128), vec![0u8; 128]);
}

#[test]
fn assembling_is_exact() {
    let mut unique = [0u8; 16];
    for (i, b) in unique.iter_mut().enumerate() {
        *b = 0x10 + i as u8;
    }
    let disk: [u8; 16] = [0, 1, 2, 3, 4, 5, 6, 7, 8, 9, 10, 11, 12, 13, 14, 15];
    let entry = GptPartitionEntry {
        partition_type_guid: PartitionType::EFISystem.uuid(),
        unique_partition_guid: Guid::from_bytes(unique),
        starting_lba: 2048,
        ending_lba: 4096,
        attributes: 0,
        partition_name: PartitionType::EFISystem.name(),
    };
    let img = GptImage::assemble(4 * MIB, Guid::from_bytes(disk), vec![entry]).unwrap();
    assert_eq!(img.hdr.partition_entry_array_crc32, 0xEF5E_9C6C);
    assert_eq!(img.hdr.header_crc32, 0x7759_21BA);
    assert_eq!(img.bkp_hdr.header_crc32, 0x0835_15EA);
    assert_eq!(img.hdr.disk_guid.to_bytes(), disk);
    assert_eq!(read(&img, 512 + 16, 4), vec![0xBA, 0x21, 0x59, 0x77]);
    assert_eq!(read(&img, 8191 * 512 + 16, 4), vec![0xEA, 0x15, 0x35, 0x08]);
    assert_eq!(read(&img, 512 + 88, 4), vec![0x6C, 0x9C, 0x5E, 0xEF]);
    assert_eq!(read(&img, 1024 + 16, 16), unique.to_vec());
}

#[test]
fn assembling_refuses_what_cannot_be_laid_out() {
    let long = || GptPartitionEntry {
        partition_type_guid: PartitionType::EFISystem.uuid(),
        unique_partition_guid: Guid::from_bytes([1; 16]),
        starting_lba: 40,
        ending_lba: 50,
        attributes: 0,
        partition_name: "n".repeat(37),
    };
    let guid = Guid::from_bytes([9; 16]);
    assert!(matches!(
        GptImage::assemble(4 * MIB, guid, vec![long()]),
        Err(BobErr::PartitionNameTooLong)
    ));
    assert!(matches!(GptImage::assemble(34815, guid, vec![long()]), Err(BobErr::ImageTooSmall)));
    let many: Vec<GptPartitionEntry> = (0..129).map(|_| long()).collect();
    assert!(matches!(GptImage::assemble(4 * MIB, guid, many), Err(BobErr::TooManyPartitions)));
}

#[test]
fn builder_keeps_what_it_was_given() {
    let b = DiskImgBuilder::new();
    assert!(b.image_size.is_none());
    assert!(b.output.is_none());
    assert!(b.partitions.is_empty());
    let b = b.total_size(7).output_file("a.img").partition(esp(1, 2)).total_size(9);
    assert_eq!(b.image_size, Some(9));
    assert_eq!(b.output.as_deref(), Some("a.img"));
    assert_eq!(b.partitions.len(), 1);
    assert_eq!(b.partitions[0].end_offset, 2);
}

#[test]
fn file_name_is_the_one_asked_for() {
    let b = DiskImgBuilder::new().output_file("my disk.img");
    assert_eq!(b.file_name_at(5), "my disk.img");
    assert_eq!(b.file_name_at(0), "my disk.img");
}

#[test]
fn default_file_name_holds_the_time() {
    assert_eq!(default_file_name(0), "disk_image_0.img");
    assert_eq!(default_file_name(9), "disk_image_9.img");
    assert_eq!(default_file_name(10), "disk_image_10.img");
    assert_eq!(default_file_name(1_700_000_000), "disk_image_1700000000.img");
    assert_eq!(default_file_name(u64::MAX), "disk_image_18446744073709551615.img");
    assert_eq!(DiskImgBuilder::new().file_name_at(1_234_567_890), "disk_image_1234567890.img");
}
