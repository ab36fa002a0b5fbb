use bob::guid::Guid;

fn has_v4_shape(bytes: &[u8; 16]) -> bool {
    bytes[7] & 0xF0 == 0x40 && bytes[8] & 0xC0 == 0x80
}

#[test]
fn bytes_survive_the_round_trip() {
    let b: [u8; 16] = [
        0x28, 0x73, 0x2A, 0xC1, 0x1F, 0xF8, 0xD2, 0x11, 0xBA, 0x4B, 0x00, 0xA0, 0xC9, 0x3E,
        0xC9, 0x3B,
    ];
    assert_eq!(Guid::from_bytes(b).to_bytes(), b);
}

#[test]
fn every_byte_value_survives_the_round_trip() {
    for v in 0..=255u8 {
        let mut b = [v; 16];
        b[3] = v.wrapping_mul(3);
        b[15] = v.wrapping_add(1);
        assert_eq!(Guid::from_bytes(b).to_bytes(), b);
    }
}

#[test]
fn first_field_is_little_endian() {
    let mut b = [0u8; 16];
    b[0] = 0x78;
    b[1] = 0x56;
    b[2] = 0x34;
    b[3] = 0x12;
    let g = Guid::from_bytes(b);
    assert_eq!(g.time_low, 0x1234_5678);
}

#[test]
fn fields_are_taken_in_disk_order() {
    let b: [u8; 16] = [0, 1, 2, 3, 4, 5, 6, 7, 8, 9, 10, 11, 12, 13, 14, 15];
    let g = Guid::from_bytes(b);
    assert_eq!(g.time_low, 0x0302_0100);
    assert_eq!(g.time_mid, [4, 5]);
    assert_eq!(g.time_high_and_version, [6, 7]);
    assert_eq!(g.clock_seq_hi_and_reserved, 8);
    assert_eq!(g.clock_seq_low, 9);
    assert_eq!(g.node, [10, 11, 12, 13, 14, 15]);
}

#[test]
fn new_keeps_its_arguments() {
    let g = Guid::new(0xC12A_7328, [0x1F, 0xF8], [0xD2, 0x11], 0xBA, 0x4B, [0, 0xA0, 0xC9, 0x3E, 0xC9, 0x3B]);
    assert_eq!(
        g.to_bytes(),
        [0x28, 0x73, 0x2A, 0xC1, 0x1F, 0xF8, 0xD2, 0x11, 0xBA, 0x4B, 0x00, 0xA0, 0xC9, 0x3E, 0xC9, 0x3B]
    );
}

#[test]
fn stamping_zeros() {
    let g = Guid::v4_from_bytes([0; 16]);
    let mut expected = [0u8; 16];
    expected[7] = 0x40;
    expected[8] = 0x80;
    assert_eq!(g.to_bytes(), expected);
}

#[test]
fn stamping_ones() {
    let g = Guid::v4_from_bytes([0xFF; 16]);
    let mut expected = [0xFFu8; 16];
    expected[7] = 0x4F;
    expected[8] = 0xBF;
    assert_eq!(g.to_bytes(), expected);
}

#[test]
fn random_guids_have_the_shape_of_version_4() {
    for _ in 0..200 {
        assert!(has_v4_shape(&Guid::new_v4().to_bytes()));
    }
}

#[test]
fn random_guids_differ() {
    let a = Guid::new_v4().to_bytes();
    let b = Guid::new_v4().to_bytes();
    let c = Guid::new_v4().to_bytes();
    assert!(a != b || b != c);
    assert_ne!(a, [0u8; 16]);
}
