use bob::err::BobErr;
use bob::file::ImageFile;

#[test]
fn fresh_file_is_all_zeros() {
    let f = ImageFile::create(1000);
    assert_eq!(f.len(), 1000);
    assert_eq!(f.stream_position(), 0);
    assert!(f.extents().is_empty());
    assert_eq!(f.byte(0), 0);
    assert_eq!(f.byte(999), 0);
}

#[test]
fn write_moves_the_cursor() {
    let mut f = ImageFile::create(1000);
    assert_eq!(f.write(&[1, 2, 3]), Ok(3));
    assert_eq!(f.stream_position(), 3);
    assert_eq!(f.write(&[4]), Ok(1));
    assert_eq!(f.stream_position(), 4);
    assert_eq!(f.byte(0), 1);
    assert_eq!(f.byte(3), 4);
    assert_eq!(f.byte(4), 0);
    assert_eq!(f.len(), 1000);
}

#[test]
fn later_write_wins() {
    let mut f = ImageFile::create(100);
    f.seek_to(10);
    f.write_all(&[1, 1, 1, 1]).unwrap();
    f.seek_to(12);
    f.write_all(&[2, 2, 2, 2]).unwrap();
    assert_eq!(f.byte(10), 1);
    assert_eq!(f.byte(11), 1);
    assert_eq!(f.byte(12), 2);
    assert_eq!(f.byte(15), 2);
    assert_eq!(f.byte(16), 0);
}

#[test]
fn write_past_the_end_lengthens_the_file() {
    let mut f = ImageFile::create(10);
    f.seek_to(8);
    f.write_all(&[9, 9, 9, 9]).unwrap();
    assert_eq!(f.len(), 12);
    f.seek_to(100);
    assert_eq!(f.len(), 12);
}

#[test]
fn write_beyond_the_largest_offset_is_refused() {
    let mut f = ImageFile::create(10);
    f.seek_to(u64::MAX - 1);
    assert_eq!(f.write(&[1, 2]), Err(BobErr::IO));
    assert_eq!(f.write_all(&[1, 2]), Err(BobErr::IO));
    assert!(f.extents().is_empty());
    assert_eq!(f.stream_position(), u64::MAX - 1);
    assert_eq!(f.len(), 10);
    assert_eq!(f.write(&[1]), Ok(1));
    assert_eq!(f.stream_position(), u64::MAX);
}

#[test]
fn second_handle_starts_where_the_first_stands() {
    let mut f = ImageFile::create(100);
    f.write_all(&[1, 2, 3]).unwrap();
    let mut g = f.resume();
    assert_eq!(g.len(), 100);
    assert_eq!(g.stream_position(), 3);
    assert!(g.extents().is_empty());
    g.write_all(&[4, 5]).unwrap();
    f.absorb(g);
    assert_eq!(f.stream_position(), 5);
    assert_eq!(f.extents().len(), 2);
    assert_eq!(f.extents()[1].offset, 3);
    assert_eq!(f.byte(4), 5);
}
