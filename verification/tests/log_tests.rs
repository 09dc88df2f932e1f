use memmap::MmapMut;
use seglog::segment_file_name;
use seglog::Error;
use seglog::Log;

fn anon_segment(base_offset: usize, max_size: usize) -> Log {
    let region = MmapMut::map_anon(max_size).expect("anonymous map");
    Log::from_region(region, base_offset)
}

#[test]
fn test_create() {
    let expected_file = "00000000000000000000.log";

    let l = anon_segment(0, 10);

    assert_eq!(segment_file_name(0, ""), expected_file);
    assert_eq!(l.offset(), 0);
}

#[test]
fn test_write() {
    let mut l = anon_segment(0, 50);
    l.write(b"boom!-big-reveal!-i-turned-myself-into-a-pickle!")
        .unwrap();
    l.flush().ok();

    let contents = l.read_at(0, 50).unwrap();
    assert_eq!(
        contents,
        b"boom!-big-reveal!-i-turned-myself-into-a-pickle!\x00\x00"
    );

    assert_eq!(l.offset(), 48);
}

#[test]
fn test_read() {
    let mut l = anon_segment(0, 20);
    l.write(b"juca-bala").unwrap();
    l.flush().ok();

    assert_eq!(l.read_at(0, 9).unwrap(), b"juca-bala");
    assert_eq!(l.read_at(1, 7).unwrap(), b"uca-bal");
}

#[test]
fn round_trip_scenario() {
    let mut l = anon_segment(0, 20);
    assert_eq!(l.write(b"juca-bala").unwrap(), 9);

    assert_eq!(l.read_at(0, 9).unwrap(), b"juca-bala");
    assert_eq!(l.read_at(1, 7).unwrap(), b"uca-bal");
    assert_eq!(l.offset(), 9);
}

#[test]
fn write_advances_cursor_exactly() {
    let mut l = anon_segment(0, 32);

    assert_eq!(l.write(b"abcde").unwrap(), 5);
    assert_eq!(l.offset(), 5);

    assert_eq!(l.write(b"fgh").unwrap(), 3);
    assert_eq!(l.offset(), 8);

    assert_eq!(l.read_at(0, 8).unwrap(), b"abcdefgh");
    assert_eq!(l.read_at(5, 3).unwrap(), b"fgh");
}

#[test]
fn capacity_boundary() {
    let mut l = anon_segment(0, 10);
    assert_eq!(l.write(b"1234567").unwrap(), 7);

    assert!(matches!(l.write(b"8901"), Err(Error::NoSpaceLeft)));
    assert_eq!(l.offset(), 7);
    assert_eq!(l.read_at(0, 7).unwrap(), b"1234567");

    assert!(l.fit(3));
    assert!(!l.fit(4));
    assert_eq!(l.write(b"890").unwrap(), 3);
    assert_eq!(l.offset(), 10);

    assert!(matches!(l.write(b"x"), Err(Error::NoSpaceLeft)));
    assert_eq!(l.offset(), 10);
    assert!(l.fit(0));
    assert!(!l.fit(1));
}

#[test]
fn oversized_write_rejected() {
    let mut l = anon_segment(0, 4);
    assert!(matches!(l.write(b"too long"), Err(Error::NoSpaceLeft)));
    assert_eq!(l.offset(), 0);
    assert_eq!(l.read_at(0, 4).unwrap(), &[0u8; 4]);
}

#[test]
fn unwritten_region_reads_zero() {
    let mut l = anon_segment(0, 12);
    assert_eq!(l.read_at(0, 12).unwrap(), &[0u8; 12]);

    l.write(b"data").unwrap();
    assert_eq!(l.read_at(4, 8).unwrap(), &[0u8; 8]);
}

#[test]
fn dirty_region_is_zeroed_on_creation() {
    let mut region = MmapMut::map_anon(8).expect("anonymous map");
    region[0] = 7;
    region[5] = 200;

    let mut l = Log::from_region(region, 3);
    assert_eq!(l.offset(), 0);
    assert_eq!(l.base_offset(), 3);
    assert_eq!(l.max_size(), 8);
    assert_eq!(l.read_at(0, 8).unwrap(), &[0u8; 8]);
}

#[test]
fn out_of_bounds_read_rejected() {
    let mut l = anon_segment(0, 10);

    assert!(matches!(l.read_at(5, 6), Err(Error::InvalidIndex)));
    assert!(matches!(l.read_at(0, 11), Err(Error::InvalidIndex)));
    assert!(matches!(l.read_at(11, 0), Err(Error::InvalidIndex)));
    assert!(matches!(l.read_at(usize::MAX, 2), Err(Error::InvalidIndex)));
    assert!(matches!(l.read_at(2, usize::MAX), Err(Error::InvalidIndex)));

    assert_eq!(l.read_at(10, 0).unwrap(), b"");
    assert_eq!(l.read_at(0, 10).unwrap(), &[0u8; 10]);
}

#[test]
fn flush_leaves_segment_unchanged() {
    let mut l = anon_segment(0, 16);
    l.write(b"payload").unwrap();

    let _ = l.flush();

    assert_eq!(l.offset(), 7);
    assert_eq!(l.read_at(0, 7).unwrap(), b"payload");
}

#[test]
fn file_name_zero_padded() {
    assert_eq!(segment_file_name(0, ""), "00000000000000000000.log");
    assert_eq!(segment_file_name(42, ""), "00000000000000000042.log");
    assert_eq!(segment_file_name(42, ".tmp"), "00000000000000000042.log.tmp");
    assert_eq!(
        segment_file_name(usize::MAX, ""),
        "18446744073709551615.log"
    );
}
