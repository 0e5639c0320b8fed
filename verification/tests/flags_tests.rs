use rvpacker_txt::flags::FILE_FLAG_FIELDS;
use rvpacker_txt::{BaseFlags, FieldNames, FileFlags};

#[test]
fn file_flag_bits() {
    assert_eq!(FileFlags::map().bits(), 1);
    assert_eq!(FileFlags::actors().bits(), 2);
    assert_eq!(FileFlags::weapons().bits(), 1024);
    assert_eq!(FileFlags::system().bits(), 2048);
    assert_eq!(FileFlags::scripts().bits(), 4096);
    assert_eq!(FileFlags::all().bits(), 8191);
    assert_eq!(FileFlags::other().bits(), 2046);
    assert!(FileFlags::empty().is_empty());
    assert!(FileFlags::default().is_all());
}

#[test]
fn file_flag_set_operations() {
    let mm = FileFlags::map().union(FileFlags::other());
    assert_eq!(mm.bits(), 2047);
    assert!(mm.contains(FileFlags::items()));
    assert!(!mm.contains(FileFlags::system()));
    assert!(mm.intersects(FileFlags::other()));
    assert!(!FileFlags::system().intersects(FileFlags::other()));
    assert_eq!(mm.intersection(FileFlags::actors().union(FileFlags::system())).bits(), 2);
    assert_eq!(mm.difference(FileFlags::other()).bits(), 1);
    let mut f = FileFlags::empty();
    f.insert(FileFlags::troops());
    f.insert(FileFlags::map());
    assert_eq!(f.bits(), 513);
    f.remove(FileFlags::map());
    assert_eq!(f.bits(), 512);
    let all = FileFlags::map()
        .union(FileFlags::other())
        .union(FileFlags::system())
        .union(FileFlags::scripts());
    assert!(all.is_all());
}

#[test]
fn file_flag_conversions() {
    assert_eq!(FileFlags::from_bits_truncate(0xFFFF).bits(), 8191);
    assert_eq!(FileFlags::from_bits(8192), None);
    assert_eq!(FileFlags::from_bits(5).unwrap().bits(), 5);
    assert_eq!(FileFlags::try_from(0x2001u16).unwrap().bits(), 1);
    assert_eq!(u16::from(FileFlags::system()), 2048);
    assert_eq!(FileFlags::FIELDS.len(), 13);
    assert_eq!(FILE_FLAG_FIELDS[4], "commonevents");
}

#[test]
fn base_flag_bits() {
    assert_eq!(BaseFlags::romanize().bits(), 1);
    assert_eq!(BaseFlags::trim().bits(), 2);
    assert_eq!(BaseFlags::ignore().bits(), 4);
    assert_eq!(BaseFlags::create_ignore().bits(), 8);
    assert_eq!(BaseFlags::disable_custom_processing().bits(), 16);
    assert_eq!(BaseFlags::skip_obsolete().bits(), 32);
    assert_eq!(BaseFlags::all().bits(), 63);
    assert!(BaseFlags::default().is_empty());
    assert_eq!(BaseFlags::from_bits_truncate(0xFF).bits(), 63);
    let f = BaseFlags::trim().union(BaseFlags::romanize());
    assert!(f.contains(BaseFlags::trim()) && !f.contains(BaseFlags::ignore()));
}
