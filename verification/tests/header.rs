use dwg::error::Error;
use dwg::header::{CommonHeader, LocatorRecord, R13R15Header, R2004Header};
use dwg::section::SectionKind;
use dwg::version::Version;

#[test]
fn common_header_truncated() {
    let bytes = b"AC1015";
    assert!(matches!(CommonHeader::parse(bytes), Err(Error::Truncated { .. })));
}

#[test]
fn locator_record_round_trip() {
    let raw = [0x01u8, 0x78, 0x56, 0x34, 0x12, 0x34, 0x12, 0x00, 0x00];
    let r = LocatorRecord::parse(&raw).unwrap();
    assert_eq!(r.number, 1);
    assert_eq!(r.seeker, 0x1234_5678);
    assert_eq!(r.size, 0x0000_1234);
}

fn r15_prefix() -> Vec<u8> {
    let mut b = b"AC1015".to_vec();
    b.extend_from_slice(&[0u8; 15]);
    b[0x0B] = 3;
    b[0x0D] = 0x44;
    b[0x0E] = 0x33;
    b[0x13] = 0x1E;
    b
}

#[test]
fn common_header_reads_fields_little_endian() {
    let b = r15_prefix();
    let h = CommonHeader::parse(&b).unwrap();
    assert_eq!(h.version, Version::R2000);
    assert_eq!(h.maint_version, 3);
    assert_eq!(h.image_seeker, 0x3344);
    assert_eq!(h.codepage, 0x1E);
}

#[test]
fn common_header_rejects_non_dwg_magic() {
    let mut b = r15_prefix();
    b[0] = b'X';
    assert!(matches!(CommonHeader::parse(&b), Err(Error::NotDwg { .. })));
}

#[test]
fn r13_header_lists_locators_as_sections() {
    let mut b = r15_prefix();
    b.extend_from_slice(&2u32.to_le_bytes());
    b.extend_from_slice(&[0, 0x10, 0, 0, 0, 0x20, 0, 0, 0]);
    b.extend_from_slice(&[7, 0x30, 0, 0, 0, 0x40, 0, 0, 0]);
    let h = R13R15Header::parse(&b).unwrap();
    assert_eq!(h.locator_count, 2);
    let s = h.into_sections();
    assert_eq!(s.len(), 2);
    assert_eq!(s[0].name, "HEADER");
    assert_eq!(s[0].kind, SectionKind::Header);
    assert_eq!(s[0].offset, 0x10);
    assert_eq!(s[0].size, 0x20);
    assert_eq!(s[1].name, "RECORD_7");
    assert_eq!(s[1].kind, SectionKind::Other(7));
}

#[test]
fn r13_header_with_too_few_locator_bytes_is_truncated() {
    let mut b = r15_prefix();
    b.extend_from_slice(&2u32.to_le_bytes());
    b.extend_from_slice(&[0, 0x10, 0, 0, 0, 0x20, 0, 0, 0]);
    assert!(matches!(R13R15Header::parse(&b), Err(Error::Truncated { offset: 0x19, wanted: 18, .. })));
}

#[test]
fn r2004_header_rejects_short_input_and_r2007() {
    assert!(matches!(R2004Header::parse(&[0u8; 10]), Err(Error::Truncated { wanted: 0xEC, .. })));
    let mut b = b"AC1021".to_vec();
    b.resize(0x100, 0);
    assert!(matches!(R2004Header::parse(&b), Err(Error::R2004Decrypt(_))));
}
