use dwg::cipher::xor_with_magic;
use dwg::crc::{crc32, embed_crc32};
use dwg::error::Error;
use dwg::file_writer::{
    assemble_dwg_bytes, build_system_pages, build_version_header, validate_section_name, version_magic_bytes,
    WriterScaffold, KNOWN_SECTION_NAMES,
};
use dwg::header::R2004Header;
use dwg::lz77;
use dwg::section_writer::{build_section, page_checksum};
use dwg::version::Version;

#[test]
fn version_magic_matches_spec_table() {
    assert_eq!(&version_magic_bytes(Version::R14), b"AC1014");
    assert_eq!(&version_magic_bytes(Version::R2000), b"AC1015");
    assert_eq!(&version_magic_bytes(Version::R2004), b"AC1018");
    assert_eq!(&version_magic_bytes(Version::R2007), b"AC1021");
    assert_eq!(&version_magic_bytes(Version::R2010), b"AC1024");
    assert_eq!(&version_magic_bytes(Version::R2013), b"AC1027");
    assert_eq!(&version_magic_bytes(Version::R2018), b"AC1032");
}

#[test]
fn version_header_first_6_bytes_are_ascii_magic() {
    let header = build_version_header(Version::R2018);
    assert_eq!(&header[0..6], b"AC1032");
    assert!(header[6..11].iter().all(|&b| b == 0));
}

#[test]
fn version_header_marker_is_0x1f_on_r2004_plus() {
    assert_eq!(build_version_header(Version::R14)[13], 0x00);
    assert_eq!(build_version_header(Version::R2000)[13], 0x00);
    assert_eq!(build_version_header(Version::R2004)[13], 0x1F);
    assert_eq!(build_version_header(Version::R2018)[13], 0x1F);
}

#[test]
fn version_header_is_exactly_16_bytes() {
    let header = build_version_header(Version::R2000);
    assert_eq!(header.len(), 16);
}

#[test]
fn validate_section_name_accepts_spec_names() {
    assert!(validate_section_name("AcDb:Header").is_ok());
    assert!(validate_section_name("AcDb:SummaryInfo").is_ok());
    assert!(validate_section_name("AcDb:AcDbObjects").is_ok());
    assert!(validate_section_name("AcDb:Classes").is_ok());
}

#[test]
fn validate_section_name_rejects_typos() {
    let err = validate_section_name("acdb:Header").unwrap_err();
    assert!(matches!(err, Error::Unsupported { .. }));
    let err = validate_section_name("AcDb.Header").unwrap_err();
    assert!(matches!(err, Error::Unsupported { .. }));
    let err = validate_section_name("Header").unwrap_err();
    assert!(matches!(err, Error::Unsupported { .. }));
}

#[test]
fn validate_section_name_rejects_empty() {
    assert!(validate_section_name("").is_err());
}

#[test]
fn known_section_names_are_unique() {
    let mut seen: Vec<&str> = KNOWN_SECTION_NAMES.to_vec();
    seen.sort();
    seen.dedup();
    assert_eq!(seen.len(), KNOWN_SECTION_NAMES.len(), "KNOWN_SECTION_NAMES has duplicates");
}

#[test]
fn every_known_name_validates() {
    for n in KNOWN_SECTION_NAMES {
        assert!(validate_section_name(n).is_ok(), "{n}");
    }
}

#[test]
fn stage1_built_sections_roundtrip_lz77() {
    let mut w = WriterScaffold::new(Version::R2018);
    w.add_section("AcDb:SummaryInfo", b"title\0subject\0".to_vec());
    w.add_section("AcDb:Preview", vec![0xAAu8; 100]);
    w.add_section("AcDb:Header", vec![0x55u8; 500]);

    let built = w.build_sections().unwrap();
    assert_eq!(built.len(), 3);
    for b in &built {
        let stream = &b.built.bytes[32..32 + b.built.compressed_size as usize];
        let dec = lz77::decompress(stream, None).unwrap();
        let original = match b.name.as_str() {
            "AcDb:SummaryInfo" => b"title\0subject\0".to_vec(),
            "AcDb:Preview" => vec![0xAAu8; 100],
            "AcDb:Header" => vec![0x55u8; 500],
            other => panic!("unexpected section: {other}"),
        };
        assert_eq!(dec, original, "{} failed to round-trip after stage-1 build", b.name);
    }
}

#[test]
fn section_numbers_are_assigned_deterministically() {
    let mut w = WriterScaffold::new(Version::R2018);
    w.add_section("AcDb:Preview", vec![0u8; 4]);
    w.add_section("AcDb:Header", vec![0u8; 4]);
    w.add_section("AcDb:SummaryInfo", vec![0u8; 4]);
    let built = w.build_sections().unwrap();
    assert_eq!(built[0].name, "AcDb:Header");
    assert_eq!(built[0].number, 1);
    assert_eq!(built[1].name, "AcDb:Preview");
    assert_eq!(built[1].number, 2);
    assert_eq!(built[2].name, "AcDb:SummaryInfo");
    assert_eq!(built[2].number, 3);
}

#[test]
fn adding_a_name_again_replaces_its_bytes() {
    let mut w = WriterScaffold::new(Version::R2018);
    w.add_section("AcDb:Header", vec![1u8; 8]);
    w.add_section("AcDb:Classes", vec![2u8; 8]);
    w.add_section("AcDb:Header", vec![3u8; 8]);
    assert_eq!(w.section_names(), vec!["AcDb:Classes".to_string(), "AcDb:Header".to_string()]);
    let built = w.build_sections().unwrap();
    assert_eq!(built.len(), 2);
    let stream = &built[1].built.bytes[32..32 + built[1].built.compressed_size as usize];
    assert_eq!(lz77::decompress(stream, None).unwrap(), vec![3u8; 8]);
}

#[test]
fn pages_follow_one_another_from_0x100() {
    let mut w = WriterScaffold::new(Version::R2018);
    w.add_section("AcDb:Header", vec![7u8; 40]);
    w.add_section("AcDb:Classes", vec![9u8; 300]);
    let built = w.build_sections().unwrap();
    assert_eq!(built[0].page_offset, 0x100);
    assert_eq!(built[1].page_offset, 0x100 + built[0].built.bytes.len() as u32);
    for b in &built {
        assert_eq!(b.built.bytes.len() % 32, 0);
    }
}

#[test]
fn a_section_of_two_bytes_cannot_be_compressed() {
    let mut w = WriterScaffold::new(Version::R2018);
    w.add_section("AcDb:Header", vec![1u8; 8]);
    w.add_section("AcDb:Preview", vec![1u8, 2]);
    assert!(matches!(w.build_sections(), Err(Error::Lz77UnencodableLength(2))));
}

#[test]
fn page_header_words_are_masked_with_the_page_offset() {
    let page = build_section(&[0x42u8; 16], 5, 0x1234).unwrap();
    let mask = 0x4164_536Bu32 ^ 0x1234;
    let word = |i: usize| u32::from_le_bytes([page.bytes[i], page.bytes[i + 1], page.bytes[i + 2], page.bytes[i + 3]]);
    assert_eq!(word(0) ^ mask, 0x4163_043B);
    assert_eq!(word(4) ^ mask, 5);
    assert_eq!(word(8) ^ mask, page.compressed_size);
    assert_eq!(word(12) ^ mask, 16);
    assert_eq!(word(16) ^ mask, 0);
    assert_eq!(word(20) ^ mask, 0);
    let stream = &page.bytes[32..32 + page.compressed_size as usize];
    assert_eq!(word(28) ^ mask, page_checksum(0, stream));
}

#[test]
fn checksums_match_their_reference_values() {
    assert_eq!(crc32(0, b"123456789"), 0xCBF4_3926);
    assert_eq!(page_checksum(0, b"abc"), 0x024A_0126);
    assert_eq!(page_checksum(0x1234_5678, b"abc"), 0x17F5_579E);
    assert_eq!(page_checksum(0, &[0xFFu8; 10000]), 0x8F13_EB2A);
}

#[test]
fn embedded_crc_covers_the_block_with_its_slot_zeroed() {
    let mut block: Vec<u8> = (0u8..16).collect();
    let c = embed_crc32(&mut block, 8, 0);
    assert_eq!(&block[8..12], &c.to_le_bytes());
    let mut zeroed: Vec<u8> = (0u8..16).collect();
    zeroed[8..12].copy_from_slice(&[0, 0, 0, 0]);
    assert_eq!(c, crc32(0, &zeroed));
}

fn sample_sections() -> Vec<dwg::file_writer::NamedBuiltSection> {
    let mut w = WriterScaffold::new(Version::R2018);
    w.add_section("AcDb:SummaryInfo", b"title\0subject\0".to_vec());
    w.add_section("AcDb:Header", vec![0x55u8; 500]);
    w.build_sections().unwrap()
}

#[test]
fn the_page_map_lists_its_own_size() {
    let built = sample_sections();
    let a = build_system_pages(&built).unwrap();
    assert_eq!(a.page_map_page_number, 3);
    assert_eq!(a.section_info_page_number, 4);
    assert_eq!(a.page_map_file_offset, 0x100 + a.data_pages_concat.len() as u64);
    assert_eq!(a.section_info_file_offset, a.page_map_file_offset + a.page_map_bytes.len() as u64);
    let comp = u32::from_le_bytes(a.page_map_bytes[8..12].try_into().unwrap()) as usize;
    let body = lz77::decompress(&a.page_map_bytes[20..20 + comp], None).unwrap();
    let rows: Vec<(i32, u32)> = body
        .chunks(8)
        .map(|r| (i32::from_le_bytes(r[0..4].try_into().unwrap()), u32::from_le_bytes(r[4..8].try_into().unwrap())))
        .collect();
    assert_eq!(
        rows,
        vec![
            (1, built[0].built.bytes.len() as u32),
            (2, built[1].built.bytes.len() as u32),
            (3, a.page_map_bytes.len() as u32),
            (4, a.section_info_bytes.len() as u32),
        ]
    );
}

#[test]
fn an_assembled_file_reads_back_through_the_header_parser() {
    let built = sample_sections();
    let bytes = assemble_dwg_bytes(&built, Version::R2018).unwrap();
    let a = build_system_pages(&built).unwrap();
    let h = R2004Header::parse(&bytes).unwrap();
    assert_eq!(h.common.version, Version::R2018);
    assert_eq!(h.section_page_map_id, 3);
    assert_eq!(h.section_map_id, 4);
    assert_eq!(h.last_section_page_id, 4);
    assert_eq!(h.section_page_amount, 4);
    assert_eq!(h.section_page_map_addr + 0x100, a.page_map_file_offset);
    assert_eq!(h.last_section_page_end, bytes.len() as u64);
    let mut block = xor_with_magic(&bytes[0x80..0xEC]);
    block[0x68..0x6C].copy_from_slice(&[0, 0, 0, 0]);
    assert_eq!(h.crc32_stored, crc32(0, &block));
    assert_eq!(&bytes[0x100 + a.data_pages_concat.len()..], [a.page_map_bytes, a.section_info_bytes].concat().as_slice());
}

#[test]
fn only_the_r2004_family_can_be_assembled() {
    let built = sample_sections();
    assert!(matches!(assemble_dwg_bytes(&built, Version::R2007), Err(Error::Unsupported { .. })));
    assert!(matches!(assemble_dwg_bytes(&built, Version::R2000), Err(Error::Unsupported { .. })));
    assert!(assemble_dwg_bytes(&built, Version::R2004).is_ok());
}

#[test]
fn insertion_order_leaves_the_built_pages_unchanged() {
    let mut a = WriterScaffold::new(Version::R2018);
    a.add_section("AcDb:Preview", vec![1u8; 40]);
    a.add_section("AcDb:Header", vec![2u8; 50]);
    a.add_section("AcDb:Classes", vec![3u8; 60]);
    let mut b = WriterScaffold::new(Version::R2018);
    b.add_section("AcDb:Classes", vec![3u8; 60]);
    b.add_section("AcDb:Preview", vec![1u8; 40]);
    b.add_section("AcDb:Header", vec![2u8; 50]);
    let built_a = a.build_sections().unwrap();
    let built_b = b.build_sections().unwrap();
    assert_eq!(built_a.len(), built_b.len());
    for (x, y) in built_a.iter().zip(built_b.iter()) {
        assert_eq!(x.name, y.name);
        assert_eq!(x.number, y.number);
        assert_eq!(x.page_offset, y.page_offset);
        assert_eq!(x.built.bytes, y.built.bytes);
    }
    assert_eq!(assemble_dwg_bytes(&built_a, Version::R2018).unwrap(), assemble_dwg_bytes(&built_b, Version::R2018).unwrap());
}

#[test]
fn unknown_section_name_refusal_names_it() {
    match validate_section_name("AcDb:Typo") {
        Err(Error::Unsupported { feature }) => assert_eq!(
            feature,
            "unknown section name \"AcDb:Typo\"; expected one of the AcDb:* names of KNOWN_SECTION_NAMES"
        ),
        other => panic!("expected Unsupported, got {other:?}"),
    }
}
