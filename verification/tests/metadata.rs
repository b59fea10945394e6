use dwg::metadata::{AppInfo, FileDepList, Preview, SummaryInfo};

#[test]
fn summary_info_empty_strings() {
    let mut data = vec![0u8; 2 * 8 + 24 + 2];
    let si = SummaryInfo::parse(&data).unwrap();
    assert_eq!(si.title, "");
    assert_eq!(si.properties.len(), 0);
    data[0] = 0;
}

#[test]
fn summary_info_with_title() {
    let mut data = Vec::new();
    data.extend_from_slice(&2u16.to_le_bytes());
    data.extend_from_slice(b"X\0");
    for _ in 0..7 {
        data.extend_from_slice(&0u16.to_le_bytes());
    }
    data.extend_from_slice(&[0u8; 24]);
    data.extend_from_slice(&0u16.to_le_bytes());
    let si = SummaryInfo::parse(&data).unwrap();
    assert_eq!(si.title, "X");
}

#[test]
fn preview_rejects_bad_sentinel() {
    let bad = [0u8; 32];
    assert!(Preview::parse(&bad).is_err());
}

#[test]
fn preview_empty_after_sentinel_errors_cleanly() {
    let mut data = Vec::new();
    data.extend_from_slice(&Preview::START_SENTINEL);
    let out = Preview::parse(&data);
    assert!(out.is_err());
}

#[test]
fn preview_extracts_bmp_range_from_table() {
    let mut data = Vec::new();
    data.extend_from_slice(&Preview::START_SENTINEL);
    data.extend_from_slice(&99u32.to_le_bytes());
    data.push(1);
    data.push(2);
    data.extend_from_slice(&30u32.to_le_bytes());
    data.extend_from_slice(&4u32.to_le_bytes());
    data.extend_from_slice(&[0xB1, 0xB2, 0xB3, 0xB4]);
    let p = Preview::parse(&data).unwrap();
    assert_eq!(p.overall_size, 99);
    assert_eq!(p.bmp, Some(vec![0xB1, 0xB2, 0xB3, 0xB4]));
    assert_eq!(p.wmf, None);
    assert_eq!(p.header_data, None);
}

#[test]
fn file_dep_list_reads_features_and_files() {
    let mut d = Vec::new();
    d.extend_from_slice(&1u32.to_le_bytes());
    d.extend_from_slice(&9u32.to_le_bytes());
    d.extend_from_slice(b"Acad:XRef");
    d.extend_from_slice(&1u32.to_le_bytes());
    for s in ["a.dwg", "", "g1", "g2"] {
        d.extend_from_slice(&(s.len() as u32).to_le_bytes());
        d.extend_from_slice(s.as_bytes());
    }
    d.extend_from_slice(&0u32.to_le_bytes());
    d.extend_from_slice(&5u32.to_le_bytes());
    d.extend_from_slice(&1234u32.to_le_bytes());
    d.extend_from_slice(&1u16.to_le_bytes());
    d.extend_from_slice(&2u32.to_le_bytes());
    let l = FileDepList::parse(&d).unwrap();
    assert_eq!(l.features, vec!["Acad:XRef".to_string()]);
    assert_eq!(l.files.len(), 1);
    assert_eq!(l.files[0].full_filename, "a.dwg");
    assert_eq!(l.files[0].found_path, "");
    assert_eq!(l.files[0].timestamp, 5);
    assert_eq!(l.files[0].filesize, 1234);
    assert!(l.files[0].affects_graphics);
    assert_eq!(l.files[0].reference_count, 2);
    assert!(FileDepList::parse(&d[..6]).is_err());
}

#[test]
fn app_info_r18_layout() {
    let mut d = Vec::new();
    for s in ["AppInfoDataList\0"] {
        d.extend_from_slice(&(s.len() as u16).to_le_bytes());
        d.extend_from_slice(s.as_bytes());
    }
    d.extend_from_slice(&0u32.to_le_bytes());
    for s in ["x\0", "<xml/>\0", "2.7\0"] {
        d.extend_from_slice(&(s.len() as u16).to_le_bytes());
        d.extend_from_slice(s.as_bytes());
    }
    let a = AppInfo::parse(&d).unwrap();
    assert_eq!(a.name, "AppInfoDataList");
    assert_eq!(a.product_xml, "<xml/>");
    assert_eq!(a.version, "2.7");
    assert_eq!(a.comment, "");
}

#[test]
fn summary_info_ansi_record_that_unicode_reads_short() {
    // The UTF-16 reading of these bytes succeeds but stops one byte
    // before the end, so the 8-bit reading is the one kept.
    let mut data = vec![0x03u8, 0x00, b'A', b'B', 0x00];
    data.extend_from_slice(&[0u8; 44]);
    assert_eq!(data.len(), 49);
    let si = SummaryInfo::parse(&data).unwrap();
    assert_eq!(si.title, "AB");
    assert_eq!(si.subject, "");
    assert_eq!(si.hyperlink_base, "");
    assert_eq!(si.properties.len(), 0);
}
