use dwg::header_vars::HeaderVars;
use dwg::version::Version;

#[test]
fn parse_empty_bytes() {
    let h = HeaderVars::parse(&[], Version::R2018).unwrap();
    assert_eq!(h.body_len(), 0);
    assert!(!h.has_valid_sentinel());
}

#[test]
fn parse_short_bytes_is_lenient() {
    let h = HeaderVars::parse(&[0u8; 10], Version::R2018).unwrap();
    assert_eq!(h.body_len(), 0);
}

#[test]
fn parse_reads_sentinel_and_size() {
    let mut bytes = HeaderVars::SENTINEL.to_vec();
    bytes.extend_from_slice(&42u32.to_le_bytes());
    bytes.extend_from_slice(&[0xAA, 0xBB, 0xCC]);
    let h = HeaderVars::parse(&bytes, Version::R2018).unwrap();
    assert!(h.has_valid_sentinel());
    assert_eq!(h.size_in_bits, 42);
    assert_eq!(h.body_len(), 3);
}

#[test]
fn leading_values_read_from_the_body() {
    let mut bytes = HeaderVars::SENTINEL.to_vec();
    bytes.extend_from_slice(&0u32.to_le_bytes());
    // BD code 01 = 1.0, BD code 10 = 0.0; read as a BL, code 01 then the RC 0xA8.
    bytes.push(0b0110_1010);
    bytes.push(0);
    let h = HeaderVars::parse(&bytes, Version::R2018).unwrap();
    assert_eq!(h.read_first_bd().map(f64::from_bits), Some(1.0));
    let bds: Vec<f64> = h.read_first_n_bds(2).into_iter().map(f64::from_bits).collect();
    assert_eq!(bds, vec![1.0, 0.0]);
    assert_eq!(h.read_first_n_bls(1), vec![168]);
}
