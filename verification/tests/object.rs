use dwg::error::Error;
use dwg::handle_map::{HandleEntry, HandleMap};
use dwg::limits::WalkerLimits;
use dwg::object::{read_ms_bytealigned, ObjectWalkSummary, ObjectWalker};
use dwg::object_type::ObjectType;
use dwg::version::Version;

#[test]
fn ms_single_module_zero() {
    let bytes = [0x00, 0x00, 0xDE, 0xAD];
    let (v, n) = read_ms_bytealigned(&bytes).unwrap();
    assert_eq!(v, 0);
    assert_eq!(n, 2);
}

#[test]
fn ms_small_value() {
    let bytes = [0x0A, 0x00, 0xFF];
    let (v, n) = read_ms_bytealigned(&bytes).unwrap();
    assert_eq!(v, 10);
    assert_eq!(n, 2);
}

#[test]
fn ms_large_value_single_module() {
    let bytes = [0xFF, 0x7F, 0x00];
    let (v, n) = read_ms_bytealigned(&bytes).unwrap();
    assert_eq!(v, 0x7FFF);
    assert_eq!(n, 2);
}

#[test]
fn ms_multi_module() {
    let bytes = [0x00, 0x80, 0x01, 0x00];
    let (v, n) = read_ms_bytealigned(&bytes).unwrap();
    assert_eq!(v, 0x8000);
    assert_eq!(n, 4);
}

#[test]
fn walker_limit_tripped_when_cap_is_zero() {
    let bytes = [0u8; 16];
    let walker = ObjectWalker::new(&bytes, Version::R2018).with_limits(WalkerLimits {
        max_handles: 0,
        ..WalkerLimits::safe()
    });
    let err = walker.collect_all().unwrap_err();
    match err {
        Error::WalkerLimitExceeded { limit, seen } => {
            assert_eq!(limit, 0);
            assert_eq!(seen, 0);
        }
        other => panic!("expected WalkerLimitExceeded, got {other:?}"),
    }
}

#[test]
fn walker_default_limits_permit_real_work() {
    let bytes = [0u8; 16];
    let walker = ObjectWalker::new(&bytes, Version::R2018);
    assert_eq!(walker.limits.max_handles, 1_000_000);
    assert_eq!(walker.records_visited, 0);
}

#[test]
fn with_limits_overrides_default_cap() {
    let bytes = [0u8; 16];
    let walker = ObjectWalker::new(&bytes, Version::R2018).with_limits(WalkerLimits {
        max_handles: 42,
        ..WalkerLimits::safe()
    });
    assert_eq!(walker.limits.max_handles, 42);
}

#[test]
fn unknown_types_capture_is_populated_by_lossy_collector() {
    let mut summary = ObjectWalkSummary::default();
    summary.unknown_types.push((0x1F4, 128));
    summary.unknown_types.push((0x1F5, 256));
    assert_eq!(summary.unknown_types.len(), 2);
    assert_eq!(summary.unknown_types[0].0, 0x1F4);
    assert_eq!(summary.unknown_types[0].1, 128);
}

#[test]
fn ms_truncated_input_reports_truncation() {
    let bytes = [0x00u8, 0x80, 0x01];
    assert!(matches!(
        read_ms_bytealigned(&bytes),
        Err(Error::Truncated { offset: 2, wanted: 2, len: 3 })
    ));
}

/// One R2000 record: MS size 6, payload `BS` type 0x13 (LINE), `RL`
/// object size, handle `0x01 0x2A`, then a 2-byte CRC.
fn r2000_line_record() -> Vec<u8> {
    // BS code 01 + RC 0x13; RL 0; handle code 0, counter 1, value 0x2A.
    // Bits: 01 00010011 then 32 zero bits, then 0000 0001 00101010.
    let mut bits = String::new();
    bits.push_str("01");
    bits.push_str("00010011");
    bits.push_str(&"0".repeat(32));
    bits.push_str("0000");
    bits.push_str("0001");
    bits.push_str("00101010");
    while bits.len() % 8 != 0 {
        bits.push('0');
    }
    let payload: Vec<u8> = (0..bits.len() / 8)
        .map(|i| u8::from_str_radix(&bits[i * 8..i * 8 + 8], 2).unwrap())
        .collect();
    let mut rec = vec![payload.len() as u8, 0x00];
    rec.extend_from_slice(&payload);
    rec.extend_from_slice(&[0xAA, 0xBB]);
    rec
}

#[test]
fn sequential_walk_reads_a_record_and_classifies_it() {
    let rec = r2000_line_record();
    let objs = ObjectWalker::new(&rec, Version::R2000).collect_all().unwrap();
    assert_eq!(objs.len(), 1);
    assert_eq!(objs[0].stream_offset, 0);
    assert_eq!(objs[0].type_code, 0x13);
    assert_eq!(objs[0].kind, ObjectType::Line);
    assert!(objs[0].is_entity());
    assert_eq!(objs[0].handle.value, 0x2A);
    assert_eq!(objs[0].raw.len(), objs[0].size_bytes as usize);
}

#[test]
fn handle_driven_walk_skips_offsets_past_the_end() {
    let rec = r2000_line_record();
    let map = HandleMap {
        entries: vec![
            HandleEntry { handle: 0x2A, offset: 0 },
            HandleEntry { handle: 0x2B, offset: 9999 },
        ],
    };
    let w = ObjectWalker::with_handle_map(&rec, Version::R2000, &map);
    let (objs, summary) = w.collect_all_lossy();
    assert_eq!(objs.len(), 1);
    assert_eq!(summary.decoded_count, 1);
    assert_eq!(summary.skipped_count(), 1);
    assert_eq!(summary.skipped[0].handle, 0x2B);
    let strict = ObjectWalker::with_handle_map(&rec, Version::R2000, &map).collect_all_strict();
    assert!(matches!(strict, Err(Error::ObjectWalk { handle: 0x2B, offset: 9999, .. })));
}
