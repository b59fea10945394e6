use dwg::bitcursor::BitCursor;
use dwg::bitwriter::BitWriter;
use dwg::handle_map::{read_signed_mc, write_handle_map, write_signed_mc, HandleEntry, HandleMap};
use dwg::version::Version;


#[test]
fn empty_map_from_terminator() {
    // Size-0 section header → empty map.
    let bytes = [0x00, 0x00];
    let map = HandleMap::parse(&bytes).unwrap();
    assert!(map.entries.is_empty());
}

#[test]
fn parses_single_entry_section() {
    // Section with one (handle_delta, offset_delta) = (1, 10) pair.
    //
    // Handle delta = +1 → signed MC byte = 0x01 (cont=0, data=1, neg=0).
    // Offset delta = +10 → signed MC byte = 0x0A.
    // Section size = 4 (2 pair bytes + 2 CRC bytes); CRC ignored here.
    let mut data = Vec::new();
    data.extend_from_slice(&4u16.to_be_bytes());
    data.push(0x01);
    data.push(0x0A);
    data.extend_from_slice(&[0x00, 0x00]); // placeholder CRC
    data.extend_from_slice(&[0x00, 0x00]); // terminator
    let map = HandleMap::parse(&data).unwrap();
    assert_eq!(map.entries.len(), 1);
    assert_eq!(map.entries[0].handle, 1);
    assert_eq!(map.entries[0].offset, 10);
}

#[test]
fn monotonic_handles_negative_offset_jump() {
    // Two entries: (h=1, off=100), (h=2, off=50).
    // Deltas: (+1, +100), (+1, -50).
    //
    // +100 is too big for a single terminating-byte signed MC (only
    // 6 data bits = 0..=63), so it takes two bytes:
    //   byte 0: cont=1, data = 100 & 0x7F = 0x64 → 0x80 | 0x64 = 0xE4
    //   byte 1: cont=0, negate=0, data = 0                → 0x00
    //
    // -50 fits in one signed MC terminating byte:
    //   byte: cont=0, negate=1, data = 50 & 0x3F = 0x32   → 0x72
    let payload: Vec<u8> = vec![
        0x01, // h_delta = +1
        0xE4, // o_delta byte 0 (continues)
        0x00, // o_delta byte 1 (terminates, value = 100)
        0x01, // h_delta = +1
        0x72, // o_delta = -50
    ];
    let mut data = Vec::new();
    data.extend_from_slice(&((payload.len() + 2) as u16).to_be_bytes());
    data.extend_from_slice(&payload);
    data.extend_from_slice(&[0x00, 0x00]); // CRC placeholder
    data.extend_from_slice(&[0x00, 0x00]); // terminator section
    let map = HandleMap::parse(&data).unwrap();
    assert_eq!(map.entries.len(), 2);
    assert_eq!(
        map.entries[0],
        HandleEntry {
            handle: 1,
            offset: 100
        }
    );
    assert_eq!(
        map.entries[1],
        HandleEntry {
            handle: 2,
            offset: 50
        }
    );
}

#[test]
fn handle_delta_is_unsigned_so_bit_0x40_is_magnitude_not_sign() {
    // One pair: handle delta byte 0x56, offset delta byte 0x04.
    //
    // Read as an UNSIGNED modular char, 0x56 is 86. Read as a
    // SIGNED one it would be -(0x56 & 0x3F) = -22 — the decode bug
    // this test pins. 86 is the correct value: handle numbers only
    // grow inside a handle section, so the encoder spends all seven
    // low bits on magnitude.
    let payload: Vec<u8> = vec![0x56, 0x04];
    let mut data = Vec::new();
    data.extend_from_slice(&((payload.len() + 2) as u16).to_be_bytes());
    data.extend_from_slice(&payload);
    data.extend_from_slice(&[0x00, 0x00]); // CRC placeholder
    data.extend_from_slice(&[0x00, 0x00]); // terminator
    let map = HandleMap::parse(&data).unwrap();
    assert_eq!(map.entries.len(), 1);
    assert_eq!(map.entries[0].handle, 86);
    assert_eq!(map.entries[0].offset, 4);
}

#[test]
fn multi_byte_handle_delta_carries_seven_bits_in_its_terminator() {
    // 0xC1 0x02 = continuation limb 0x41 (65) + terminator 0x02.
    // Unsigned: 65 | (2 << 7) = 321. The signed reading would mask
    // the terminator to six bits — same value here — but would also
    // treat a terminator with 0x40 set as a sign; the companion
    // pair below (0x81 0x41) proves the difference: unsigned gives
    // 1 | (0x41 << 7) = 8321, signed would give -1.
    let payload: Vec<u8> = vec![0xC1, 0x02, 0x01, 0x81, 0x41, 0x01];
    let mut data = Vec::new();
    data.extend_from_slice(&((payload.len() + 2) as u16).to_be_bytes());
    data.extend_from_slice(&payload);
    data.extend_from_slice(&[0x00, 0x00]);
    data.extend_from_slice(&[0x00, 0x00]);
    let map = HandleMap::parse(&data).unwrap();
    assert_eq!(map.entries.len(), 2);
    assert_eq!(map.entries[0].handle, 321);
    assert_eq!(map.entries[1].handle, 321 + 8321);
}

#[test]
fn accumulators_restart_on_every_handle_section() {
    // Section 1: (handle 5, offset 100). Section 2 opens with the
    // pair (7, 40) — which is the ABSOLUTE handle 7 at ABSOLUTE
    // offset 40, not handle 12 at offset 140. Handle 7 < 12 also
    // makes the two readings distinguishable in one assertion.
    let mut data = Vec::new();
    let s1: Vec<u8> = vec![0x05, 0xE4, 0x00]; // h=+5, o=+100 (two-byte MC)
    data.extend_from_slice(&((s1.len() + 2) as u16).to_be_bytes());
    data.extend_from_slice(&s1);
    data.extend_from_slice(&[0x00, 0x00]);
    let s2: Vec<u8> = vec![0x07, 0x28]; // h=7, o=40
    data.extend_from_slice(&((s2.len() + 2) as u16).to_be_bytes());
    data.extend_from_slice(&s2);
    data.extend_from_slice(&[0x00, 0x00]);
    data.extend_from_slice(&[0x00, 0x00]); // terminator
    let map = HandleMap::parse(&data).unwrap();
    assert_eq!(
        map.entries,
        vec![
            HandleEntry {
                handle: 5,
                offset: 100
            },
            HandleEntry {
                handle: 7,
                offset: 40
            },
        ]
    );
}

// -------- L12-08: writer tests --------

#[test]
fn signed_mc_short_roundtrip() {
    for v in [0i64, 1, -1, 0x3F, -0x3F] {
        let mut buf = Vec::new();
        write_signed_mc(&mut buf, v);
        let mut c = BitCursor::new(&buf);
        let read = read_signed_mc(&mut c).unwrap();
        assert_eq!(read, v, "roundtrip mismatch for v={v}");
    }
}

#[test]
fn signed_mc_multi_byte_roundtrip() {
    for v in [100i64, -100, 1000, -1000, 0xFFFF, -0xFFFF] {
        let mut buf = Vec::new();
        write_signed_mc(&mut buf, v);
        let mut c = BitCursor::new(&buf);
        let read = read_signed_mc(&mut c).unwrap();
        assert_eq!(read, v, "roundtrip mismatch for v={v}");
    }
}

#[test]
fn write_handle_map_empty_map_emits_two_byte_terminator() {
    let map = HandleMap::default();
    let mut w = BitWriter::new();
    let bytes = write_handle_map(&map, &mut w, Version::R2018).unwrap();
    // Just the size-0 terminator.
    assert_eq!(bytes, vec![0x00, 0x00]);
    // Parse roundtrips to empty.
    let parsed = HandleMap::parse(&bytes).unwrap();
    assert!(parsed.entries.is_empty());
}

#[test]
fn write_handle_map_single_entry_roundtrips_through_parse() {
    let map = HandleMap {
        entries: vec![HandleEntry {
            handle: 1,
            offset: 10,
        }],
    };
    let mut w = BitWriter::new();
    let bytes = write_handle_map(&map, &mut w, Version::R2018).unwrap();
    let parsed = HandleMap::parse(&bytes).unwrap();
    assert_eq!(parsed.entries, map.entries);
}

#[test]
fn write_handle_map_multi_entry_with_negative_offset_delta_roundtrips() {
    let map = HandleMap {
        entries: vec![
            HandleEntry {
                handle: 1,
                offset: 100,
            },
            HandleEntry {
                handle: 2,
                offset: 50,
            },
            HandleEntry {
                handle: 10,
                offset: 500,
            },
        ],
    };
    let mut w = BitWriter::new();
    let bytes = write_handle_map(&map, &mut w, Version::R2018).unwrap();
    let parsed = HandleMap::parse(&bytes).unwrap();
    assert_eq!(parsed.entries, map.entries);
}

#[test]
fn write_handle_map_roundtrips_deltas_that_set_bit_0x40() {
    // Handle deltas of 64..=127 are exactly the range the signed-MC
    // misreading corrupted; make the writer/reader pair prove them.
    let entries: Vec<HandleEntry> = (0u64..64)
        .map(|i| HandleEntry {
            handle: 1 + i * 86,
            offset: 4 + i * 70,
        })
        .collect();
    let map = HandleMap {
        entries: entries.clone(),
    };
    let mut w = BitWriter::new();
    let bytes = write_handle_map(&map, &mut w, Version::R2018).unwrap();
    assert_eq!(HandleMap::parse(&bytes).unwrap().entries, entries);
}

#[test]
fn write_handle_map_splits_a_section_when_the_handle_moves_backward() {
    // The handle delta is unsigned on the wire, so a backward jump
    // has to open a new section (whose accumulators restart at 0).
    let entries = vec![
        HandleEntry {
            handle: 500,
            offset: 10,
        },
        HandleEntry {
            handle: 900,
            offset: 20,
        },
        HandleEntry {
            handle: 7,
            offset: 30,
        },
        HandleEntry {
            handle: 9,
            offset: 40,
        },
    ];
    let map = HandleMap {
        entries: entries.clone(),
    };
    let mut w = BitWriter::new();
    let bytes = write_handle_map(&map, &mut w, Version::R2018).unwrap();
    // Two data sections plus the 2-byte terminator.
    let mut sections = 0;
    let mut pos = 0usize;
    while pos + 2 <= bytes.len() {
        let size = u16::from_be_bytes([bytes[pos], bytes[pos + 1]]) as usize;
        if size == 0 {
            break;
        }
        sections += 1;
        pos += 2 + size;
    }
    assert_eq!(sections, 2);
    assert_eq!(HandleMap::parse(&bytes).unwrap().entries, entries);
}

#[test]
fn write_handle_map_many_entries_produces_multiple_sections() {
    // Enough entries that the writer must emit > 1 section. At 4
    // bytes per short-delta pair, ~508 pairs max per section. Emit
    // 1500 entries so the writer splits at least 3 times.
    let entries: Vec<HandleEntry> = (1u64..=1500)
        .map(|h| HandleEntry {
            handle: h,
            offset: h * 10,
        })
        .collect();
    let map = HandleMap {
        entries: entries.clone(),
    };
    let mut w = BitWriter::new();
    let bytes = write_handle_map(&map, &mut w, Version::R2018).unwrap();
    let parsed = HandleMap::parse(&bytes).unwrap();
    assert_eq!(parsed.entries.len(), entries.len());
    assert_eq!(parsed.entries, entries);
}

#[test]
fn offset_of_finds_first_entry_with_handle() {
    let map = HandleMap {
        entries: vec![
            HandleEntry { handle: 5, offset: 10 },
            HandleEntry { handle: 7, offset: 20 },
            HandleEntry { handle: 5, offset: 30 },
        ],
    };
    assert_eq!(map.offset_of(5), Some(10));
    assert_eq!(map.offset_of(7), Some(20));
    assert_eq!(map.offset_of(9), None);
    assert_eq!(map.len(), 3);
    assert!(!map.is_empty());
    assert_eq!(map.iter().count(), 3);
}

#[test]
fn section_claiming_more_bytes_than_remain_is_an_error() {
    let data = [0x00u8, 0x10, 0x01, 0x02];
    assert!(matches!(HandleMap::parse(&data), Err(dwg::error::Error::SectionMap(_))));
}

#[test]
fn writer_emits_exact_bytes_for_one_entry() {
    let map = HandleMap { entries: vec![HandleEntry { handle: 1, offset: 10 }] };
    let mut w = BitWriter::new();
    let bytes = write_handle_map(&map, &mut w, Version::R2018).unwrap();
    // size 4 (big-endian), pair (0x01, 0x0A), CRC-8 little-endian, terminator.
    assert_eq!(&bytes[0..4], &[0x00, 0x04, 0x01, 0x0A]);
    assert_eq!(&bytes[bytes.len() - 2..], &[0x00, 0x00]);
    assert_eq!(bytes.len(), 8);
}

#[test]
fn signed_mc_encodings_are_exact() {
    let mut buf = Vec::new();
    write_signed_mc(&mut buf, -50);
    assert_eq!(buf, vec![0x72]);
    let mut buf = Vec::new();
    write_signed_mc(&mut buf, 100);
    assert_eq!(buf, vec![0xE4, 0x00]);
    let mut c = BitCursor::new(&buf);
    assert_eq!(read_signed_mc(&mut c).unwrap(), 100);
}

#[test]
fn signed_mc_reads_at_any_bit_position() {
    for v in [0i64, -1, 100, -1000, 0xFFFF] {
        let mut mc = Vec::new();
        write_signed_mc(&mut mc, v);
        let mut w = BitWriter::new();
        w.write_b(true);
        w.write_b(false);
        w.write_b(true);
        for b in &mc {
            w.write_rc(*b);
        }
        let bytes = w.into_bytes();
        let mut c = BitCursor::new(&bytes);
        assert!(c.read_b().unwrap());
        assert!(!c.read_b().unwrap());
        assert!(c.read_b().unwrap());
        assert_eq!(read_signed_mc(&mut c).unwrap(), v, "value {v}");
        assert_eq!(c.position_bits(), 3 + 8 * mc.len());
    }
}

#[test]
fn handle_section_refusals_name_position_and_size() {
    let data = [0x00u8, 0x09, 0x01, 0x02];
    match HandleMap::parse(&data).unwrap_err() {
        dwg::error::Error::SectionMap(m) => assert_eq!(m, "AcDb:Handles section at byte 0 claims 9 bytes, 2 remain"),
        other => panic!("expected SectionMap, got {other:?}"),
    }
    let data = [0x00u8, 0x01, 0xAA];
    match HandleMap::parse(&data).unwrap_err() {
        dwg::error::Error::SectionMap(m) => {
            assert_eq!(m, "AcDb:Handles section at byte 0 claims 1 bytes, fewer than its 2-byte CRC")
        },
        other => panic!("expected SectionMap, got {other:?}"),
    }
}
