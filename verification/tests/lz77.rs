use dwg::error::Error;
use dwg::lz77::{decompress, decompress_with_limits, DecompressLimits};

#[test]
fn literal_only_stream() {
    let stream = [0x02, b'H', b'e', b'l', b'l', b'o', 0x11];
    let out = decompress(&stream, None).unwrap();
    assert_eq!(&out, b"Hello");
}

#[test]
fn empty_stream_via_immediate_terminator() {
    let stream = [0x11];
    let out = decompress(&stream, None).unwrap();
    assert!(out.is_empty());
}

#[test]
fn back_reference_with_rle_wrap() {
    let stream = [
        0x04, b'A', b'B', b'C', b'D', b'E', b'F', b'G', 0x22, 0x0A, 0x00, b'X', b'Y', 0x11,
    ];
    let out = decompress(&stream, None).unwrap();
    assert_eq!(&out, b"ABCDEFGEFGEXY");
}

#[test]
fn extended_literal_length() {
    const N: usize = 275;
    let mut stream = vec![0x00u8, 0x00, 0x02];
    for i in 0..N {
        stream.push((i & 0xFF) as u8);
    }
    stream.push(0x11);
    let out = decompress(&stream, None).unwrap();
    assert_eq!(out.len(), N);
    for (i, &b) in out.iter().enumerate() {
        assert_eq!(b, (i & 0xFF) as u8);
    }
}

#[test]
fn opcode_0x40_family() {
    let stream = [
        0x04, b'A', b'B', b'C', b'D', b'E', b'F', b'G', 0x41, 0x01, b'Z', 0x11,
    ];
    let out = decompress(&stream, None).unwrap();
    assert_eq!(&out, b"ABCDEFGCDEZ");
}

#[test]
fn truncated_stream_errors() {
    let stream = [0x04, b'A', b'B'];
    let e = decompress(&stream, None).unwrap_err();
    assert!(matches!(e, Error::Lz77Truncated));
}

#[test]
fn reserved_opcode_errors() {
    let stream = [0x01, b'A', b'B', b'C', b'D', 0x05];
    let e = decompress(&stream, None).unwrap_err();
    assert!(matches!(e, Error::Lz77InvalidOpcode { opcode: 0x05, .. }));
}

#[test]
fn output_limit_rejects_oversize_literal_run() {
    let limits = DecompressLimits {
        max_output_bytes: 8,
        max_backref_len: 8,
    };
    let mut stream = vec![0x05];
    stream.extend_from_slice(b"AAAAAAAA");
    stream.push(0x11);
    let out = decompress_with_limits(&stream, None, limits).unwrap();
    assert_eq!(out.len(), 8);

    let mut bomb = vec![0x06];
    bomb.extend_from_slice(b"AAAAAAAAA");
    bomb.push(0x11);
    let err = decompress_with_limits(&bomb, None, limits).unwrap_err();
    assert!(matches!(err, Error::Lz77OutputLimitExceeded { limit: 8 }));
}

#[test]
fn output_limit_rejects_oversize_backref() {
    let mut stream = vec![0x01, b'A', b'B', b'C', b'D', 0x20, 0x4F, 0x00, 0x00, 0x11];
    stream.push(0x11);
    let limits = DecompressLimits {
        max_output_bytes: 1024 * 1024,
        max_backref_len: 50,
    };
    let err = decompress_with_limits(&stream, None, limits).unwrap_err();
    assert!(
        matches!(
            err,
            Error::Lz77BackrefTooLong {
                length: 112,
                limit: 50
            }
        ),
        "err={err:?}"
    );
}

#[test]
fn expected_size_is_clamped_to_output_limit() {
    let limits = DecompressLimits {
        max_output_bytes: 16,
        max_backref_len: 16,
    };
    let stream = [0x11u8];
    let out = decompress_with_limits(&stream, Some(1usize << 40), limits).unwrap();
    assert!(out.is_empty());
}

#[test]
fn default_limits_cap_output_at_256_mib() {
    let d = DecompressLimits::default();
    assert_eq!(d.max_output_bytes, 256 * 1024 * 1024);
    assert_eq!(d.max_backref_len, 1024 * 1024);
}

#[test]
fn small_input_with_huge_expected_size_stays_bounded() {
    let stream = [0x02, b'H', b'E', b'L', b'L', b'O', 0x11];
    let huge = 1usize << 40;
    let out = decompress(&stream, Some(huge)).unwrap();
    assert_eq!(&out, b"HELLO");
}

#[test]
fn backref_before_start_of_output_is_an_invalid_offset() {
    // Four literals, then a copy of 3 bytes at offset 5: before the start.
    let stream = [0x01, b'A', b'B', b'C', b'D', 0x41, 0x01, 0x11];
    let e = decompress(&stream, None).unwrap_err();
    assert!(matches!(e, Error::Lz77InvalidOffset));
}

#[test]
fn permissive_limits_are_above_default() {
    let d = DecompressLimits::default();
    let p = DecompressLimits::permissive();
    assert!(p.max_output_bytes > d.max_output_bytes);
    assert!(p.max_backref_len > d.max_backref_len);
}

#[test]
fn unbounded_output_limit_is_accepted() {
    let limits = DecompressLimits { max_output_bytes: usize::MAX, max_backref_len: usize::MAX };
    let stream = [0x02, b'H', b'e', b'l', b'l', b'o', 0x11];
    let out = decompress_with_limits(&stream, None, limits).unwrap();
    assert_eq!(out, b"Hello".to_vec());
}
