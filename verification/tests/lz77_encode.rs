use dwg::error::Error;
use dwg::lz77;
use dwg::lz77_encode::{compress, compress_infallible};

fn roundtrip(input: &[u8]) {
    let enc = compress(input).expect("encode");
    let dec = lz77::decompress(&enc, None).expect("decode");
    assert_eq!(dec, input, "round-trip failed for {} bytes", input.len());
}

#[test]
fn encode_empty_round_trips() {
    roundtrip(b"");
}

#[test]
fn encode_short_literal_round_trips() {
    roundtrip(b"ABCDE");
}

#[test]
fn encode_exact_18_byte_boundary() {
    let input: Vec<u8> = (0..18u8).collect();
    roundtrip(&input);
}

#[test]
fn encode_19_byte_extension_boundary() {
    let input: Vec<u8> = (0..19u8).collect();
    roundtrip(&input);
}

#[test]
fn encode_repeating_round_trips() {
    roundtrip(b"AAAAAAAA");
}

#[test]
fn encode_long_literal_round_trips() {
    let input: Vec<u8> = (0..275).map(|i| (i & 0xFF) as u8).collect();
    roundtrip(&input);
}

#[test]
fn encode_very_long_multi_extension() {
    let input: Vec<u8> = (0..1024).map(|i| (i & 0xFF) as u8).collect();
    roundtrip(&input);
}

#[test]
fn encode_rejects_1_byte_input() {
    assert!(matches!(compress(&[0x42]), Err(Error::Lz77UnencodableLength(1))));
}

#[test]
fn encode_rejects_3_byte_input() {
    assert!(matches!(compress(b"ABC"), Err(Error::Lz77UnencodableLength(3))));
}

#[test]
fn encode_exact_bytes_of_short_literal_run() {
    // Length 5 is written as 5 - 3 = 0x02, then the bytes, then the terminator.
    assert_eq!(compress(b"ABCDE").unwrap(), vec![0x02, b'A', b'B', b'C', b'D', b'E', 0x11]);
    assert_eq!(compress(b"").unwrap(), vec![0x11]);
    assert_eq!(compress_infallible(b"ABCDE"), compress(b"ABCDE").unwrap());
}
