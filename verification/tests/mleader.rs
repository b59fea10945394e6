use dwg::bitcursor::BitCursor;
use dwg::bitwriter::BitWriter;
use dwg::entities::mleader::{read_body, MAX_LEADER_ROOTS};
use dwg::entities::Point3D;
use dwg::error::Error;
use dwg::version::Version;

fn b(x: f64) -> u64 {
    x.to_bits()
}

fn p3(x: f64, y: f64, z: f64) -> Point3D {
    Point3D { x: b(x), y: b(y), z: b(z) }
}

fn bd3(w: &mut BitWriter, x: f64, y: f64, z: f64) {
    w.write_bd(b(x));
    w.write_bd(b(y));
    w.write_bd(b(z));
}

/// A `CMC` with no names.
fn write_cmc(w: &mut BitWriter, rgb: u32) {
    w.write_bs(0);
    w.write_bl(rgb as i32);
    w.write_rc(0);
}

/// A string-stream `TV`: its UTF-16 unit count, then the units.
fn write_tu(w: &mut BitWriter, s: &str) {
    let units: Vec<u16> = s.encode_utf16().collect();
    w.write_bs_u(units.len() as u16);
    for u in units {
        w.write_rc((u & 0xFF) as u8);
        w.write_rc((u >> 8) as u8);
    }
}

/// The context up to its content bits: one root with one two-point
/// line.
fn write_context_head(w: &mut BitWriter) {
    w.write_bl(1);
    w.write_b(true);
    w.write_b(true);
    bd3(w, 10.0, 20.0, 0.0);
    bd3(w, 1.0, 0.0, 0.0);
    w.write_bl(0);
    w.write_bl(0);
    w.write_bd(b(8.0));
    w.write_bl(1);
    w.write_bl(2);
    bd3(w, 0.0, 0.0, 0.0);
    bd3(w, 5.0, 5.0, 0.0);
    w.write_bl(0);
    w.write_bl(0);
    w.write_bs(1);
    write_cmc(w, 0xC100_0000);
    w.write_bl(-2);
    w.write_bd(b(0.0));
    w.write_bl(0);
    w.write_bs(0);
    w.write_bd(b(1.0));
    bd3(w, 1.0, 2.0, 0.0);
    w.write_bd(b(4.0));
    w.write_bd(b(4.0));
    w.write_bd(b(2.0));
    w.write_bs(1);
    w.write_bs(1);
    w.write_bs(0);
    w.write_bs(0);
}

fn write_text_content(w: &mut BitWriter) {
    bd3(w, 0.0, 0.0, 1.0);
    bd3(w, 3.0, 4.0, 0.0);
    bd3(w, 1.0, 0.0, 0.0);
    w.write_bd(b(0.0));
    w.write_bd(b(0.0));
    w.write_bd(b(0.0));
    w.write_bd(b(1.0));
    w.write_bs(1);
    write_cmc(w, 0xC000_0000);
    w.write_bs(1);
    w.write_bs(5);
    write_cmc(w, 0xC000_0000);
    w.write_bd(b(0.0));
    w.write_bl(0);
    w.write_b(false);
    w.write_b(false);
    w.write_bs(0);
    w.write_b(false);
    w.write_bd(b(0.0));
    w.write_bd(b(0.0));
    w.write_b(false);
    w.write_bl(0);
    w.write_b(false);
    w.write_b(false);
}

fn write_context_tail(w: &mut BitWriter) {
    bd3(w, 0.0, 0.0, 0.0);
    bd3(w, 1.0, 0.0, 0.0);
    bd3(w, 0.0, 1.0, 0.0);
    w.write_b(false);
    w.write_bs(9);
    w.write_bs(9);
}

/// The style block and the trailer, with the undocumented `MC` 274.
fn write_style(w: &mut BitWriter, r2013: bool) {
    w.write_bl(279552);
    w.write_bs(1);
    write_cmc(w, 0xC100_0000);
    w.write_bl(-2);
    w.write_b(true);
    w.write_b(true);
    w.write_bd(b(8.0));
    w.write_bd(b(4.0));
    w.write_bs(2);
    w.write_bs(1);
    w.write_bs(1);
    w.write_bs(1);
    w.write_bs(0);
    write_cmc(w, 0xC100_0000);
    w.write_b(false);
    write_cmc(w, 0xC100_0000);
    bd3(w, 1.0, 1.0, 1.0);
    w.write_bd(b(0.0));
    w.write_bs(0);
    w.write_b(false);
    w.write_rc(0x92);
    w.write_rc(0x02);
    w.write_b(true);
    w.write_bs(0);
    w.write_bs(9);
    w.write_bs(9);
    if r2013 {
        w.write_b(false);
    }
}

fn text_record(r2013: bool) -> (Vec<u8>, usize, Vec<u8>, usize) {
    let mut w = BitWriter::new();
    w.write_bs(2);
    write_context_head(&mut w);
    w.write_b(true);
    write_text_content(&mut w);
    write_context_tail(&mut w);
    write_style(&mut w, r2013);
    let end = w.position_bits();
    let mut s = BitWriter::new();
    write_tu(&mut s, "MULTILEADER TEST");
    let send = s.position_bits();
    (w.into_bytes(), end, s.into_bytes(), send)
}

#[test]
fn multileader_body_with_text_reads_back() {
    let (data, end, strings, send) = text_record(true);
    let mut c = BitCursor::new(&data);
    let mut s = BitCursor::new(&strings);
    let m = read_body(&mut c, &mut s, Version::R2018).unwrap();
    assert_eq!(c.position_bits(), end);
    assert_eq!(s.position_bits(), send);
    assert_eq!(m.class_version, 2);
    assert_eq!(m.context.leader_roots.len(), 1);
    let root = &m.context.leader_roots[0];
    assert_eq!(root.connection_point, p3(10.0, 20.0, 0.0));
    assert_eq!(root.landing_distance, b(8.0));
    assert_eq!(root.lines.len(), 1);
    assert_eq!(root.lines[0].points, vec![p3(0.0, 0.0, 0.0), p3(5.0, 5.0, 0.0)]);
    assert_eq!(root.lines[0].line_weight, -2);
    assert_eq!(root.lines[0].color.rgb, 0xC100_0000);
    let text = m.context.text.as_ref().expect("text content");
    assert_eq!(text.label, "MULTILEADER TEST");
    assert_eq!(text.location, p3(3.0, 4.0, 0.0));
    assert_eq!(text.flow_direction, 5);
    assert!(m.context.block.is_none());
    assert_eq!(m.context.top_attachment, 9);
    assert_eq!(m.override_flags, 279552);
    assert_eq!(m.content_type, 2);
    assert_eq!(m.block_scale, p3(1.0, 1.0, 1.0));
    assert!(!m.is_annotative);
    assert_eq!(m.undocumented_mc, 274);
    assert!(m.undocumented_flag);
    assert_eq!(m.bottom_attachment, 9);
    assert!(!m.leader_extended_to_text);
    assert_eq!(m.leader_style_handle.value, 0);
}

#[test]
fn multileader_before_r2013_has_no_trailing_bit() {
    let (data, end, strings, _) = text_record(false);
    let mut c = BitCursor::new(&data);
    let mut s = BitCursor::new(&strings);
    let m = read_body(&mut c, &mut s, Version::R2010).unwrap();
    assert_eq!(c.position_bits(), end);
    assert!(!m.leader_extended_to_text);
}

#[test]
fn multileader_block_content_reads_its_matrix() {
    let mut w = BitWriter::new();
    w.write_bs(2);
    write_context_head(&mut w);
    w.write_b(false);
    w.write_b(true);
    bd3(&mut w, 0.0, 0.0, 1.0);
    bd3(&mut w, 7.0, 8.0, 0.0);
    bd3(&mut w, 2.0, 2.0, 2.0);
    w.write_bd(b(0.5));
    w.write_bs(0);
    w.write_bl(0x0102_0304);
    w.write_rc(3);
    for k in 0..16 {
        w.write_bd(b(k as f64));
    }
    write_context_tail(&mut w);
    write_style(&mut w, true);
    let end = w.position_bits();
    let data = w.into_bytes();
    let mut sw = BitWriter::new();
    write_tu(&mut sw, "RED");
    write_tu(&mut sw, "BOOK");
    let strings = sw.into_bytes();
    let mut c = BitCursor::new(&data);
    let mut s = BitCursor::new(&strings);
    let m = read_body(&mut c, &mut s, Version::R2018).unwrap();
    assert_eq!(c.position_bits(), end);
    assert!(m.context.text.is_none());
    let block = m.context.block.as_ref().expect("block content");
    assert_eq!(block.location, p3(7.0, 8.0, 0.0));
    assert_eq!(block.scale, p3(2.0, 2.0, 2.0));
    assert_eq!(block.color.rgb, 0x0102_0304);
    assert_eq!(block.color.name, "RED");
    assert_eq!(block.color.book_name, "BOOK");
    for k in 0..16 {
        assert_eq!(block.transform[k], b(k as f64));
    }
}

#[test]
fn multileader_without_content_reads_neither() {
    let mut w = BitWriter::new();
    w.write_bs(2);
    write_context_head(&mut w);
    w.write_b(false);
    w.write_b(false);
    write_context_tail(&mut w);
    write_style(&mut w, true);
    let data = w.into_bytes();
    let mut c = BitCursor::new(&data);
    let mut s = BitCursor::new(&[]);
    let m = read_body(&mut c, &mut s, Version::R2018).unwrap();
    assert!(m.context.text.is_none());
    assert!(m.context.block.is_none());
}

#[test]
fn multileader_refuses_too_many_roots() {
    let mut w = BitWriter::new();
    w.write_bs(2);
    w.write_bl(MAX_LEADER_ROOTS as i32 + 1);
    for _ in 0..600 {
        w.write_b(false);
    }
    let data = w.into_bytes();
    let mut c = BitCursor::new(&data);
    let mut s = BitCursor::new(&[]);
    assert!(matches!(read_body(&mut c, &mut s, Version::R2018), Err(Error::SectionMap(_))));
}

#[test]
fn multileader_label_past_the_string_stream_runs_out() {
    let (data, _, _, _) = text_record(true);
    let mut c = BitCursor::new(&data);
    let mut s = BitCursor::new(&[]);
    assert!(matches!(read_body(&mut c, &mut s, Version::R2018), Err(Error::BitsExhausted { .. })));
}
