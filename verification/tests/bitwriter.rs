use dwg::bitcursor::BitCursor;
use dwg::bitwriter::BitWriter;
use dwg::error::Error;

#[test]
fn bits_pack_most_significant_first() {
    let mut w = BitWriter::new();
    w.write_b(true);
    w.write_b(false);
    w.write_b(true);
    assert_eq!(w.position_bits(), 3);
    assert_eq!(w.into_bytes(), vec![0b1010_0000]);
}

#[test]
fn raw_short_is_little_endian_bytes() {
    let mut w = BitWriter::new();
    w.write_rs(0x1234);
    assert_eq!(w.into_bytes(), vec![0x34, 0x12]);
}

#[test]
fn raw_long_and_double_are_little_endian_bytes() {
    let mut w = BitWriter::new();
    w.write_rl(0x0102_0304);
    w.write_rd(1.0f64.to_bits());
    assert_eq!(w.into_bytes(), vec![0x04, 0x03, 0x02, 0x01, 0, 0, 0, 0, 0, 0, 0xF0, 0x3F]);
}

#[test]
fn unaligned_byte_straddles_two_bytes() {
    let mut w = BitWriter::new();
    w.write_bb(0b01);
    w.write_rc(0xFF);
    assert_eq!(w.position_bits(), 10);
    assert_eq!(w.into_bytes(), vec![0b0111_1111, 0b1100_0000]);
}

#[test]
fn compressed_codes_take_their_shortest_form() {
    let widths = |f: &dyn Fn(&mut BitWriter)| {
        let mut w = BitWriter::new();
        f(&mut w);
        w.position_bits()
    };
    assert_eq!(widths(&|w| w.write_bs(0)), 2);
    assert_eq!(widths(&|w| w.write_bs(256)), 2);
    assert_eq!(widths(&|w| w.write_bs(7)), 10);
    assert_eq!(widths(&|w| w.write_bs(-4)), 18);
    assert_eq!(widths(&|w| w.write_bl(0)), 2);
    assert_eq!(widths(&|w| w.write_bl(255)), 10);
    assert_eq!(widths(&|w| w.write_bl(256)), 34);
    assert_eq!(widths(&|w| w.write_bd(0.0f64.to_bits())), 2);
    assert_eq!(widths(&|w| w.write_bd(1.0f64.to_bits())), 2);
    assert_eq!(widths(&|w| w.write_bd(2.5f64.to_bits())), 66);
    assert_eq!(widths(&|w| w.write_handle(5, 0)), 8);
    assert_eq!(widths(&|w| w.write_handle(5, 0x1234)), 24);
}

#[test]
fn every_code_reads_back_what_was_written() {
    let mut w = BitWriter::new();
    w.write_b(true);
    w.write_bb(2);
    w.write_rc(0xA5);
    w.write_rs(0xBEEF);
    w.write_rl(0xDEAD_BEEF);
    w.write_rd((-3.25f64).to_bits());
    w.write_bs_u(300);
    w.write_bs(-1);
    w.write_bl(-70000);
    w.write_bl_u(0xFFFF_FFFF);
    w.write_bd(0.0f64.to_bits());
    w.write_bd(1.0f64.to_bits());
    w.write_bd((-0.0f64).to_bits());
    w.write_handle(0x1C, 0x0102_0304_0506);
    let end = w.position_bits();
    let bytes = w.into_bytes();
    let mut c = BitCursor::new(&bytes);
    assert!(c.read_b().unwrap());
    assert_eq!(c.read_bb().unwrap(), 2);
    assert_eq!(c.read_rc().unwrap(), 0xA5);
    assert_eq!(c.read_rs().unwrap(), 0xBEEF);
    assert_eq!(c.read_rl().unwrap(), 0xDEAD_BEEF);
    assert_eq!(f64::from_bits(c.read_rd().unwrap()), -3.25);
    assert_eq!(c.read_bs_u().unwrap(), 300);
    assert_eq!(c.read_bs().unwrap(), -1);
    assert_eq!(c.read_bl().unwrap(), -70000);
    assert_eq!(c.read_bl_u().unwrap(), 0xFFFF_FFFF);
    assert_eq!(c.read_bd().unwrap(), 0);
    assert_eq!(f64::from_bits(c.read_bd().unwrap()), 1.0);
    assert_eq!(c.read_bd().unwrap(), (-0.0f64).to_bits());
    let h = c.read_handle().unwrap();
    assert_eq!((h.code, h.counter, h.value), (0x0C, 6, 0x0102_0304_0506));
    assert_eq!(c.position_bits(), end);
}

#[test]
fn reading_past_the_written_bits_runs_out() {
    let mut w = BitWriter::new();
    w.write_b(true);
    let bytes = w.into_bytes();
    let mut c = BitCursor::new(&bytes);
    assert!(c.read_b().unwrap());
    assert!(matches!(c.read_rc(), Err(Error::BitsExhausted { wanted: 8, remaining: 7 })));
}

#[test]
fn dd_takes_each_of_its_four_forms() {
    let d = 10.0f64.to_bits();
    let same_high = (d & 0xFFFF_FFFF_0000_0000) | 0x1234_5678;
    let same_top = (d & 0xFFFF_0000_0000_0000) | 0x0000_ABCD_1234_5678;
    let other = (-7.5f64).to_bits();
    let mut w = BitWriter::new();
    w.write_dd(d, d);
    assert_eq!(w.position_bits(), 2);
    w.write_dd(d, same_high);
    assert_eq!(w.position_bits(), 2 + 34);
    w.write_dd(d, same_top);
    assert_eq!(w.position_bits(), 2 + 34 + 50);
    w.write_dd(d, other);
    assert_eq!(w.position_bits(), 2 + 34 + 50 + 66);
    let bytes = w.into_bytes();
    let mut c = BitCursor::new(&bytes);
    assert_eq!(c.read_dd(d).unwrap(), d);
    assert_eq!(c.read_dd(d).unwrap(), same_high);
    assert_eq!(c.read_dd(d).unwrap(), same_top);
    assert_eq!(f64::from_bits(c.read_dd(d).unwrap()), -7.5);
}
