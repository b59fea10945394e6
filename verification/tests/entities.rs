use dwg::bitcursor::BitCursor;
use dwg::bitwriter::BitWriter;
use dwg::entities::mline::{self, Justification};
use dwg::entities::modeler::{self, SatBlob};
use dwg::entities::mtext::{self, MAX_COLUMN_HEIGHTS};
use dwg::entities::polygon_mesh::{self, CLOSED_M, CLOSED_N};
use dwg::entities::swept_surface::{self, AlignOption};
use dwg::entities::image::{self, ClipBoundary};
use dwg::entities::underlay::{self, UnderlayKind};
use dwg::entities::{
    ole2_frame, point, polyface_mesh, polyline, proxy_entity_passthrough, ray, read_be, read_bt,
    region, revolved_surface, seqend, solid, spline, sun, text, three_d_face, three_d_solid, tolerance, trace, vertex,
    viewport, wipeout, xline, Point2D, Point3D, Vec3D,
};
use dwg::error::Error;
use dwg::version::Version;

/// The bit pattern of a double, as the decoders carry it.
fn b(x: f64) -> u64 {
    x.to_bits()
}

/// The double a bit pattern stands for.
fn f(x: u64) -> f64 {
    f64::from_bits(x)
}

fn p3(x: f64, y: f64, z: f64) -> Point3D {
    Point3D { x: b(x), y: b(y), z: b(z) }
}

fn write_sat_blob(w: &mut BitWriter, blob: &SatBlob) {
    if blob.empty {
        w.write_b(true);
        return;
    }
    w.write_b(false);
    w.write_b(false);
    w.write_bs_u(blob.version);
    if !blob.bytes.is_empty() {
        w.write_bl(blob.bytes.len() as i32);
        for x in &blob.bytes {
            w.write_rc(*x);
        }
    }
    w.write_bl(0);
}

fn write_minimal_tail(w: &mut BitWriter) {
    w.write_b(false);
    w.write_b(true);
    w.write_bl(0);
}

// ---------------------------------------------------------------- BE / BT

#[test]
fn be_default_roundtrip() {
    let mut w = BitWriter::new();
    w.write_b(true);
    let bytes = w.into_bytes();
    let mut c = BitCursor::new(&bytes);
    let e = read_be(&mut c).unwrap();
    assert_eq!(e, p3(0.0, 0.0, 1.0));
}

#[test]
fn be_explicit_roundtrip() {
    let mut w = BitWriter::new();
    w.write_b(false);
    w.write_bd(b(1.5));
    w.write_bd(b(2.5));
    w.write_bd(b(3.5));
    let bytes = w.into_bytes();
    let mut c = BitCursor::new(&bytes);
    let e = read_be(&mut c).unwrap();
    assert_eq!(e, p3(1.5, 2.5, 3.5));
}

#[test]
fn bt_default_roundtrip() {
    let mut w = BitWriter::new();
    w.write_b(true);
    let bytes = w.into_bytes();
    let mut c = BitCursor::new(&bytes);
    let t = read_bt(&mut c).unwrap();
    assert_eq!(f(t), 0.0);
}

#[test]
fn bt_explicit_roundtrip() {
    let mut w = BitWriter::new();
    w.write_b(false);
    w.write_bd(b(4.25));
    let bytes = w.into_bytes();
    let mut c = BitCursor::new(&bytes);
    let t = read_bt(&mut c).unwrap();
    assert_eq!(f(t), 4.25);
}

// ---------------------------------------------------------------- MLINE

#[test]
fn roundtrip_two_line_three_vertex_mline() {
    let mut w = BitWriter::new();
    w.write_bd(b(1.0));
    w.write_rc(1);
    w.write_bd(b(0.0));
    w.write_bd(b(0.0));
    w.write_bd(b(0.0));
    w.write_bd(b(0.0));
    w.write_bd(b(0.0));
    w.write_bd(b(1.0));
    w.write_bs(0);
    w.write_bs(2);
    w.write_bs(3);
    for (vx, last) in [(0.0, false), (10.0, false), (20.0, true)] {
        w.write_bd(b(vx));
        w.write_bd(b(0.0));
        w.write_bd(b(0.0));
        w.write_bd(b(1.0));
        w.write_bd(b(0.0));
        w.write_bd(b(0.0));
        w.write_bd(b(0.0));
        w.write_bd(b(1.0));
        w.write_bd(b(0.0));
        w.write_bs(0);
        w.write_bs(0);
        if last {
            w.write_bs(1);
            w.write_bd(b(0.75));
            w.write_bs(0);
        } else {
            w.write_bs(0);
            w.write_bs(0);
        }
    }
    let bytes = w.into_bytes();
    let mut c = BitCursor::new(&bytes);
    let m = mline::decode(&mut c).unwrap();
    assert_eq!(f(m.scale_factor), 1.0);
    assert_eq!(m.justification, Justification::Zero);
    assert_eq!(m.num_lines, 2);
    assert_eq!(m.vertices.len(), 3);
    assert_eq!(m.vertices[1].vertex_point, p3(10.0, 0.0, 0.0));
    let last = &m.vertices[2].sub_records[1];
    assert_eq!(last.segment_parameters, vec![b(0.75)]);
    assert!(last.area_fill_parameters.is_empty());
}

#[test]
fn rejects_implausible_vertex_count() {
    let mut w = BitWriter::new();
    w.write_bd(b(1.0));
    w.write_rc(0);
    w.write_bd(b(0.0));
    w.write_bd(b(0.0));
    w.write_bd(b(0.0));
    w.write_bd(b(0.0));
    w.write_bd(b(0.0));
    w.write_bd(b(1.0));
    w.write_bs(0);
    w.write_bs(2);
    w.write_bs(30000);
    let bytes = w.into_bytes();
    let mut c = BitCursor::new(&bytes);
    assert!(mline::decode(&mut c).is_err());
}

#[test]
fn unknown_justification_passes_through() {
    let mut w = BitWriter::new();
    w.write_bd(b(1.0));
    w.write_rc(99);
    w.write_bd(b(0.0));
    w.write_bd(b(0.0));
    w.write_bd(b(0.0));
    w.write_bd(b(0.0));
    w.write_bd(b(0.0));
    w.write_bd(b(1.0));
    w.write_bs(0);
    w.write_bs(0);
    w.write_bs(0);
    let bytes = w.into_bytes();
    let mut c = BitCursor::new(&bytes);
    let m = mline::decode(&mut c).unwrap();
    assert_eq!(m.justification, Justification::Unknown(99));
}

#[test]
fn mline_negative_line_count_is_rejected() {
    let mut w = BitWriter::new();
    w.write_bd(b(1.0));
    w.write_rc(0);
    for _ in 0..6 {
        w.write_bd(b(0.0));
    }
    w.write_bs(0);
    w.write_bs(-1);
    w.write_bs(0);
    let bytes = w.into_bytes();
    let mut c = BitCursor::new(&bytes);
    assert!(matches!(mline::decode(&mut c), Err(Error::SectionMap(_))));
}

// ---------------------------------------------------------------- modeler

#[test]
fn roundtrip_empty_blob() {
    let mut w = BitWriter::new();
    write_sat_blob(&mut w, &SatBlob { empty: true, version: 0, bytes: Vec::new() });
    let bytes = w.into_bytes();
    let mut c = BitCursor::new(&bytes);
    let blob = modeler::decode_sat_blob(&mut c).unwrap();
    assert!(blob.empty);
    assert!(blob.bytes.is_empty());
}

#[test]
fn roundtrip_one_chunk_blob() {
    let payload = b"ACIS DUMMY BODY DATA".to_vec();
    let mut w = BitWriter::new();
    write_sat_blob(&mut w, &SatBlob { empty: false, version: 1, bytes: payload.clone() });
    let bytes = w.into_bytes();
    let mut c = BitCursor::new(&bytes);
    let blob = modeler::decode_sat_blob(&mut c).unwrap();
    assert!(!blob.empty);
    assert_eq!(blob.version, 1);
    assert_eq!(blob.bytes, payload);
}

#[test]
fn roundtrip_r2018_data_store_record() {
    let guid: [u8; 16] = [
        0x83, 0x31, 0x11, 0xA1, 0xB7, 0xAC, 0x4D, 0xD4, 0x82, 0x4D, 0x78, 0xB3, 0x36, 0x68, 0xF9,
        0xE7,
    ];
    let mut w = BitWriter::new();
    w.write_b(true);
    w.write_b(true);
    w.write_bd(b(17.776_725_469_823_76));
    w.write_bd(b(-220.850_122_660_715_93));
    w.write_bd(b(2.5));
    w.write_bl(4);
    w.write_b(true);
    w.write_bl(0);
    w.write_bl(0);
    w.write_b(true);
    w.write_bl(0);
    w.write_b(true);
    w.write_bb(0);
    w.write_bb(0);
    w.write_bb(0b10);
    for x in guid {
        w.write_rc(x);
    }
    w.write_bl(0);
    let end = w.position_bits();
    let bytes = w.into_bytes();
    let mut c = BitCursor::new(&bytes);
    let rec = modeler::decode_record(&mut c, Version::R2018, true).unwrap();
    assert!(rec.in_data_store);
    assert!(rec.blob.empty);
    assert!(rec.tail.wireframe_present);
    assert_eq!(rec.tail.num_isolines, 4);
    assert!(rec.tail.isolines_present);
    assert_eq!(rec.tail.num_wires, 0);
    assert_eq!(rec.tail.num_silhouettes, 0);
    assert!(rec.tail.acis_empty_2);
    assert_eq!(rec.tail.revision_guid, Some(guid));
    let p = rec.tail.point.unwrap();
    assert_eq!(f(p.z), 2.5);
    assert_eq!(c.position_bits(), end);
}

#[test]
fn roundtrip_inline_envelope_record() {
    let mut w = BitWriter::new();
    write_sat_blob(&mut w, &SatBlob { empty: false, version: 1, bytes: b"400 0 1 0".to_vec() });
    write_minimal_tail(&mut w);
    let end = w.position_bits();
    let bytes = w.into_bytes();
    let mut c = BitCursor::new(&bytes);
    let rec = modeler::decode_record(&mut c, Version::R2018, false).unwrap();
    assert!(!rec.blob.empty);
    assert_eq!(rec.blob.bytes, b"400 0 1 0".to_vec());
    assert!(!rec.tail.wireframe_present);
    assert!(rec.tail.acis_empty_2);
    assert_eq!(rec.tail.revision_guid, None);
    assert_eq!(c.position_bits(), end);
}

#[test]
fn wire_and_silhouette_lists_are_stepped_exactly() {
    let mut w = BitWriter::new();
    w.write_b(true);
    w.write_b(true);
    w.write_b(false);
    w.write_bl(4);
    w.write_b(true);
    w.write_bl(1);
    w.write_rc(3);
    w.write_bl(7);
    w.write_bs(256);
    w.write_bl(2);
    w.write_bl(2);
    for _ in 0..2 {
        w.write_bd(b(1.0));
        w.write_bd(b(2.0));
        w.write_bd(b(3.0));
    }
    w.write_b(true);
    for _ in 0..4 {
        w.write_bd(b(1.0));
        w.write_bd(b(0.0));
        w.write_bd(b(0.0));
    }
    w.write_bd(b(1.0));
    w.write_b(false);
    w.write_b(false);
    w.write_b(false);
    w.write_bl(1);
    w.write_bl(11);
    for _ in 0..3 {
        w.write_bd(b(0.0));
        w.write_bd(b(0.0));
        w.write_bd(b(1.0));
    }
    w.write_b(false);
    w.write_bl(0);
    w.write_b(true);
    w.write_bl(0);
    let end = w.position_bits();
    let bytes = w.into_bytes();
    let mut c = BitCursor::new(&bytes);
    let rec = modeler::decode_record(&mut c, Version::R2018, false).unwrap();
    assert_eq!(rec.tail.num_wires, 1);
    assert_eq!(rec.tail.num_silhouettes, 1);
    assert_eq!(rec.tail.point, None);
    assert_eq!(c.position_bits(), end);
}

#[test]
fn absurd_wire_count_is_rejected() {
    let mut w = BitWriter::new();
    w.write_b(true);
    w.write_b(false);
    w.write_bl(4);
    w.write_b(true);
    w.write_bl(1_000_000);
    let bytes = w.into_bytes();
    let mut c = BitCursor::new(&bytes);
    let err = modeler::decode_record(&mut c, Version::R2018, true).unwrap_err();
    match err {
        Error::SectionMap(msg) => assert!(msg.contains("wire count"), "msg: {msg}"),
        other => panic!("expected SectionMap, got {other:?}"),
    }
}

// ---------------------------------------------------------------- OLE2FRAME

#[test]
fn roundtrip_ole2frame_small_blob() {
    let mut w = BitWriter::new();
    w.write_bs(2);
    let blob = [0xD0u8, 0xCF, 0x11, 0xE0];
    w.write_bl(blob.len() as i32);
    for x in blob {
        w.write_rc(x);
    }
    w.write_bs(2);
    w.write_rc(0);
    let bytes = w.into_bytes();
    let mut c = BitCursor::new(&bytes);
    let o = ole2_frame::decode(&mut c).unwrap();
    assert_eq!(o.ole_version, 2);
    assert_eq!(o.data, blob);
    assert_eq!(o.oleobject_type, 2);
    assert_eq!(o.mode, 0);
}

#[test]
fn roundtrip_ole2frame_empty_blob() {
    let mut w = BitWriter::new();
    w.write_bs(2);
    w.write_bl(0);
    w.write_bs(1);
    w.write_rc(1);
    let bytes = w.into_bytes();
    let mut c = BitCursor::new(&bytes);
    let o = ole2_frame::decode(&mut c).unwrap();
    assert!(o.data.is_empty());
    assert_eq!(o.oleobject_type, 1);
    assert_eq!(o.mode, 1);
}

#[test]
fn rejects_negative_data_length() {
    let mut w = BitWriter::new();
    w.write_bs(2);
    w.write_bl(-1);
    let bytes = w.into_bytes();
    let mut c = BitCursor::new(&bytes);
    let err = ole2_frame::decode(&mut c).unwrap_err();
    assert!(
        matches!(&err, Error::SectionMap(msg) if msg.contains("negative data_length")),
        "err={err:?}"
    );
}

#[test]
fn rejects_excessive_data_length() {
    let mut w = BitWriter::new();
    w.write_bs(2);
    w.write_bl(32 * 1024 * 1024);
    let bytes = w.into_bytes();
    let mut c = BitCursor::new(&bytes);
    let err = ole2_frame::decode(&mut c).unwrap_err();
    assert!(
        matches!(&err, Error::SectionMap(msg) if msg.contains("exceeds cap")),
        "err={err:?}"
    );
}

// ---------------------------------------------------------------- POINT, RAY, XLINE, SOLID, TRACE, VIEWPORT

#[test]
fn roundtrip_point() {
    let mut w = BitWriter::new();
    w.write_bd(b(1.25));
    w.write_bd(b(2.5));
    w.write_bd(b(3.75));
    w.write_b(true);
    w.write_b(true);
    w.write_bd(b(0.0));
    let bytes = w.into_bytes();
    let mut c = BitCursor::new(&bytes);
    let p = point::decode(&mut c).unwrap();
    assert_eq!(p.position, p3(1.25, 2.5, 3.75));
    assert_eq!(f(p.thickness), 0.0);
    assert_eq!(p.extrusion, p3(0.0, 0.0, 1.0));
    assert_eq!(f(p.x_axis_angle), 0.0);
}

#[test]
fn roundtrip_ray() {
    let mut w = BitWriter::new();
    for x in [1.0, 2.0, 3.0, 1.0, 0.0, 0.0] {
        w.write_bd(b(x));
    }
    let bytes = w.into_bytes();
    let mut c = BitCursor::new(&bytes);
    let r = ray::decode(&mut c).unwrap();
    assert_eq!(r.start, p3(1.0, 2.0, 3.0));
    assert_eq!(r.direction, p3(1.0, 0.0, 0.0));
}

#[test]
fn roundtrip_xline() {
    let mut w = BitWriter::new();
    for x in [5.0, 5.0, 0.0, 0.0, 1.0, 0.0] {
        w.write_bd(b(x));
    }
    let bytes = w.into_bytes();
    let mut c = BitCursor::new(&bytes);
    let x = xline::decode(&mut c).unwrap();
    assert_eq!(f(x.point.x), 5.0);
    assert_eq!(f(x.direction.y), 1.0);
}

fn write_solid_quad(w: &mut BitWriter) {
    w.write_b(true);
    w.write_bd(b(0.0));
    for (x, y) in [(0.0, 0.0), (1.0, 0.0), (0.0, 1.0), (1.0, 1.0)] {
        w.write_rd(b(x));
        w.write_rd(b(y));
    }
    w.write_b(true);
}

#[test]
fn roundtrip_solid_quad() {
    let mut w = BitWriter::new();
    write_solid_quad(&mut w);
    let bytes = w.into_bytes();
    let mut c = BitCursor::new(&bytes);
    let s = solid::decode(&mut c).unwrap();
    assert_eq!(f(s.thickness), 0.0);
    assert_eq!(f(s.elevation), 0.0);
    assert_eq!(s.corners[0], Point2D { x: b(0.0), y: b(0.0) });
    assert_eq!(s.corners[3], Point2D { x: b(1.0), y: b(1.0) });
}

#[test]
fn trace_shares_solid_encoding() {
    let mut w = BitWriter::new();
    write_solid_quad(&mut w);
    let bytes = w.into_bytes();
    let mut c = BitCursor::new(&bytes);
    let t = trace::decode(&mut c).unwrap();
    assert_eq!(t.0.corners[0], Point2D { x: b(0.0), y: b(0.0) });
    assert_eq!(t.0.corners[3], Point2D { x: b(1.0), y: b(1.0) });
}

#[test]
fn roundtrip_viewport_header() {
    let mut w = BitWriter::new();
    for x in [100.0, 200.0, 0.0, 50.0, 25.0] {
        w.write_bd(b(x));
    }
    let bytes = w.into_bytes();
    let mut c = BitCursor::new(&bytes);
    let v = viewport::decode(&mut c).unwrap();
    assert_eq!(v.center, p3(100.0, 200.0, 0.0));
    assert_eq!(f(v.width), 50.0);
    assert_eq!(f(v.height), 25.0);
}

// ---------------------------------------------------------------- POLYFACE / POLYGON / POLYLINE

#[test]
fn roundtrip_measured_r2018_header() {
    let mut w = BitWriter::new();
    w.write_bs_u(5);
    w.write_bs_u(2);
    w.write_bl(7);
    assert_eq!(w.position_bits(), 30);
    let bytes = w.into_bytes();
    let mut c = BitCursor::new(&bytes);
    let p = polyface_mesh::decode_record(&mut c, Version::R2018).unwrap();
    assert_eq!(p.vertex_count, 5);
    assert_eq!(p.face_count, 2);
    assert_eq!(p.num_owned_objects, Some(7));
    assert_eq!(c.position_bits(), 30);
}

#[test]
fn r2000_header_has_no_owned_count() {
    let mut w = BitWriter::new();
    w.write_bs_u(8);
    w.write_bs_u(6);
    let bytes = w.into_bytes();
    let mut c = BitCursor::new(&bytes);
    let p = polyface_mesh::decode_record(&mut c, Version::R2000).unwrap();
    assert_eq!(p.vertex_count, 8);
    assert_eq!(p.face_count, 6);
    assert_eq!(p.num_owned_objects, None);
    assert_eq!(c.position_bits(), 20);
}

fn write_pmesh(w: &mut BitWriter, flags: u16, md: u16, nd: u16, m: u16, n: u16) {
    w.write_bs_u(flags);
    w.write_bs_u(md);
    w.write_bs_u(nd);
    w.write_bs_u(m);
    w.write_bs_u(n);
}

#[test]
fn roundtrip_open_mesh() {
    let mut w = BitWriter::new();
    write_pmesh(&mut w, 0, 6, 6, 5, 4);
    let end = w.position_bits();
    let bytes = w.into_bytes();
    let mut c = BitCursor::new(&bytes);
    let m = polygon_mesh::decode(&mut c).unwrap();
    assert_eq!(m.flags, 0);
    assert!(!m.is_closed_m());
    assert!(!m.is_closed_n());
    assert_eq!(m.m_density, 6);
    assert_eq!(m.n_density, 6);
    assert_eq!(m.m_vert_count, 5);
    assert_eq!(m.n_vert_count, 4);
    assert_eq!(c.position_bits(), end);
}

#[test]
fn roundtrip_cylinder_closed_in_m() {
    let mut w = BitWriter::new();
    write_pmesh(&mut w, CLOSED_M, 8, 4, 16, 8);
    let bytes = w.into_bytes();
    let mut c = BitCursor::new(&bytes);
    let m = polygon_mesh::decode(&mut c).unwrap();
    assert!(m.is_closed_m());
    assert!(!m.is_closed_n());
    assert_eq!(m.m_vert_count, 16);
    assert_eq!(m.n_vert_count, 8);
}

#[test]
fn roundtrip_torus_closed_both() {
    let mut w = BitWriter::new();
    write_pmesh(&mut w, CLOSED_M | CLOSED_N, 8, 8, 24, 12);
    let bytes = w.into_bytes();
    let mut c = BitCursor::new(&bytes);
    let m = polygon_mesh::decode(&mut c).unwrap();
    assert!(m.is_closed_m());
    assert!(m.is_closed_n());
    assert_eq!(m.flags & 0x3, 0x3);
    assert_eq!(m.m_vert_count, 24);
    assert_eq!(m.n_vert_count, 12);
}

#[test]
fn preserves_unknown_high_flag_bits() {
    let mut w = BitWriter::new();
    write_pmesh(&mut w, 0x8000, 2, 3, 7, 5);
    let bytes = w.into_bytes();
    let mut c = BitCursor::new(&bytes);
    let m = polygon_mesh::decode(&mut c).unwrap();
    assert_eq!(m.flags, 0x8000);
    assert!(!m.is_closed_m());
    assert!(!m.is_closed_n());
}

#[test]
fn roundtrip_closed_2d_polyline() {
    let mut w = BitWriter::new();
    w.write_bs_u(0x01);
    w.write_bs(0);
    w.write_bd(b(0.0));
    w.write_bd(b(0.0));
    w.write_b(true);
    w.write_bd(b(0.0));
    w.write_b(true);
    let bytes = w.into_bytes();
    let mut c = BitCursor::new(&bytes);
    let p = polyline::decode(&mut c).unwrap();
    assert!(p.is_closed());
    assert!(!p.is_3d());
    assert_eq!(f(p.thickness), 0.0);
}

#[test]
fn roundtrip_measured_polyline_3d() {
    let mut w = BitWriter::new();
    w.write_rc(0);
    w.write_rc(0);
    w.write_bl(5);
    assert_eq!(w.position_bits(), 26);
    let bytes = w.into_bytes();
    let mut c = BitCursor::new(&bytes);
    let p = polyline::decode_3d(&mut c, Version::R2018).unwrap();
    assert_eq!(p.flags, [0, 0]);
    assert_eq!(p.num_owned_objects, Some(5));
    assert_eq!(c.position_bits(), 26);
}

#[test]
fn polyline_3d_has_no_owned_count_before_r2004() {
    let mut w = BitWriter::new();
    w.write_rc(0x08);
    w.write_rc(0x00);
    let bytes = w.into_bytes();
    let mut c = BitCursor::new(&bytes);
    let p = polyline::decode_3d(&mut c, Version::R2000).unwrap();
    assert_eq!(p.flags, [0x08, 0x00]);
    assert_eq!(p.num_owned_objects, None);
    assert_eq!(c.position_bits(), 16);
}

#[test]
fn roundtrip_3d_polyline() {
    let mut w = BitWriter::new();
    w.write_bs_u(0x08);
    w.write_bs(6);
    w.write_bd(b(0.1));
    w.write_bd(b(0.2));
    w.write_b(false);
    w.write_bd(b(1.5));
    w.write_bd(b(10.0));
    w.write_b(true);
    let bytes = w.into_bytes();
    let mut c = BitCursor::new(&bytes);
    let p = polyline::decode(&mut c).unwrap();
    assert!(p.is_3d());
    assert_eq!(p.curve_type, 6);
    assert_eq!(f(p.thickness), 1.5);
    assert_eq!(f(p.elevation), 10.0);
}

// ---------------------------------------------------------------- PROXY

#[test]
fn roundtrip_empty_proxy_entity() {
    let mut w = BitWriter::new();
    w.write_bl(500);
    w.write_bl(1);
    w.write_bl(0);
    let bytes = w.into_bytes();
    let mut c = BitCursor::new(&bytes);
    let p = proxy_entity_passthrough::decode(&mut c, Version::R2000).unwrap();
    assert_eq!(p.proxy_class_id, 500);
    assert_eq!(p.application_version, 1);
    assert_eq!(p.data_size_bits, 0);
    assert!(p.raw_proxy_data.is_empty());
    assert!(p.original_object_handle.is_none());
}

#[test]
fn roundtrip_proxy_entity_with_payload() {
    let mut w = BitWriter::new();
    w.write_bl(501);
    w.write_bl(2);
    let payload: [u8; 4] = [0xDE, 0xAD, 0xBE, 0xEF];
    w.write_bl((payload.len() * 8) as i32);
    for x in &payload {
        w.write_rc(*x);
    }
    let bytes = w.into_bytes();
    let mut c = BitCursor::new(&bytes);
    let p = proxy_entity_passthrough::decode(&mut c, Version::R2000).unwrap();
    assert_eq!(p.proxy_class_id, 501);
    assert_eq!(p.application_version, 2);
    assert_eq!(p.data_size_bits, 32);
    assert_eq!(p.raw_proxy_data, &payload);
}

#[test]
fn rejects_oversized_data_size_bits() {
    let mut w = BitWriter::new();
    w.write_bl(500);
    w.write_bl(1);
    w.write_bl(142_606_336);
    let bytes = w.into_bytes();
    let mut c = BitCursor::new(&bytes);
    let err = proxy_entity_passthrough::decode(&mut c, Version::R2000).unwrap_err();
    assert!(matches!(&err, Error::SectionMap(msg) if msg.contains("PROXY")));
}

#[test]
fn rejects_data_size_exceeding_remaining() {
    let mut w = BitWriter::new();
    w.write_bl(500);
    w.write_bl(1);
    w.write_bl(8000);
    let bytes = w.into_bytes();
    let mut c = BitCursor::new(&bytes);
    let err = proxy_entity_passthrough::decode(&mut c, Version::R2000).unwrap_err();
    assert!(matches!(&err, Error::SectionMap(msg) if msg.contains("remaining_bits")));
}

#[test]
fn r2007_attempts_owner_handle_read() {
    let mut w = BitWriter::new();
    w.write_bl(500);
    w.write_bl(1);
    w.write_bl(0);
    w.write_handle(5, 0x42);
    let bytes = w.into_bytes();
    let mut c = BitCursor::new(&bytes);
    let p = proxy_entity_passthrough::decode(&mut c, Version::R2007).unwrap();
    let h = p.original_object_handle.expect("handle should decode");
    assert_eq!(h.code, 5);
    assert_eq!(h.value, 0x42);
}

// ---------------------------------------------------------------- REGION / 3DSOLID / SURFACES

#[test]
fn roundtrip_empty_region() {
    let mut w = BitWriter::new();
    w.write_b(true);
    let bytes = w.into_bytes();
    let mut c = BitCursor::new(&bytes);
    let r = region::decode(&mut c).unwrap();
    assert!(r.acis_empty);
    assert_eq!(r.version, None);
    assert_eq!(r.sat_blob, None);
}

#[test]
fn roundtrip_region_with_blob() {
    let payload = b"400 0 1 0";
    let mut w = BitWriter::new();
    w.write_b(false);
    w.write_b(false);
    w.write_bs_u(1);
    w.write_bl(payload.len() as i32);
    for x in payload {
        w.write_rc(*x);
    }
    w.write_bl(0);
    let bytes = w.into_bytes();
    let mut c = BitCursor::new(&bytes);
    let r = region::decode(&mut c).unwrap();
    assert!(!r.acis_empty);
    assert_eq!(r.version, Some(1));
    assert_eq!(r.sat_blob.as_deref(), Some(&payload[..]));
}

#[test]
fn roundtrip_region_data_store_record() {
    let guid = [0xABu8; 16];
    let mut w = BitWriter::new();
    w.write_b(true);
    w.write_b(true);
    w.write_bd(b(1.0));
    w.write_bd(b(2.0));
    w.write_bd(b(0.0));
    w.write_bl(4);
    w.write_b(true);
    w.write_bl(0);
    w.write_bl(0);
    w.write_b(true);
    w.write_bl(0);
    w.write_b(true);
    w.write_bb(0);
    w.write_bb(0);
    w.write_bb(0b10);
    for x in guid {
        w.write_rc(x);
    }
    w.write_bl(0);
    let end = w.position_bits();
    let bytes = w.into_bytes();
    let mut c = BitCursor::new(&bytes);
    let r = region::decode_record(&mut c, Version::R2018, true).unwrap();
    assert!(r.in_data_store);
    assert!(r.acis_empty);
    let fields = r.tail.unwrap();
    assert_eq!(fields.num_isolines, 4);
    assert_eq!(fields.revision_guid, Some(guid));
    assert_eq!(c.position_bits(), end);
}

#[test]
fn roundtrip_empty_body() {
    let mut w = BitWriter::new();
    w.write_b(true);
    let bytes = w.into_bytes();
    let mut c = BitCursor::new(&bytes);
    let s = three_d_solid::decode(&mut c).unwrap();
    assert!(s.acis_empty);
    assert_eq!(s.version, None);
    assert_eq!(s.sat_blob, None);
    assert_eq!(s.tail, None);
}

#[test]
fn roundtrip_single_block() {
    let payload: [u8; 9] = *b"400 0 1 0";
    let mut w = BitWriter::new();
    w.write_b(false);
    w.write_b(false);
    w.write_bs_u(1);
    w.write_bl(payload.len() as i32);
    for x in payload {
        w.write_rc(x);
    }
    w.write_bl(0);
    let bytes = w.into_bytes();
    let mut c = BitCursor::new(&bytes);
    let s = three_d_solid::decode(&mut c).unwrap();
    assert!(!s.acis_empty);
    assert_eq!(s.version, Some(1));
    assert_eq!(s.sat_blob.as_deref(), Some(&payload[..]));
}

#[test]
fn roundtrip_multi_block() {
    let mut w = BitWriter::new();
    w.write_b(false);
    w.write_b(true);
    w.write_bs_u(1);
    w.write_bl(7);
    for x in b"hello, " {
        w.write_rc(*x);
    }
    w.write_bl(6);
    for x in b"world!" {
        w.write_rc(*x);
    }
    w.write_bl(0);
    let bytes = w.into_bytes();
    let mut c = BitCursor::new(&bytes);
    let s = three_d_solid::decode(&mut c).unwrap();
    assert_eq!(s.version, Some(1));
    assert_eq!(s.sat_blob.as_deref(), Some(&b"hello, world!"[..]));
}

#[test]
fn version_two_is_refused() {
    let mut w = BitWriter::new();
    w.write_b(false);
    w.write_b(false);
    w.write_bs_u(2);
    let bytes = w.into_bytes();
    let mut c = BitCursor::new(&bytes);
    let err = three_d_solid::decode(&mut c).unwrap_err();
    match err {
        Error::SectionMap(msg) => assert!(msg.contains("version 2"), "msg: {msg}"),
        other => panic!("expected SectionMap, got {other:?}"),
    }
}

#[test]
fn block_size_over_remaining_rejected() {
    let mut w = BitWriter::new();
    w.write_b(false);
    w.write_b(false);
    w.write_bs_u(1);
    w.write_bl(1_000_000);
    let bytes = w.into_bytes();
    let mut c = BitCursor::new(&bytes);
    let err = three_d_solid::decode(&mut c).unwrap_err();
    match err {
        Error::SectionMap(msg) => {
            assert!(msg.contains("exceeds remaining cursor"), "msg: {msg}");
        },
        other => panic!("expected SectionMap, got {other:?}"),
    }
}

#[test]
fn max_sat_blob_cap_constant() {
    assert_eq!(three_d_solid::MAX_SAT_BLOB_BYTES, 32 * 1024 * 1024);
}

#[test]
fn whole_solid_record_keeps_its_tail() {
    let mut w = BitWriter::new();
    write_sat_blob(&mut w, &SatBlob { empty: false, version: 1, bytes: b"AB".to_vec() });
    write_minimal_tail(&mut w);
    let bytes = w.into_bytes();
    let mut c = BitCursor::new(&bytes);
    let s = three_d_solid::decode_record(&mut c, Version::R2018, false).unwrap();
    assert_eq!(s.version, Some(1));
    assert_eq!(s.sat_blob.as_deref(), Some(&b"AB"[..]));
    let tail = s.tail.unwrap();
    assert!(!tail.wireframe_present);
    assert!(tail.acis_empty_2);
}

#[test]
fn roundtrip_full_revolution() {
    let mut w = BitWriter::new();
    write_sat_blob(&mut w, &SatBlob { empty: false, version: 1, bytes: b"R-SAT".to_vec() });
    for x in [0.0, 0.0, 0.0, 0.0, 0.0, 1.0] {
        w.write_bd(b(x));
    }
    w.write_bd(b(2.0 * std::f64::consts::PI));
    let bytes = w.into_bytes();
    let mut c = BitCursor::new(&bytes);
    let s = revolved_surface::decode(&mut c).unwrap();
    assert_eq!(s.axis_origin, p3(0.0, 0.0, 0.0));
    assert_eq!(s.axis_direction, p3(0.0, 0.0, 1.0));
    assert!((f(s.sweep_angle) - 2.0 * std::f64::consts::PI).abs() < 1e-12);
    assert_eq!(s.sat.version, 1);
}

#[test]
fn roundtrip_partial_sweep_with_empty_sat() {
    let mut w = BitWriter::new();
    write_sat_blob(&mut w, &SatBlob { empty: true, version: 0, bytes: Vec::new() });
    for x in [5.0, 0.0, 0.0, 0.0, 1.0, 0.0] {
        w.write_bd(b(x));
    }
    w.write_bd(b(std::f64::consts::PI / 2.0));
    let bytes = w.into_bytes();
    let mut c = BitCursor::new(&bytes);
    let s = revolved_surface::decode(&mut c).unwrap();
    assert!(s.sat.empty);
    assert!((f(s.sweep_angle) - std::f64::consts::PI / 2.0).abs() < 1e-12);
}

#[test]
fn roundtrip_swept_surface_with_handle() {
    let mut w = BitWriter::new();
    write_sat_blob(&mut w, &SatBlob { empty: false, version: 2, bytes: b"SW".to_vec() });
    // Soft-owner handle (code 2), value 0x42.
    w.write_handle(2, 0x42);
    w.write_bb(1); // Normal alignment
    let bytes = w.into_bytes();
    let mut c = BitCursor::new(&bytes);
    let s = swept_surface::decode(&mut c).unwrap();
    assert_eq!(s.sat.version, 2);
    assert_eq!(s.sat.bytes, b"SW".to_vec());
    assert_eq!(s.path_handle.code, 2);
    assert_eq!(s.path_handle.value, 0x42);
    assert_eq!(s.align_option, AlignOption::Normal);
}

#[test]
fn rejects_bad_alignment_enum() {
    assert!(AlignOption::from_bb(4).is_err());
    assert!(matches!(AlignOption::from_bb(4).unwrap_err(), Error::SectionMap(_)));
}

#[test]
fn align_option_roundtrip() {
    for opt in [
        AlignOption::NoAlignment,
        AlignOption::Normal,
        AlignOption::Translate,
        AlignOption::ForcedAlignment,
    ] {
        assert_eq!(AlignOption::from_bb(opt.to_bb()).unwrap(), opt);
    }
}

// ---------------------------------------------------------------- SEQEND

#[test]
fn seqend_consumes_nothing() {
    let buf = [0xFFu8; 4];
    let mut c = BitCursor::new(&buf);
    let _ = seqend::decode(&mut c).unwrap();
    assert_eq!(c.position_bits(), 0);
}

// ---------------------------------------------------------------- SPLINE

#[test]
fn roundtrip_fit_spline_pre_r2013() {
    let mut w = BitWriter::new();
    w.write_bl(2);
    w.write_bl(3);
    w.write_bd(b(0.01));
    for x in [1.0, 0.0, 0.0, 0.0, 1.0, 0.0] {
        w.write_bd(b(x));
    }
    w.write_bl(3);
    for (x, y, z) in [(0.0, 0.0, 0.0), (1.0, 1.0, 0.0), (2.0, 0.0, 0.0)] {
        w.write_bd(b(x));
        w.write_bd(b(y));
        w.write_bd(b(z));
    }
    let bytes = w.into_bytes();
    let mut c = BitCursor::new(&bytes);
    let s = spline::decode(&mut c, Version::R2000).unwrap();
    let fit = s.fit.unwrap();
    assert_eq!(s.degree, 3);
    assert_eq!(fit.fit_points.len(), 3);
    assert_eq!(f(fit.tolerance), 0.01);
    assert!(s.control.is_none());
}

#[test]
fn roundtrip_control_spline_pre_r2013() {
    let mut w = BitWriter::new();
    w.write_bl(1);
    w.write_bl(3);
    w.write_b(false);
    w.write_b(false);
    w.write_b(false);
    w.write_bd(b(1e-6));
    w.write_bd(b(1e-6));
    w.write_bl(5);
    w.write_bl(3);
    w.write_b(false);
    for k in [0.0, 0.0, 0.5, 1.0, 1.0] {
        w.write_bd(b(k));
    }
    for (x, y, z) in [(0.0, 0.0, 0.0), (1.0, 2.0, 0.0), (2.0, 0.0, 0.0)] {
        w.write_bd(b(x));
        w.write_bd(b(y));
        w.write_bd(b(z));
    }
    let bytes = w.into_bytes();
    let mut c = BitCursor::new(&bytes);
    let s = spline::decode(&mut c, Version::R2000).unwrap();
    let ctl = s.control.unwrap();
    assert_eq!(ctl.knots.len(), 5);
    assert_eq!(ctl.control_points.len(), 3);
    assert!(ctl.weights.is_empty());
}

#[test]
fn r2018_spline_derives_its_form_from_the_flags() {
    let mut w = BitWriter::new();
    w.write_bl(1);
    w.write_bl(9);
    w.write_bl(2);
    w.write_bl(3);
    w.write_bd(b(1e-10));
    for x in [0.0, 1.0, 0.0, 0.0, -1.0, 0.0] {
        w.write_bd(b(x));
    }
    w.write_bl(2);
    for (x, y) in [(250.0, 17.0), (259.0, 27.0)] {
        w.write_bd(b(x));
        w.write_bd(b(y));
        w.write_bd(b(0.0));
    }
    let end = w.position_bits();
    let bytes = w.into_bytes();
    let mut c = BitCursor::new(&bytes);
    let s = spline::decode(&mut c, Version::R2018).unwrap();
    assert_eq!(s.scenario, 1);
    assert_eq!(s.flag1, Some(9));
    let fit = s.fit.expect("fit form");
    assert_eq!(fit.fit_points.len(), 2);
    assert_eq!(f(fit.tolerance), 1e-10);
    assert!(s.control.is_none());
    assert_eq!(c.position_bits(), end);
}

#[test]
fn weighted_control_spline_reads_a_weight_per_point() {
    let mut w = BitWriter::new();
    w.write_bl(1);
    w.write_bl(2);
    w.write_b(true);
    w.write_b(false);
    w.write_b(false);
    w.write_bd(b(0.0));
    w.write_bd(b(0.0));
    w.write_bl(0);
    w.write_bl(2);
    w.write_b(true);
    for (x, wt) in [(1.0, 0.5), (2.0, 0.25)] {
        w.write_bd(b(x));
        w.write_bd(b(0.0));
        w.write_bd(b(0.0));
        w.write_bd(b(wt));
    }
    let bytes = w.into_bytes();
    let mut c = BitCursor::new(&bytes);
    let s = spline::decode(&mut c, Version::R2000).unwrap();
    let ctl = s.control.unwrap();
    assert_eq!(ctl.control_points, vec![p3(1.0, 0.0, 0.0), p3(2.0, 0.0, 0.0)]);
    assert_eq!(ctl.weights, vec![b(0.5), b(0.25)]);
}

#[test]
fn spline_with_unknown_scenario_is_refused() {
    let mut w = BitWriter::new();
    w.write_bl(3);
    w.write_bl(3);
    let bytes = w.into_bytes();
    let mut c = BitCursor::new(&bytes);
    assert!(matches!(spline::decode(&mut c, Version::R2000), Err(Error::SectionMap(_))));
}

// ---------------------------------------------------------------- SUN

#[test]
fn roundtrip_sun_noon_summer() {
    let mut w = BitWriter::new();
    w.write_bl_u(1);
    w.write_b(true);
    w.write_bs(7);
    w.write_bd(b(1.5));
    w.write_b(true);
    w.write_bl_u(20260620);
    w.write_bl_u(43200);
    w.write_b(true);
    w.write_b(false);
    w.write_b(true);
    w.write_b(false);
    w.write_bs(16);
    let bytes = w.into_bytes();
    let mut c = BitCursor::new(&bytes);
    let s = sun::decode(&mut c, Version::R2010).unwrap();
    assert_eq!(s.version, 1);
    assert!(s.status);
    assert_eq!(s.sun_color_index, 7);
    assert_eq!(f(s.intensity), 1.5);
    assert!(s.has_shadow);
    assert_eq!(s.julian_day, 20260620);
    assert_eq!(s.time_of_day, 43200);
    assert!(s.daylight_savings);
    assert!(!s.shadow_type_map_flag);
    assert!(s.shadow_softness_flag);
    assert!(!s.shadow_map_size_flag);
    assert_eq!(s.shadow_softness_samples, 16);
}

#[test]
fn rejects_pre_r2007() {
    let bytes = [0u8; 4];
    let mut c = BitCursor::new(&bytes);
    let err = sun::decode(&mut c, Version::R2000).unwrap_err();
    assert!(
        matches!(&err, Error::Unsupported { feature } if feature.contains("SUN")),
        "err={err:?}"
    );
}

// ---------------------------------------------------------------- TOLERANCE

#[test]
fn roundtrip_tolerance_r2000() {
    let mut w = BitWriter::new();
    w.write_bd(b(2.5));
    w.write_bd(b(0.09));
    for x in [10.0, 20.0, 0.0, 1.0, 0.0, 0.0, 0.0, 0.0, 1.0] {
        w.write_bd(b(x));
    }
    let text = b"TOL_1";
    w.write_bs_u(text.len() as u16);
    for x in text {
        w.write_rc(*x);
    }
    w.write_handle(5, 0x1A);
    let bytes = w.into_bytes();
    let mut c = BitCursor::new(&bytes);
    let t = tolerance::decode(&mut c, Version::R2000).unwrap();
    assert_eq!(t.unknown_short, 0);
    assert_eq!(f(t.height), 2.5);
    assert!((f(t.dimgap) - 0.09).abs() < 1e-12);
    assert_eq!(t.insertion_point, p3(10.0, 20.0, 0.0));
    assert_eq!(t.text_string, "TOL_1");
    assert_eq!(t.dimstyle_handle.code, 5);
    assert_eq!(t.dimstyle_handle.value, 0x1A);
}

#[test]
fn roundtrip_tolerance_r2010_includes_unknown_short() {
    let mut w = BitWriter::new();
    w.write_bs(0);
    w.write_bd(b(5.0));
    w.write_bd(b(0.125));
    for x in [0.0, 0.0, 0.0, 1.0, 0.0, 0.0, 0.0, 0.0, 1.0] {
        w.write_bd(b(x));
    }
    w.write_bs_u(0);
    w.write_handle(5, 0);
    let bytes = w.into_bytes();
    let mut c = BitCursor::new(&bytes);
    let t = tolerance::decode(&mut c, Version::R2010).unwrap();
    assert_eq!(f(t.height), 5.0);
    assert_eq!(f(t.dimgap), 0.125);
    assert_eq!(t.text_string, "");
    assert_eq!(t.dimstyle_handle.counter, 0);
}

#[test]
fn tolerance_r2010_text_is_utf16_and_drops_its_nul() {
    let mut w = BitWriter::new();
    w.write_bs(0);
    for _ in 0..11 {
        w.write_bd(b(0.0));
    }
    let units: [u16; 3] = [0x00C5, 0x0042, 0];
    w.write_bs_u(units.len() as u16);
    for u in units {
        w.write_rc((u & 0xFF) as u8);
        w.write_rc((u >> 8) as u8);
    }
    w.write_handle(5, 1);
    let bytes = w.into_bytes();
    let mut c = BitCursor::new(&bytes);
    let t = tolerance::decode(&mut c, Version::R2010).unwrap();
    assert_eq!(t.text_string, "\u{C5}B");
}

#[test]
fn tolerance_r2010_rejects_an_unpaired_surrogate() {
    let mut w = BitWriter::new();
    w.write_bs(0);
    for _ in 0..11 {
        w.write_bd(b(0.0));
    }
    w.write_bs_u(1);
    w.write_rc(0x00);
    w.write_rc(0xD8);
    w.write_handle(5, 1);
    let bytes = w.into_bytes();
    let mut c = BitCursor::new(&bytes);
    assert!(matches!(tolerance::decode(&mut c, Version::R2010), Err(Error::SectionMap(_))));
}

// ---------------------------------------------------------------- UNDERLAY

fn write_minimal_underlay(flags: u8, clip_verts: &[(f64, f64)]) -> Vec<u8> {
    let mut w = BitWriter::new();
    for x in [0.0, 0.0, 1.0, 1.0, 2.0, 0.0, 0.0, 1.0, 1.0, 1.0] {
        w.write_bd(b(x));
    }
    w.write_rc(flags);
    w.write_rc(75);
    w.write_rc(20);
    w.write_bs(clip_verts.len() as i16);
    for (x, y) in clip_verts {
        w.write_bd(b(*x));
        w.write_bd(b(*y));
    }
    w.write_handle(5, 0x0A);
    w.into_bytes()
}

#[test]
fn roundtrip_pdf_underlay_with_rect_clip() {
    let bytes = write_minimal_underlay(0x03, &[(0.0, 0.0), (10.0, 10.0)]);
    let mut c = BitCursor::new(&bytes);
    let u = underlay::decode(&mut c, UnderlayKind::Pdf, Version::R2004).unwrap();
    assert_eq!(u.kind, UnderlayKind::Pdf);
    assert_eq!(u.insertion_point, p3(1.0, 2.0, 0.0));
    assert_eq!(u.contrast, 75);
    assert_eq!(u.fade, 20);
    assert_eq!(u.clip_polygon.len(), 2);
    assert!(u.is_clip_on());
    assert!(u.is_underlay_on());
    assert!(!u.is_monochrome());
    assert!(!u.is_adjust_for_background());
    assert_eq!(u.definition_handle.code, 5);
    assert_eq!(u.definition_handle.value, 0x0A);
}

#[test]
fn roundtrip_dwf_underlay_no_clip() {
    let bytes = write_minimal_underlay(0x02, &[]);
    let mut c = BitCursor::new(&bytes);
    let u = underlay::decode(&mut c, UnderlayKind::Dwf, Version::R2004).unwrap();
    assert_eq!(u.kind, UnderlayKind::Dwf);
    assert!(u.clip_polygon.is_empty());
    assert!(!u.is_clip_on());
    assert!(u.is_underlay_on());
}

#[test]
fn roundtrip_dgn_underlay_preserves_flags() {
    let bytes = write_minimal_underlay(0x0F, &[(0.0, 0.0)]);
    let mut c = BitCursor::new(&bytes);
    let u = underlay::decode(&mut c, UnderlayKind::Dgn, Version::R2004).unwrap();
    assert_eq!(u.kind, UnderlayKind::Dgn);
    assert_eq!(u.flags, 0x0F);
    assert!(u.is_monochrome());
    assert!(u.is_adjust_for_background());
}

#[test]
fn rejects_excessive_clip_verts() {
    let mut w = BitWriter::new();
    for x in [0.0, 0.0, 1.0, 0.0, 0.0, 0.0, 0.0, 1.0, 1.0, 1.0] {
        w.write_bd(b(x));
    }
    w.write_rc(0);
    w.write_rc(0);
    w.write_rc(0);
    w.write_bs(32767);
    let bytes = w.into_bytes();
    let mut c = BitCursor::new(&bytes);
    let err = underlay::decode(&mut c, UnderlayKind::Pdf, Version::R2004).unwrap_err();
    assert!(
        matches!(&err, Error::SectionMap(msg) if msg.contains("UNDERLAY clip verts")),
        "err={err:?}"
    );
}

#[test]
fn underlay_r2007_takes_no_handle_from_the_data_stream() {
    let bytes = write_minimal_underlay(0x02, &[]);
    let mut c = BitCursor::new(&bytes);
    let u = underlay::decode(&mut c, UnderlayKind::Pdf, Version::R2007).unwrap();
    assert_eq!(u.definition_handle.code, 0);
    assert_eq!(u.definition_handle.counter, 0);
    assert_eq!(u.definition_handle.value, 0);
}

// ---------------------------------------------------------------- VERTEX

#[test]
fn roundtrip_measured_vertex_3d() {
    let mut w = BitWriter::new();
    w.write_rc(0x20);
    w.write_bd(b(232.60172074430375));
    w.write_bd(b(0.8926935903469939));
    w.write_bd(b(0.0));
    assert_eq!(w.position_bits(), 142);
    let bytes = w.into_bytes();
    let mut c = BitCursor::new(&bytes);
    let v = vertex::decode_point(&mut c).unwrap();
    assert_eq!(v.flag, 0x20);
    assert_eq!(f(v.location.z), 0.0);
    assert_eq!(c.position_bits(), 142);
}

#[test]
fn roundtrip_measured_pface_face() {
    let mut w = BitWriter::new();
    for value in [1i16, 2, 3, -4] {
        w.write_bs(value);
    }
    assert_eq!(w.position_bits(), 48);
    let bytes = w.into_bytes();
    let mut c = BitCursor::new(&bytes);
    let face = vertex::decode_pface_face(&mut c).unwrap();
    assert_eq!(face.vertex_indices, [1, 2, 3, -4]);
    assert_eq!(c.position_bits(), 48);
}

#[test]
fn roundtrip_simple_vertex_r2000() {
    let mut w = BitWriter::new();
    w.write_rc(0x00);
    for x in [1.0, 2.0, 3.0, 0.0, 0.0, 0.0] {
        w.write_bd(b(x));
    }
    let bytes = w.into_bytes();
    let mut c = BitCursor::new(&bytes);
    let v = vertex::decode(&mut c, Version::R2000).unwrap();
    assert_eq!(v.location, p3(1.0, 2.0, 3.0));
    assert!(v.vertex_id.is_none());
    assert!(v.tangent_direction.is_none());
}

#[test]
fn roundtrip_vertex_with_tangent_r2018() {
    let mut w = BitWriter::new();
    w.write_rc(0x02);
    for x in [0.0, 0.0, 0.0, 1.0, 2.0, 0.5] {
        w.write_bd(b(x));
    }
    w.write_bl(42);
    w.write_bd(b(std::f64::consts::FRAC_PI_4));
    let bytes = w.into_bytes();
    let mut c = BitCursor::new(&bytes);
    let v = vertex::decode(&mut c, Version::R2018).unwrap();
    assert_eq!(v.vertex_id, Some(42));
    assert!((f(v.tangent_direction.unwrap()) - std::f64::consts::FRAC_PI_4).abs() < 1e-12);
    assert_eq!(f(v.bulge), 0.5);
    assert_eq!(f(v.start_width), 1.0);
    assert_eq!(f(v.end_width), 2.0);
}

#[test]
fn point_and_vector_types_compare_by_bits() {
    let a: Vec3D = p3(1.0, 2.0, 3.0);
    assert_eq!(a, Point3D { x: b(1.0), y: b(2.0), z: b(3.0) });
    assert_ne!(p3(0.0, 0.0, 0.0), p3(-0.0, 0.0, 0.0));
}

// ---------------------------------------------------------------- TEXT

#[test]
fn roundtrip_minimal_text() {
    let mut w = BitWriter::new();
    w.write_rc(0x00);
    w.write_rd(b(10.0));
    w.write_rd(b(20.0));
    w.write_b(true);
    w.write_b(true);
    w.write_bd(b(2.5));
    w.write_bs_u(5);
    for x in b"HELLO" {
        w.write_rc(*x);
    }
    let bytes = w.into_bytes();
    let mut c = BitCursor::new(&bytes);
    let t = text::decode(&mut c, Version::R2000).unwrap();
    assert_eq!(f(t.elevation), 0.0);
    assert_eq!(t.insertion_point, Point2D { x: b(10.0), y: b(20.0) });
    assert_eq!(f(t.height), 2.5);
    assert_eq!(f(t.width_factor), 1.0);
    assert_eq!(t.text, "HELLO");
}

#[test]
fn roundtrip_full_text_fields() {
    let mut w = BitWriter::new();
    w.write_rc(0x3F);
    w.write_rd(b(1.0));
    w.write_rd(b(10.0));
    w.write_rd(b(20.0));
    w.write_rd(b(11.0));
    w.write_rd(b(21.0));
    w.write_b(true);
    w.write_b(true);
    w.write_bd(b(0.15));
    w.write_bd(b(0.75));
    w.write_bd(b(2.5));
    w.write_bd(b(0.9));
    w.write_bs_u(2);
    w.write_rc(b'H');
    w.write_rc(b'i');
    w.write_bs(1);
    let bytes = w.into_bytes();
    let mut c = BitCursor::new(&bytes);
    let t = text::decode(&mut c, Version::R2000).unwrap();
    assert_eq!(f(t.elevation), 1.0);
    assert_eq!(t.alignment_point, Some(Point2D { x: b(11.0), y: b(21.0) }));
    assert!((f(t.oblique_angle) - 0.15).abs() < 1e-12);
    assert!((f(t.width_factor) - 0.9).abs() < 1e-12);
    assert_eq!(t.text, "Hi");
    assert_eq!(t.generation, 1);
}

#[test]
fn text_string_of_r2007_is_utf16_without_its_nul() {
    let mut w = BitWriter::new();
    w.write_rc(0x00);
    w.write_rd(b(1.0));
    w.write_rd(b(2.0));
    w.write_b(true);
    w.write_b(true);
    w.write_bd(b(3.0));
    w.write_bs_u(3);
    for unit in [0x00E9u16, 0x0041, 0x0000] {
        w.write_rc((unit & 0xFF) as u8);
        w.write_rc((unit >> 8) as u8);
    }
    let bytes = w.into_bytes();
    let mut c = BitCursor::new(&bytes);
    let t = text::decode(&mut c, Version::R2007).unwrap();
    assert_eq!(t.text, "\u{e9}A");
    assert_eq!(t.generation, 0);
    assert_eq!(t.h_align, 0);
}

#[test]
fn modern_text_fields_invert_the_flags_and_read_alignment_as_dd() {
    let mut w = BitWriter::new();
    w.write_rc(0b1111_1100);
    w.write_rd(b(4.0));
    w.write_rd(b(147.5));
    w.write_rd(b(2.75));
    w.write_dd(b(147.5), b(147.5));
    w.write_dd(b(2.75), b(9.0));
    w.write_b(true);
    w.write_b(true);
    w.write_rd(b(1.0));
    let bytes = w.into_bytes();
    let mut c = BitCursor::new(&bytes);
    let t = text::read_modern_fields(&mut c).unwrap();
    assert_eq!(f(t.elevation), 4.0);
    assert_eq!(t.insertion_point, Point2D { x: b(147.5), y: b(2.75) });
    assert_eq!(t.alignment_point, Some(Point2D { x: b(147.5), y: b(9.0) }));
    assert_eq!(f(t.height), 1.0);
    assert_eq!(f(t.width_factor), 1.0);
    assert_eq!(t.text, "");
}

#[test]
fn modern_text_with_every_field_elided() {
    let mut w = BitWriter::new();
    w.write_rc(0xFF);
    w.write_rd(b(147.5));
    w.write_rd(b(2.75));
    w.write_b(true);
    w.write_b(true);
    w.write_rd(b(1.0));
    let end = w.position_bits();
    let bytes = w.into_bytes();
    let mut c = BitCursor::new(&bytes);
    let t = text::read_modern_fields(&mut c).unwrap();
    assert_eq!(c.position_bits(), end);
    assert_eq!(f(t.elevation), 0.0);
    assert_eq!(t.alignment_point, None);
    assert_eq!(f(t.thickness), 0.0);
    assert_eq!(f(t.height), 1.0);
}

#[test]
fn truncated_text_runs_out_of_bits() {
    let bytes = [0x00u8, 0x01];
    let mut c = BitCursor::new(&bytes);
    assert!(matches!(text::decode(&mut c, Version::R2000), Err(Error::BitsExhausted { .. })));
}

// ---------------------------------------------------------------- 3DFACE

#[test]
fn roundtrip_triangle_face() {
    let mut w = BitWriter::new();
    w.write_b(true);
    w.write_b(true);
    w.write_rd(b(0.0));
    w.write_rd(b(0.0));
    w.write_dd(b(0.0), b(1.0));
    w.write_dd(b(0.0), b(0.0));
    w.write_dd(b(0.0), b(0.0));
    w.write_dd(b(1.0), b(1.0));
    w.write_dd(b(0.0), b(1.0));
    w.write_dd(b(0.0), b(0.0));
    w.write_dd(b(1.0), b(1.0));
    w.write_dd(b(1.0), b(1.0));
    w.write_dd(b(0.0), b(0.0));
    let bytes = w.into_bytes();
    let mut c = BitCursor::new(&bytes);
    let face = three_d_face::decode(&mut c).unwrap();
    assert!(face.is_triangle);
    assert_eq!(face.corners[0], p3(0.0, 0.0, 0.0));
    assert_eq!(face.corners[1], p3(1.0, 0.0, 0.0));
    assert_eq!(face.corners[2], p3(1.0, 1.0, 0.0));
    assert_eq!(face.corners[3], face.corners[2]);
    assert_eq!(face.invisible_edges, 0);
}

#[test]
fn roundtrip_quad_face_with_invisible_edges() {
    let mut w = BitWriter::new();
    w.write_b(false);
    w.write_b(false);
    w.write_rd(b(0.0));
    w.write_rd(b(0.0));
    w.write_rd(b(0.0));
    w.write_dd(b(0.0), b(1.0));
    w.write_dd(b(0.0), b(0.0));
    w.write_dd(b(0.0), b(0.0));
    w.write_dd(b(1.0), b(1.0));
    w.write_dd(b(0.0), b(1.0));
    w.write_dd(b(0.0), b(0.0));
    w.write_dd(b(1.0), b(0.0));
    w.write_dd(b(1.0), b(1.0));
    w.write_dd(b(0.0), b(0.0));
    w.write_bs_u(0b0101);
    let bytes = w.into_bytes();
    let mut c = BitCursor::new(&bytes);
    let face = three_d_face::decode(&mut c).unwrap();
    assert!(!face.is_triangle);
    assert_eq!(face.invisible_edges, 0b0101);
    assert_eq!(face.corners[3], p3(0.0, 1.0, 0.0));
}

/// The face is a triangle when its last two corners are equal as
/// doubles: a signed zero matches the other zero, a NaN matches
/// nothing.
fn face_with_fourth_z(z3: f64, z4: f64) -> three_d_face::ThreeDFace {
    let mut w = BitWriter::new();
    w.write_b(true);
    w.write_b(false);
    w.write_rd(b(0.0));
    w.write_rd(b(0.0));
    w.write_rd(b(z3));
    w.write_dd(b(0.0), b(0.0));
    w.write_dd(b(0.0), b(0.0));
    w.write_dd(b(z3), b(z3));
    w.write_dd(b(0.0), b(0.0));
    w.write_dd(b(0.0), b(0.0));
    w.write_dd(b(z3), b(z3));
    w.write_dd(b(0.0), b(0.0));
    w.write_dd(b(0.0), b(0.0));
    w.write_dd(b(z3), b(z4));
    let bytes = w.into_bytes();
    let mut c = BitCursor::new(&bytes);
    three_d_face::decode(&mut c).unwrap()
}

#[test]
fn face_triangle_test_compares_as_doubles() {
    assert!(face_with_fourth_z(0.0, -0.0).is_triangle);
    assert!(face_with_fourth_z(2.0, 2.0).is_triangle);
    assert!(!face_with_fourth_z(2.0, 3.0).is_triangle);
    assert!(!face_with_fourth_z(f64::NAN, f64::NAN).is_triangle);
}

#[test]
fn truncated_face_runs_out_of_bits() {
    let bytes = [0xC0u8];
    let mut c = BitCursor::new(&bytes);
    assert!(matches!(three_d_face::decode(&mut c), Err(Error::BitsExhausted { .. })));
}

// ---------------------------------------------------------------- IMAGE / WIPEOUT

#[test]
fn decodes_the_measured_polygon_wipeout_body() {
    let mut w = BitWriter::new();
    w.write_bl(0);
    w.write_bd(b(271.9211288808192));
    w.write_bd(b(3.988123351850959));
    w.write_bd(b(0.0));
    w.write_bd(b(31.707742926072683));
    w.write_bd(b(0.0));
    w.write_bd(b(0.0));
    w.write_bd(b(0.0));
    w.write_bd(b(31.707742926072683));
    w.write_bd(b(0.0));
    w.write_rd(b(1.0));
    w.write_rd(b(1.0));
    w.write_bs(7);
    w.write_b(true);
    w.write_rc(50);
    w.write_rc(50);
    w.write_rc(0);
    w.write_b(false);
    w.write_bs(2);
    w.write_bl(4);
    for (x, y) in [(0.0f64, 0.0), (1.0, 0.0), (1.0, 1.0), (0.0, 1.0)] {
        w.write_rd(b(x));
        w.write_rd(b(y));
    }
    let end = w.position_bits();

    let bytes = w.into_bytes();
    let mut c = BitCursor::new(&bytes);
    let wp = wipeout::decode(&mut c, Version::R2018).unwrap();
    assert_eq!(wp.brightness, 50);
    assert_eq!(wp.contrast, 50);
    assert_eq!(wp.fade, 0);
    assert!(wp.clipping);
    match &wp.clip_boundary {
        ClipBoundary::Polygon(pts) => assert_eq!(pts.len(), 4),
        other => panic!("expected a polygon boundary, got {other:?}"),
    }
    assert_eq!(c.position_bits(), end);
}

fn write_image_head(w: &mut BitWriter) {
    w.write_bl(0);
    for v in [5.0, 6.0, 0.0, 2.0, 0.0, 0.0, 0.0, 2.0, 0.0] {
        w.write_bd(b(v));
    }
    w.write_rd(b(640.0));
    w.write_rd(b(480.0));
    w.write_bs(15);
    w.write_b(true);
    w.write_rc(60);
    w.write_rc(40);
    w.write_rc(10);
}

#[test]
fn image_with_a_rectangle_clip_before_r2010() {
    let mut w = BitWriter::new();
    write_image_head(&mut w);
    w.write_bs(1);
    w.write_rd(b(-0.5));
    w.write_rd(b(-0.5));
    w.write_rd(b(639.5));
    w.write_rd(b(479.5));
    let end = w.position_bits();
    let bytes = w.into_bytes();
    let mut c = BitCursor::new(&bytes);
    let im = image::decode(&mut c, Version::R2004).unwrap();
    assert_eq!(c.position_bits(), end);
    assert_eq!(im.insertion_point, p3(5.0, 6.0, 0.0));
    assert_eq!(im.u_vector, p3(2.0, 0.0, 0.0));
    assert_eq!(im.v_vector, p3(0.0, 2.0, 0.0));
    assert_eq!(im.size, Point2D { x: b(640.0), y: b(480.0) });
    assert_eq!(im.display_flags, 15);
    assert_eq!((im.brightness, im.contrast, im.fade), (60, 40, 10));
    assert!(!im.clip_mode);
    assert_eq!(im.clip_boundary_type, 1);
    assert_eq!(
        im.clip_boundary,
        ClipBoundary::Rectangle(
            Point2D { x: b(-0.5), y: b(-0.5) },
            Point2D { x: b(639.5), y: b(479.5) }
        )
    );
}

#[test]
fn image_reads_the_clip_mode_from_r2010() {
    let mut w = BitWriter::new();
    write_image_head(&mut w);
    w.write_b(true);
    w.write_bs(2);
    w.write_bl(0);
    let bytes = w.into_bytes();
    let mut c = BitCursor::new(&bytes);
    let im = image::decode(&mut c, Version::R2010).unwrap();
    assert!(im.clip_mode);
    assert_eq!(im.clip_boundary, ClipBoundary::Polygon(Vec::new()));
}

#[test]
fn image_refuses_a_negative_vertex_count() {
    let mut w = BitWriter::new();
    write_image_head(&mut w);
    w.write_b(false);
    w.write_bs(2);
    w.write_bl(-3);
    let bytes = w.into_bytes();
    let mut c = BitCursor::new(&bytes);
    assert!(matches!(image::decode(&mut c, Version::R2018), Err(Error::SectionMap(_))));
}

#[test]
fn image_with_more_vertices_than_bits_runs_out() {
    let mut w = BitWriter::new();
    write_image_head(&mut w);
    w.write_b(false);
    w.write_bs(2);
    w.write_bl(1_000_000);
    w.write_rd(b(1.0));
    let bytes = w.into_bytes();
    let mut c = BitCursor::new(&bytes);
    assert!(matches!(image::decode(&mut c, Version::R2018), Err(Error::BitsExhausted { .. })));
}

// ---------------------------------------------------------------- MTEXT

#[test]
fn roundtrip_mtext_r2000() {
    let mut w = BitWriter::new();
    for v in [10.0, 20.0, 0.0, 0.0, 0.0, 1.0, 1.0, 0.0, 0.0] {
        w.write_bd(b(v));
    }
    w.write_bd(b(100.0));
    w.write_bd(b(2.5));
    w.write_bs(1);
    w.write_bs(5);
    w.write_bd(b(5.0));
    w.write_bd(b(50.0));
    let s = b"Hi\\PEveryone";
    w.write_bs_u(s.len() as u16);
    for x in s {
        w.write_rc(*x);
    }
    w.write_bs(0);
    w.write_bd(b(1.0));
    w.write_b(false);
    let bytes = w.into_bytes();
    let mut c = BitCursor::new(&bytes);
    let m = mtext::decode(&mut c, Version::R2000).unwrap();
    assert_eq!(m.insertion_point, p3(10.0, 20.0, 0.0));
    assert_eq!(f(m.rect_width), 100.0);
    assert_eq!(m.text, "Hi\\PEveryone");
    assert_eq!(m.attachment_point, 1);
}

/// The fields every modern MTEXT record opens with, through the
/// unknown bit after the line spacing.
fn write_modern_mtext_head(w: &mut BitWriter) {
    for v in [183.5, 5.25, 0.0, 0.0, 0.0, 1.0, 1.0, 0.0, 0.0] {
        w.write_bd(b(v));
    }
    w.write_bd(b(15.75));
    w.write_bd(b(0.0));
    w.write_bd(b(1.0));
    w.write_bs(1);
    w.write_bs(5);
    w.write_bd(b(2.5));
    w.write_bd(b(13.5));
    w.write_bs(1);
    w.write_bd(b(1.0));
    w.write_b(false);
}

#[test]
fn modern_mtext_fields_without_background_or_annotation() {
    let mut w = BitWriter::new();
    write_modern_mtext_head(&mut w);
    w.write_bl(0);
    w.write_b(false);
    let end = w.position_bits();
    let bytes = w.into_bytes();
    let mut c = BitCursor::new(&bytes);
    let m = mtext::read_modern_fields_probe(&mut c, Version::R2018).unwrap();
    assert_eq!(c.position_bits(), end);
    assert_eq!(m.insertion_point, p3(183.5, 5.25, 0.0));
    assert_eq!(m.rect_height, Some(b(0.0)));
    assert_eq!(f(m.nominal_text_height), 1.0);
    assert_eq!((m.attachment_point, m.drawing_direction), (1, 5));
    assert_eq!((f(m.extents_height), f(m.extents_width)), (2.5, 13.5));
    assert_eq!(m.linespace_style, 1);
    assert!(m.is_annotative);
    assert_eq!(m.column_type, 0);
    assert_eq!(m.text, "");
}

#[test]
fn modern_mtext_r2007_stops_after_the_background_flags() {
    let mut w = BitWriter::new();
    write_modern_mtext_head(&mut w);
    w.write_bl(0x10);
    let end = w.position_bits();
    w.write_b(true);
    let bytes = w.into_bytes();
    let mut c = BitCursor::new(&bytes);
    let m = mtext::read_modern_fields_probe(&mut c, Version::R2007).unwrap();
    assert_eq!(c.position_bits(), end);
    assert!(m.is_annotative);
}

fn write_background_fill(w: &mut BitWriter) {
    w.write_bd(b(1.25));
    w.write_bs_u(256);
    w.write_bl_u(0xC200_0000);
    w.write_rc(0);
    w.write_bl(0);
}

#[test]
fn modern_mtext_skips_the_background_block() {
    let mut w = BitWriter::new();
    write_modern_mtext_head(&mut w);
    w.write_bl(0x01);
    write_background_fill(&mut w);
    let end = w.position_bits();
    let bytes = w.into_bytes();
    let mut c = BitCursor::new(&bytes);
    mtext::read_modern_fields_probe(&mut c, Version::R2013).unwrap();
    assert_eq!(c.position_bits(), end);

    let mut w = BitWriter::new();
    write_modern_mtext_head(&mut w);
    w.write_bl(0x10);
    write_background_fill(&mut w);
    w.write_b(false);
    let end = w.position_bits();
    let bytes = w.into_bytes();
    let mut c = BitCursor::new(&bytes);
    mtext::read_modern_fields_probe(&mut c, Version::R2018).unwrap();
    assert_eq!(c.position_bits(), end);
}

fn write_annotation_frame(w: &mut BitWriter) {
    w.write_bs(4);
    w.write_b(true);
    w.write_bl(1);
    for v in [1.0, 0.0, 0.0, 183.5, 5.25, 0.0, 15.75, 0.0, 13.5, 2.5] {
        w.write_bd(b(v));
    }
}

#[test]
fn modern_mtext_reads_dynamic_column_heights() {
    let mut w = BitWriter::new();
    write_modern_mtext_head(&mut w);
    w.write_bl(0);
    w.write_b(true);
    write_annotation_frame(&mut w);
    w.write_bs(2);
    w.write_bl_u(3);
    w.write_bd(b(5.0));
    w.write_bd(b(0.5));
    w.write_b(false);
    w.write_b(false);
    for v in [1.0, 2.0, 3.0] {
        w.write_bd(b(v));
    }
    let end = w.position_bits();
    let bytes = w.into_bytes();
    let mut c = BitCursor::new(&bytes);
    let m = mtext::read_modern_fields_probe(&mut c, Version::R2018).unwrap();
    assert_eq!(c.position_bits(), end);
    assert!(!m.is_annotative);
    assert_eq!(m.column_type, 2);
    assert_eq!((f(m.column_width), f(m.column_gutter)), (5.0, 0.5));
    assert_eq!(m.column_heights, vec![b(1.0), b(2.0), b(3.0)]);
}

#[test]
fn modern_mtext_static_columns_store_no_heights() {
    let mut w = BitWriter::new();
    write_modern_mtext_head(&mut w);
    w.write_bl(0);
    w.write_b(true);
    write_annotation_frame(&mut w);
    w.write_bs(1);
    w.write_bl_u(3);
    w.write_bd(b(5.0));
    w.write_bd(b(0.5));
    w.write_b(false);
    w.write_b(false);
    let end = w.position_bits();
    let bytes = w.into_bytes();
    let mut c = BitCursor::new(&bytes);
    let m = mtext::read_modern_fields_probe(&mut c, Version::R2018).unwrap();
    assert_eq!(c.position_bits(), end);
    assert_eq!(m.column_type, 1);
    assert!(m.column_heights.is_empty());
}

#[test]
fn modern_mtext_refuses_a_column_count_over_the_cap() {
    let mut w = BitWriter::new();
    write_modern_mtext_head(&mut w);
    w.write_bl(0);
    w.write_b(true);
    write_annotation_frame(&mut w);
    w.write_bs(2);
    w.write_bl_u(MAX_COLUMN_HEIGHTS as u32 + 1);
    w.write_bd(b(5.0));
    w.write_bd(b(0.5));
    w.write_b(false);
    w.write_b(false);
    for _ in 0..5000 {
        w.write_b(false);
    }
    let bytes = w.into_bytes();
    let mut c = BitCursor::new(&bytes);
    assert!(matches!(
        mtext::read_modern_fields_probe(&mut c, Version::R2018),
        Err(Error::SectionMap(_))
    ));
}

#[test]
fn refused_count_message_names_count_and_value() {
    let mut w = BitWriter::new();
    w.write_b(true);
    w.write_b(false);
    w.write_bl(-1);
    let bytes = w.into_bytes();
    let mut c = BitCursor::new(&bytes);
    let err = modeler::decode_record(&mut c, Version::R2018, true).unwrap_err();
    match err {
        Error::SectionMap(msg) => assert_eq!(msg, "ACIS isoline count is -1, outside 0..=65536"),
        other => panic!("expected SectionMap, got {other:?}"),
    }
}

#[test]
fn refused_wire_count_message_is_exact() {
    let mut w = BitWriter::new();
    w.write_b(true);
    w.write_b(false);
    w.write_bl(4);
    w.write_b(true);
    w.write_bl(1_000_000);
    let bytes = w.into_bytes();
    let mut c = BitCursor::new(&bytes);
    let err = modeler::decode_record(&mut c, Version::R2018, true).unwrap_err();
    match err {
        Error::SectionMap(msg) => assert_eq!(msg, "ACIS wire count is 1000000, outside 0..=65536"),
        other => panic!("expected SectionMap, got {other:?}"),
    }
}

#[test]
fn ole2_refusal_messages_name_the_length() {
    let mut w = BitWriter::new();
    w.write_bs(2);
    w.write_bl(-7);
    let bytes = w.into_bytes();
    let mut c = BitCursor::new(&bytes);
    match ole2_frame::decode(&mut c).unwrap_err() {
        Error::SectionMap(msg) => assert_eq!(msg, "OLE2FRAME negative data_length -7"),
        other => panic!("expected SectionMap, got {other:?}"),
    }
    let mut w = BitWriter::new();
    w.write_bs(2);
    w.write_bl(32 * 1024 * 1024);
    let bytes = w.into_bytes();
    let mut c = BitCursor::new(&bytes);
    match ole2_frame::decode(&mut c).unwrap_err() {
        Error::SectionMap(msg) => assert_eq!(msg, "OLE2FRAME data_length 33554432 exceeds cap 16777216"),
        other => panic!("expected SectionMap, got {other:?}"),
    }
}

#[test]
fn version_two_refusal_message_is_exact() {
    let mut w = BitWriter::new();
    w.write_b(false);
    w.write_b(false);
    w.write_bs_u(2);
    let bytes = w.into_bytes();
    let mut c = BitCursor::new(&bytes);
    match three_d_solid::decode(&mut c).unwrap_err() {
        Error::SectionMap(msg) => assert_eq!(
            msg,
            "ACIS envelope reports version 2; only the length-prefixed version 1 form can be stepped"
        ),
        other => panic!("expected SectionMap, got {other:?}"),
    }
}

#[test]
fn proxy_refusal_messages_name_sizes() {
    let mut w = BitWriter::new();
    w.write_bl(500);
    w.write_bl(1);
    w.write_bl(142_606_336);
    let bytes = w.into_bytes();
    let mut c = BitCursor::new(&bytes);
    match proxy_entity_passthrough::decode(&mut c, Version::R2000).unwrap_err() {
        Error::SectionMap(msg) => {
            assert_eq!(msg, "PROXY entity data size 17825792 bytes exceeds cap 16777216")
        },
        other => panic!("expected SectionMap, got {other:?}"),
    }
    let mut w = BitWriter::new();
    w.write_bl(500);
    w.write_bl(1);
    w.write_bl(8000);
    let bytes = w.into_bytes();
    let mut c = BitCursor::new(&bytes);
    match proxy_entity_passthrough::decode(&mut c, Version::R2000).unwrap_err() {
        Error::SectionMap(msg) => {
            assert!(msg.starts_with("PROXY entity data_size_bits 8000 exceeds remaining_bits "), "msg: {msg}")
        },
        other => panic!("expected SectionMap, got {other:?}"),
    }
}

#[test]
fn sat_block_refusal_names_size_and_bytes_left() {
    let mut w = BitWriter::new();
    w.write_b(false);
    w.write_b(false);
    w.write_bs_u(1);
    w.write_bl(1_000_000);
    let bytes = w.into_bytes();
    let mut c = BitCursor::new(&bytes);
    match three_d_solid::decode(&mut c).unwrap_err() {
        Error::SectionMap(msg) => {
            assert!(msg.starts_with("SAT block size (1000000) exceeds remaining cursor bytes ("), "msg: {msg}");
            assert!(msg.ends_with(')'), "msg: {msg}");
        },
        other => panic!("expected SectionMap, got {other:?}"),
    }
}

#[test]
fn sat_block_negative_size_message() {
    let mut w = BitWriter::new();
    w.write_b(false);
    w.write_b(false);
    w.write_bs_u(1);
    w.write_bl(-5);
    let bytes = w.into_bytes();
    let mut c = BitCursor::new(&bytes);
    match three_d_solid::decode(&mut c).unwrap_err() {
        Error::SectionMap(msg) => assert_eq!(msg, "SAT block size is negative (-5); entity stream is malformed"),
        other => panic!("expected SectionMap, got {other:?}"),
    }
}

#[test]
fn underlay_clip_refusal_names_count_and_cap() {
    let mut w = BitWriter::new();
    for x in [0.0, 0.0, 1.0, 0.0, 0.0, 0.0, 0.0, 1.0, 1.0, 1.0] {
        w.write_bd(b(x));
    }
    w.write_rc(0);
    w.write_rc(0);
    w.write_rc(0);
    w.write_bs(-3);
    let bytes = w.into_bytes();
    let mut c = BitCursor::new(&bytes);
    match underlay::decode(&mut c, UnderlayKind::Pdf, Version::R2004).unwrap_err() {
        Error::SectionMap(msg) => {
            assert!(msg.starts_with("UNDERLAY clip verts -3 exceeds cap (100000 or remaining_bits "), "msg: {msg}")
        },
        other => panic!("expected SectionMap, got {other:?}"),
    }
}

#[test]
fn sun_before_r2007_names_the_feature() {
    let bytes = [0u8; 16];
    let mut c = BitCursor::new(&bytes);
    match sun::decode(&mut c, Version::R2000).unwrap_err() {
        Error::Unsupported { feature } => assert_eq!(feature, "SUN requires R2007+"),
        other => panic!("expected Unsupported, got {other:?}"),
    }
}

#[test]
fn spline_refusals_name_the_scenario_and_the_count() {
    let mut w = BitWriter::new();
    w.write_bl(3);
    w.write_bl(3);
    let bytes = w.into_bytes();
    let mut c = BitCursor::new(&bytes);
    match spline::decode(&mut c, Version::R2000).unwrap_err() {
        Error::SectionMap(msg) => assert_eq!(msg, "SPLINE scenario 3 not in {1, 2}"),
        other => panic!("expected SectionMap, got {other:?}"),
    }
    let mut w = BitWriter::new();
    w.write_bl(1);
    w.write_bl(3);
    w.write_b(false);
    w.write_b(false);
    w.write_b(false);
    w.write_bd(b(0.0));
    w.write_bd(b(0.0));
    w.write_bl(200_000);
    let bytes = w.into_bytes();
    let mut c = BitCursor::new(&bytes);
    match spline::decode(&mut c, Version::R2000).unwrap_err() {
        Error::SectionMap(msg) => assert!(
            msg.starts_with("SPLINE knots count 200000 exceeds cap (100000 or remaining_bits "),
            "msg: {msg}"
        ),
        other => panic!("expected SectionMap, got {other:?}"),
    }
}

#[test]
fn text_string_with_a_lone_surrogate_names_text() {
    let mut w = BitWriter::new();
    w.write_rc(0x00);
    w.write_rd(b(1.0));
    w.write_rd(b(2.0));
    w.write_b(true);
    w.write_b(true);
    w.write_bd(b(3.0));
    w.write_bs_u(2);
    for unit in [0xD800u16, 0x0041] {
        w.write_rc((unit & 0xFF) as u8);
        w.write_rc((unit >> 8) as u8);
    }
    let bytes = w.into_bytes();
    let mut c = BitCursor::new(&bytes);
    match text::decode(&mut c, Version::R2007).unwrap_err() {
        Error::SectionMap(msg) => assert_eq!(msg, "TEXT string is not valid UTF-16"),
        other => panic!("expected SectionMap, got {other:?}"),
    }
}

#[test]
fn version_three_envelope_is_refused_even_with_blocks() {
    let mut w = BitWriter::new();
    write_sat_blob(&mut w, &SatBlob { empty: false, version: 3, bytes: b"SW".to_vec() });
    let bytes = w.into_bytes();
    let mut c = BitCursor::new(&bytes);
    match three_d_solid::decode(&mut c).unwrap_err() {
        Error::SectionMap(msg) => assert_eq!(
            msg,
            "ACIS envelope reports version 3; only the length-prefixed version 1 form can be stepped"
        ),
        other => panic!("expected SectionMap, got {other:?}"),
    }
}

#[test]
fn text_string_surrogate_pair_is_one_character() {
    let mut w = BitWriter::new();
    w.write_rc(0x00);
    w.write_rd(b(1.0));
    w.write_rd(b(2.0));
    w.write_b(true);
    w.write_b(true);
    w.write_bd(b(3.0));
    w.write_bs_u(3);
    for unit in [0xD83Du16, 0xDE00, 0x0000] {
        w.write_rc((unit & 0xFF) as u8);
        w.write_rc((unit >> 8) as u8);
    }
    let bytes = w.into_bytes();
    let mut c = BitCursor::new(&bytes);
    let t = text::decode(&mut c, Version::R2007).unwrap();
    assert_eq!(t.text, "\u{1F600}");
}
