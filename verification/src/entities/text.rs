//! TEXT entity: a single-line annotation. A flag byte elides the
//! fields that keep their defaults.
//!
//! | Bit  | Field            | Default when elided |
//! |------|------------------|---------------------|
//! | 0x01 | elevation        | 0.0                 |
//! | 0x02 | alignment_point  | none                |
//! | 0x04 | oblique_angle    | 0.0                 |
//! | 0x08 | rotation_angle   | 0.0                 |
//! | 0x10 | width_factor     | 1.0                 |
//! | 0x20 | generation       | 0                   |
//! | 0x40 | horizontal_align | 0                   |
//! | 0x80 | vertical_align   | 0                   |
//!
//! ```text
//! RC  data_flag
//! RD  elevation                (when its bit is set)
//! 2RD insertion_point
//! 2RD alignment_point          (when its bit is set)
//! BE  extrusion
//! BT  thickness
//! BD  oblique, BD rotation     (when their bits are set)
//! BD  height
//! BD  width_factor             (when its bit is set)
//! TV  text
//! BS  generation, BS h_align, BS v_align   (when their bits are set)
//! ```
//!
//! The R2007+ field list ([`read_modern_fields`]) turns the flag
//! around (a set bit elides the field), writes the alignment point as
//! two `DD`s against the insertion point, the height as an `RD`, and
//! keeps the text in the string stream.
use vstd::prelude::*;

use crate::bitcursor::{spec_read_bd, spec_read_bs, spec_read_dd, spec_read_rc, spec_read_rd, BitCursor};
use crate::entities::{
    read_be, read_bt, read_rd2, read_tv, spec_outcome, spec_outcome_view, spec_read_be, spec_read_bt,
    spec_read_rd2, spec_read_tv, Point2D, Vec3D,
};
use crate::error::{Error, Result};
use crate::version::Version;

verus! {

/// The bit pattern of `1.0`, the default width factor.
pub const ONE_BITS: u64 = 0x3FF0_0000_0000_0000;

/// Decoded TEXT; doubles are bit patterns.
#[derive(Debug, Clone, PartialEq, Eq)]
pub struct Text {
    pub elevation: u64,
    pub insertion_point: Point2D,
    pub alignment_point: Option<Point2D>,
    pub extrusion: Vec3D,
    pub thickness: u64,
    pub oblique_angle: u64,
    pub rotation_angle: u64,
    pub height: u64,
    pub width_factor: u64,
    pub text: String,
    pub generation: i16,
    pub h_align: i16,
    pub v_align: i16,
}

/// [`Text`] with its string as characters.
pub struct TextView {
    pub elevation: u64,
    pub insertion_point: Point2D,
    pub alignment_point: Option<Point2D>,
    pub extrusion: Vec3D,
    pub thickness: u64,
    pub oblique_angle: u64,
    pub rotation_angle: u64,
    pub height: u64,
    pub width_factor: u64,
    pub text: Seq<char>,
    pub generation: i16,
    pub h_align: i16,
    pub v_align: i16,
}

impl View for Text {
    type V = TextView;

    open spec fn view(&self) -> TextView {
        TextView {
            elevation: self.elevation,
            insertion_point: self.insertion_point,
            alignment_point: self.alignment_point,
            extrusion: self.extrusion,
            thickness: self.thickness,
            oblique_angle: self.oblique_angle,
            rotation_angle: self.rotation_angle,
            height: self.height,
            width_factor: self.width_factor,
            text: self.text@,
            generation: self.generation,
            h_align: self.h_align,
            v_align: self.v_align,
        }
    }
}

/// A `BD` when `present`, else `default`.
pub open spec fn spec_opt_bd(b: Seq<u8>, p: int, present: bool, default: u64) -> core::result::Result<(u64, int), Error> {
    if present {
        spec_read_bd(b, p)
    } else {
        Ok((default, p))
    }
}

/// An `RD` when `present`, else `default`.
pub open spec fn spec_opt_rd(b: Seq<u8>, p: int, present: bool, default: u64) -> core::result::Result<(u64, int), Error> {
    if present {
        spec_read_rd(b, p)
    } else {
        Ok((default, p))
    }
}

/// A `BS` when `present`, else 0.
pub open spec fn spec_opt_bs(b: Seq<u8>, p: int, present: bool) -> core::result::Result<(i16, int), Error> {
    if present {
        spec_read_bs(b, p)
    } else {
        Ok((0i16, p))
    }
}

fn read_opt_bd(c: &mut BitCursor<'_>, present: bool, default: u64) -> (r: Result<u64>)
    requires
        old(c).wf(),
    ensures
        final(c).wf(),
        final(c).data() == old(c).data(),
        spec_outcome(r, final(c).pos(), spec_opt_bd(old(c).data(), old(c).pos(), present, default)),
{
    if present {
        c.read_bd()
    } else {
        Ok(default)
    }
}

fn read_opt_rd(c: &mut BitCursor<'_>, present: bool, default: u64) -> (r: Result<u64>)
    requires
        old(c).wf(),
    ensures
        final(c).wf(),
        final(c).data() == old(c).data(),
        spec_outcome(r, final(c).pos(), spec_opt_rd(old(c).data(), old(c).pos(), present, default)),
{
    if present {
        c.read_rd()
    } else {
        Ok(default)
    }
}

fn read_opt_bs(c: &mut BitCursor<'_>, present: bool) -> (r: Result<i16>)
    requires
        old(c).wf(),
    ensures
        final(c).wf(),
        final(c).data() == old(c).data(),
        spec_outcome(r, final(c).pos(), spec_opt_bs(old(c).data(), old(c).pos(), present)),
{
    if present {
        c.read_bs()
    } else {
        Ok(0)
    }
}

/// The placement: flag, elevation, insertion point, alignment point.
pub open spec fn spec_placement(b: Seq<u8>, p: int) -> core::result::Result<((u8, u64, Point2D, Option<Point2D>), int), Error> {
    match spec_read_rc(b, p) {
        Err(e) => Err(e),
        Ok((flag, p1)) => match spec_opt_rd(b, p1, flag & 0x01 != 0, 0) {
            Err(e) => Err(e),
            Ok((elevation, p2)) => match spec_read_rd2(b, p2) {
                Err(e) => Err(e),
                Ok((ins, p3)) => if flag & 0x02 != 0 {
                    match spec_read_rd2(b, p3) {
                        Err(e) => Err(e),
                        Ok((al, p4)) => Ok(((flag, elevation, ins, Some(al)), p4)),
                    }
                } else {
                    Ok(((flag, elevation, ins, None), p3))
                },
            },
        },
    }
}

fn read_placement(c: &mut BitCursor<'_>) -> (r: Result<(u8, u64, Point2D, Option<Point2D>)>)
    requires
        old(c).wf(),
    ensures
        final(c).wf(),
        final(c).data() == old(c).data(),
        spec_outcome(r, final(c).pos(), spec_placement(old(c).data(), old(c).pos())),
{
    let flag = c.read_rc()?;
    let elevation = read_opt_rd(c, flag & 0x01 != 0, 0)?;
    let insertion_point = read_rd2(c)?;
    let alignment_point = if flag & 0x02 != 0 {
        let a = read_rd2(c)?;
        Some(a)
    } else {
        None
    };
    Ok((flag, elevation, insertion_point, alignment_point))
}

/// The shape: extrusion, thickness, oblique, rotation, height, width
/// factor.
pub open spec fn spec_shape(b: Seq<u8>, p: int, flag: u8) -> core::result::Result<((Vec3D, u64, u64, u64, u64, u64), int), Error> {
    match spec_read_be(b, p) {
        Err(e) => Err(e),
        Ok((ext, p1)) => match spec_read_bt(b, p1) {
            Err(e) => Err(e),
            Ok((th, p2)) => match spec_opt_bd(b, p2, flag & 0x04 != 0, 0) {
                Err(e) => Err(e),
                Ok((ob, p3)) => match spec_opt_bd(b, p3, flag & 0x08 != 0, 0) {
                    Err(e) => Err(e),
                    Ok((rot, p4)) => match spec_read_bd(b, p4) {
                        Err(e) => Err(e),
                        Ok((h, p5)) => match spec_opt_bd(b, p5, flag & 0x10 != 0, ONE_BITS) {
                            Err(e) => Err(e),
                            Ok((wf, p6)) => Ok(((ext, th, ob, rot, h, wf), p6)),
                        },
                    },
                },
            },
        },
    }
}

fn read_shape(c: &mut BitCursor<'_>, flag: u8) -> (r: Result<(Vec3D, u64, u64, u64, u64, u64)>)
    requires
        old(c).wf(),
    ensures
        final(c).wf(),
        final(c).data() == old(c).data(),
        spec_outcome(r, final(c).pos(), spec_shape(old(c).data(), old(c).pos(), flag)),
{
    let extrusion = read_be(c)?;
    let thickness = read_bt(c)?;
    let oblique_angle = read_opt_bd(c, flag & 0x04 != 0, 0)?;
    let rotation_angle = read_opt_bd(c, flag & 0x08 != 0, 0)?;
    let height = c.read_bd()?;
    let width_factor = read_opt_bd(c, flag & 0x10 != 0, ONE_BITS)?;
    Ok((extrusion, thickness, oblique_angle, rotation_angle, height, width_factor))
}

/// The three trailing shorts: generation, horizontal and vertical
/// alignment.
pub open spec fn spec_aligns(b: Seq<u8>, p: int, flag: u8) -> core::result::Result<((i16, i16, i16), int), Error> {
    match spec_opt_bs(b, p, flag & 0x20 != 0) {
        Err(e) => Err(e),
        Ok((g, p1)) => match spec_opt_bs(b, p1, flag & 0x40 != 0) {
            Err(e) => Err(e),
            Ok((hz, p2)) => match spec_opt_bs(b, p2, flag & 0x80 != 0) {
                Err(e) => Err(e),
                Ok((vt, p3)) => Ok(((g, hz, vt), p3)),
            },
        },
    }
}

fn read_aligns(c: &mut BitCursor<'_>, flag: u8) -> (r: Result<(i16, i16, i16)>)
    requires
        old(c).wf(),
    ensures
        final(c).wf(),
        final(c).data() == old(c).data(),
        spec_outcome(r, final(c).pos(), spec_aligns(old(c).data(), old(c).pos(), flag)),
{
    let generation = read_opt_bs(c, flag & 0x20 != 0)?;
    let h_align = read_opt_bs(c, flag & 0x40 != 0)?;
    let v_align = read_opt_bs(c, flag & 0x80 != 0)?;
    Ok((generation, h_align, v_align))
}

/// The whole pre-R2007 TEXT payload.
pub open spec fn spec_decode(b: Seq<u8>, p: int, version: Version) -> core::result::Result<(TextView, int), Error> {
    match spec_placement(b, p) {
        Err(e) => Err(e),
        Ok(((flag, elevation, ins, al), p1)) => match spec_shape(b, p1, flag) {
            Err(e) => Err(e),
            Ok(((ext, th, ob, rot, h, wf), p2)) => match spec_read_tv(b, p2, version) {
                Err(e) => Err(e),
                Ok((text, p3)) => match spec_aligns(b, p3, flag) {
                    Err(e) => Err(e),
                    Ok(((g, hz, vt), p4)) => Ok(
                        (
                            TextView {
                                elevation,
                                insertion_point: ins,
                                alignment_point: al,
                                extrusion: ext,
                                thickness: th,
                                oblique_angle: ob,
                                rotation_angle: rot,
                                height: h,
                                width_factor: wf,
                                text,
                                generation: g,
                                h_align: hz,
                                v_align: vt,
                            },
                            p4,
                        ),
                    ),
                },
            },
        },
    }
}

/// Decode a TEXT payload that keeps its string in the data stream.
pub fn decode(c: &mut BitCursor<'_>, version: Version) -> (r: Result<Text>)
    requires
        old(c).wf(),
    ensures
        final(c).wf(),
        final(c).data() == old(c).data(),
        spec_outcome_view(r, final(c).pos(), spec_decode(old(c).data(), old(c).pos(), version)),
{
    let (flag, elevation, insertion_point, alignment_point) = read_placement(c)?;
    let (extrusion, thickness, oblique_angle, rotation_angle, height, width_factor) = read_shape(c, flag)?;
    let text = read_tv(c, version, "TEXT string is not valid UTF-16")?;
    let (generation, h_align, v_align) = read_aligns(c, flag)?;
    Ok(Text {
        elevation,
        insertion_point,
        alignment_point,
        extrusion,
        thickness,
        oblique_angle,
        rotation_angle,
        height,
        width_factor,
        text,
        generation,
        h_align,
        v_align,
    })
}

/// The R2007+ placement: a clear bit reads the field. The alignment
/// point is two `DD`s against the insertion point.
pub open spec fn spec_modern_placement(b: Seq<u8>, p: int) -> core::result::Result<((u8, u64, Point2D, Option<Point2D>), int), Error> {
    match spec_read_rc(b, p) {
        Err(e) => Err(e),
        Ok((flag, p1)) => match spec_opt_rd(b, p1, flag & 0x01 == 0, 0) {
            Err(e) => Err(e),
            Ok((elevation, p2)) => match spec_read_rd2(b, p2) {
                Err(e) => Err(e),
                Ok((ins, p3)) => if flag & 0x02 == 0 {
                    match spec_read_dd(b, p3, ins.x) {
                        Err(e) => Err(e),
                        Ok((ax, p4)) => match spec_read_dd(b, p4, ins.y) {
                            Err(e) => Err(e),
                            Ok((ay, p5)) => Ok(((flag, elevation, ins, Some(Point2D { x: ax, y: ay })), p5)),
                        },
                    }
                } else {
                    Ok(((flag, elevation, ins, None), p3))
                },
            },
        },
    }
}

fn read_modern_placement(c: &mut BitCursor<'_>) -> (r: Result<(u8, u64, Point2D, Option<Point2D>)>)
    requires
        old(c).wf(),
    ensures
        final(c).wf(),
        final(c).data() == old(c).data(),
        spec_outcome(r, final(c).pos(), spec_modern_placement(old(c).data(), old(c).pos())),
{
    let flag = c.read_rc()?;
    let elevation = read_opt_rd(c, flag & 0x01 == 0, 0)?;
    let insertion_point = read_rd2(c)?;
    let alignment_point = if flag & 0x02 == 0 {
        let x = c.read_dd(insertion_point.x)?;
        let y = c.read_dd(insertion_point.y)?;
        Some(Point2D { x, y })
    } else {
        None
    };
    Ok((flag, elevation, insertion_point, alignment_point))
}

/// The R2007+ shape: a clear bit reads the field; the height is an
/// `RD`; the three shorts follow.
pub open spec fn spec_modern_shape(b: Seq<u8>, p: int, flag: u8) -> core::result::Result<((Vec3D, u64, u64, u64, u64, u64), int), Error> {
    match spec_read_be(b, p) {
        Err(e) => Err(e),
        Ok((ext, p1)) => match spec_read_bt(b, p1) {
            Err(e) => Err(e),
            Ok((th, p2)) => match spec_opt_bd(b, p2, flag & 0x04 == 0, 0) {
                Err(e) => Err(e),
                Ok((ob, p3)) => match spec_opt_bd(b, p3, flag & 0x08 == 0, 0) {
                    Err(e) => Err(e),
                    Ok((rot, p4)) => match spec_read_rd(b, p4) {
                        Err(e) => Err(e),
                        Ok((h, p5)) => match spec_opt_bd(b, p5, flag & 0x10 == 0, ONE_BITS) {
                            Err(e) => Err(e),
                            Ok((wf, p6)) => Ok(((ext, th, ob, rot, h, wf), p6)),
                        },
                    },
                },
            },
        },
    }
}

fn read_modern_shape(c: &mut BitCursor<'_>, flag: u8) -> (r: Result<(Vec3D, u64, u64, u64, u64, u64)>)
    requires
        old(c).wf(),
    ensures
        final(c).wf(),
        final(c).data() == old(c).data(),
        spec_outcome(r, final(c).pos(), spec_modern_shape(old(c).data(), old(c).pos(), flag)),
{
    let extrusion = read_be(c)?;
    let thickness = read_bt(c)?;
    let oblique_angle = read_opt_bd(c, flag & 0x04 == 0, 0)?;
    let rotation_angle = read_opt_bd(c, flag & 0x08 == 0, 0)?;
    let height = c.read_rd()?;
    let width_factor = read_opt_bd(c, flag & 0x10 == 0, ONE_BITS)?;
    Ok((extrusion, thickness, oblique_angle, rotation_angle, height, width_factor))
}

/// The inverted shorts of the R2007+ list.
pub open spec fn spec_modern_aligns(b: Seq<u8>, p: int, flag: u8) -> core::result::Result<((i16, i16, i16), int), Error> {
    match spec_opt_bs(b, p, flag & 0x20 == 0) {
        Err(e) => Err(e),
        Ok((g, p1)) => match spec_opt_bs(b, p1, flag & 0x40 == 0) {
            Err(e) => Err(e),
            Ok((hz, p2)) => match spec_opt_bs(b, p2, flag & 0x80 == 0) {
                Err(e) => Err(e),
                Ok((vt, p3)) => Ok(((g, hz, vt), p3)),
            },
        },
    }
}

fn read_modern_aligns(c: &mut BitCursor<'_>, flag: u8) -> (r: Result<(i16, i16, i16)>)
    requires
        old(c).wf(),
    ensures
        final(c).wf(),
        final(c).data() == old(c).data(),
        spec_outcome(r, final(c).pos(), spec_modern_aligns(old(c).data(), old(c).pos(), flag)),
{
    let generation = read_opt_bs(c, flag & 0x20 == 0)?;
    let h_align = read_opt_bs(c, flag & 0x40 == 0)?;
    let v_align = read_opt_bs(c, flag & 0x80 == 0)?;
    Ok((generation, h_align, v_align))
}

/// The R2007+ data-stream fields; the text is left empty.
pub open spec fn spec_modern_fields(b: Seq<u8>, p: int) -> core::result::Result<(TextView, int), Error> {
    match spec_modern_placement(b, p) {
        Err(e) => Err(e),
        Ok(((flag, elevation, ins, al), p1)) => match spec_modern_shape(b, p1, flag) {
            Err(e) => Err(e),
            Ok(((ext, th, ob, rot, h, wf), p2)) => match spec_modern_aligns(b, p2, flag) {
                Err(e) => Err(e),
                Ok(((g, hz, vt), p3)) => Ok(
                    (
                        TextView {
                            elevation,
                            insertion_point: ins,
                            alignment_point: al,
                            extrusion: ext,
                            thickness: th,
                            oblique_angle: ob,
                            rotation_angle: rot,
                            height: h,
                            width_factor: wf,
                            text: Seq::empty(),
                            generation: g,
                            h_align: hz,
                            v_align: vt,
                        },
                        p3,
                    ),
                ),
            },
        },
    }
}

/// Read the R2007+ TEXT fields of the data stream, leaving the text
/// empty for the caller to fill from the string stream. ATTRIB and
/// ATTDEF records open with the same list.
pub fn read_modern_fields(c: &mut BitCursor<'_>) -> (r: Result<Text>)
    requires
        old(c).wf(),
    ensures
        final(c).wf(),
        final(c).data() == old(c).data(),
        spec_outcome_view(r, final(c).pos(), spec_modern_fields(old(c).data(), old(c).pos())),
{
    let (flag, elevation, insertion_point, alignment_point) = read_modern_placement(c)?;
    let (extrusion, thickness, oblique_angle, rotation_angle, height, width_factor) = read_modern_shape(c, flag)?;
    let (generation, h_align, v_align) = read_modern_aligns(c, flag)?;
    Ok(Text {
        elevation,
        insertion_point,
        alignment_point,
        extrusion,
        thickness,
        oblique_angle,
        rotation_angle,
        height,
        width_factor,
        text: String::new(),
        generation,
        h_align,
        v_align,
    })
}

} // verus!
