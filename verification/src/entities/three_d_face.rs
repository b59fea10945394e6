//! 3DFACE entity: a face of three or four corners.
//!
//! ```text
//! B    has_no_flag_ind         -- when set, no invisible-edge mask follows
//! B    z_is_zero               -- when set, the first corner's z is not stored
//! RD   corner_1.x
//! RD   corner_1.y
//! RD   corner_1.z              -- only when z_is_zero is clear
//! 3DD  corner_2                -- defaults to corner_1
//! 3DD  corner_3                -- defaults to corner_2
//! 3DD  corner_4                -- defaults to corner_3
//! BS   invisible_edges         -- only when has_no_flag_ind is clear
//! ```
use vstd::prelude::*;

use crate::bitcursor::{spec_read_b, spec_read_bs_u, spec_read_dd, spec_read_rd, BitCursor};
use crate::entities::{spec_outcome, Point3D};
use crate::error::{Error, Result};

verus! {

/// Decoded 3DFACE; doubles are bit patterns.
#[derive(Debug, Clone, Copy, PartialEq)]
pub struct ThreeDFace {
    pub corners: [Point3D; 4],
    pub invisible_edges: u16,
    pub is_triangle: bool,
}

/// The bit pattern is a NaN: every exponent bit set and a non-zero
/// fraction.
pub open spec fn spec_is_nan(x: u64) -> bool {
    (x / 0x10_0000_0000_0000) % 0x800 == 0x7FF && x % 0x10_0000_0000_0000 != 0
}

/// IEEE-754 equality of the doubles two bit patterns stand for: a NaN
/// equals nothing, the two zeros equal each other, and otherwise equal
/// doubles have equal patterns.
pub open spec fn spec_double_eq(a: u64, b: u64) -> bool {
    if spec_is_nan(a) || spec_is_nan(b) {
        false
    } else if a % 0x8000_0000_0000_0000 == 0 && b % 0x8000_0000_0000_0000 == 0 {
        true
    } else {
        a == b
    }
}

/// Two points are equal as doubles, coordinate by coordinate.
pub open spec fn spec_point_eq(a: Point3D, b: Point3D) -> bool {
    spec_double_eq(a.x, b.x) && spec_double_eq(a.y, b.y) && spec_double_eq(a.z, b.z)
}

/// A `3DD`: three `DD`s defaulting componentwise to `d`.
pub open spec fn spec_read_dd3(b: Seq<u8>, p: int, d: Point3D) -> core::result::Result<(Point3D, int), Error> {
    match spec_read_dd(b, p, d.x) {
        Err(e) => Err(e),
        Ok((x, p1)) => match spec_read_dd(b, p1, d.y) {
            Err(e) => Err(e),
            Ok((y, p2)) => match spec_read_dd(b, p2, d.z) {
                Err(e) => Err(e),
                Ok((z, p3)) => Ok((Point3D { x, y, z }, p3)),
            },
        },
    }
}

/// The two flag bits and the first corner, whose z is zero unless
/// stored.
pub open spec fn spec_read_head(b: Seq<u8>, p: int) -> core::result::Result<((bool, Point3D), int), Error> {
    match spec_read_b(b, p) {
        Err(e) => Err(e),
        Ok((has_no_flag, p1)) => match spec_read_b(b, p1) {
            Err(e) => Err(e),
            Ok((z_is_zero, p2)) => match spec_read_rd(b, p2) {
                Err(e) => Err(e),
                Ok((x, p3)) => match spec_read_rd(b, p3) {
                    Err(e) => Err(e),
                    Ok((y, p4)) => if z_is_zero {
                        Ok(((has_no_flag, Point3D { x, y, z: 0 }), p4))
                    } else {
                        match spec_read_rd(b, p4) {
                            Err(e) => Err(e),
                            Ok((z, p5)) => Ok(((has_no_flag, Point3D { x, y, z }), p5)),
                        }
                    },
                },
            },
        },
    }
}

/// The four corners, each later one defaulting to the one before, then
/// the invisible-edge mask when the flag asks for it; a face whose
/// fourth corner equals its third is a triangle.
pub open spec fn spec_decode(b: Seq<u8>, p: int) -> core::result::Result<(ThreeDFace, int), Error> {
    match spec_read_head(b, p) {
        Err(e) => Err(e),
        Ok(((has_no_flag, c1), p1)) => match spec_read_dd3(b, p1, c1) {
            Err(e) => Err(e),
            Ok((c2, p2)) => match spec_read_dd3(b, p2, c2) {
                Err(e) => Err(e),
                Ok((c3, p3)) => match spec_read_dd3(b, p3, c3) {
                    Err(e) => Err(e),
                    Ok((c4, p4)) => {
                        let face = |m: u16| ThreeDFace {
                            corners: [c1, c2, c3, c4],
                            invisible_edges: m,
                            is_triangle: spec_point_eq(c4, c3),
                        };
                        if has_no_flag {
                            Ok((face(0), p4))
                        } else {
                            match spec_read_bs_u(b, p4) {
                                Err(e) => Err(e),
                                Ok((m, p5)) => Ok((face(m), p5)),
                            }
                        }
                    },
                },
            },
        },
    }
}

fn is_nan(x: u64) -> (r: bool)
    ensures
        r == spec_is_nan(x),
{
    (x / 0x10_0000_0000_0000) % 0x800 == 0x7FF && x % 0x10_0000_0000_0000 != 0
}

fn double_eq(a: u64, b: u64) -> (r: bool)
    ensures
        r == spec_double_eq(a, b),
{
    if is_nan(a) || is_nan(b) {
        false
    } else if a % 0x8000_0000_0000_0000 == 0 && b % 0x8000_0000_0000_0000 == 0 {
        true
    } else {
        a == b
    }
}

/// Read a `3DD` against the default point `d`.
fn read_dd3(c: &mut BitCursor<'_>, d: Point3D) -> (r: Result<Point3D>)
    requires
        old(c).wf(),
    ensures
        final(c).wf(),
        final(c).data() == old(c).data(),
        spec_outcome(r, final(c).pos(), spec_read_dd3(old(c).data(), old(c).pos(), d)),
{
    let x = c.read_dd(d.x)?;
    let y = c.read_dd(d.y)?;
    let z = c.read_dd(d.z)?;
    Ok(Point3D { x, y, z })
}

fn read_head(c: &mut BitCursor<'_>) -> (r: Result<(bool, Point3D)>)
    requires
        old(c).wf(),
    ensures
        final(c).wf(),
        final(c).data() == old(c).data(),
        spec_outcome(r, final(c).pos(), spec_read_head(old(c).data(), old(c).pos())),
{
    let has_no_flag = c.read_b()?;
    let z_is_zero = c.read_b()?;
    let x = c.read_rd()?;
    let y = c.read_rd()?;
    let z = if z_is_zero { 0 } else { c.read_rd()? };
    Ok((has_no_flag, Point3D { x, y, z }))
}

/// Decode a 3DFACE payload.
pub fn decode(c: &mut BitCursor<'_>) -> (r: Result<ThreeDFace>)
    requires
        old(c).wf(),
    ensures
        final(c).wf(),
        final(c).data() == old(c).data(),
        spec_outcome(r, final(c).pos(), spec_decode(old(c).data(), old(c).pos())),
{
    let (has_no_flag, c1) = read_head(c)?;
    let c2 = read_dd3(c, c1)?;
    let c3 = read_dd3(c, c2)?;
    let c4 = read_dd3(c, c3)?;
    let invisible_edges = if has_no_flag { 0u16 } else { c.read_bs_u()? };
    let is_triangle = double_eq(c4.x, c3.x) && double_eq(c4.y, c3.y) && double_eq(c4.z, c3.z);
    Ok(ThreeDFace { corners: [c1, c2, c3, c4], invisible_edges, is_triangle })
}

} // verus!
