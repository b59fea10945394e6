//! SOLID entity: a filled triangle or quadrilateral (a triangle
//! repeats its third corner).
//!
//! ```text
//! BT  thickness
//! BD  elevation          -- z shared by all four corners
//! RD  x, RD y            -- × 4 corners
//! BE  extrusion
//! ```
use vstd::prelude::*;

use crate::bitcursor::{spec_read_bd, BitCursor};
use crate::entities::{read_be, read_bt, read_rd2, spec_outcome, spec_read_be, spec_read_bt, spec_read_rd2, Point2D, Vec3D};
use crate::error::{Error, Result};

verus! {

/// Decoded SOLID; doubles are bit patterns.
#[derive(Debug, Clone, Copy, PartialEq, Eq)]
pub struct Solid {
    pub thickness: u64,
    pub elevation: u64,
    pub corners: [Point2D; 4],
    pub extrusion: Vec3D,
}

/// The four corners, each `2RD`.
pub open spec fn spec_corners(b: Seq<u8>, p: int) -> core::result::Result<((Point2D, Point2D, Point2D, Point2D), int), Error> {
    match spec_read_rd2(b, p) {
        Err(e) => Err(e),
        Ok((a, p1)) => match spec_read_rd2(b, p1) {
            Err(e) => Err(e),
            Ok((bb, p2)) => match spec_read_rd2(b, p2) {
                Err(e) => Err(e),
                Ok((cc, p3)) => match spec_read_rd2(b, p3) {
                    Err(e) => Err(e),
                    Ok((d, p4)) => Ok(((a, bb, cc, d), p4)),
                },
            },
        },
    }
}

/// Thickness, elevation, corners, extrusion.
pub open spec fn spec_decode(b: Seq<u8>, p: int) -> core::result::Result<(Solid, int), Error> {
    match spec_read_bt(b, p) {
        Err(e) => Err(e),
        Ok((thickness, p1)) => match spec_read_bd(b, p1) {
            Err(e) => Err(e),
            Ok((elevation, p2)) => match spec_corners(b, p2) {
                Err(e) => Err(e),
                Ok(((c0, c1, c2, c3), p3)) => match spec_read_be(b, p3) {
                    Err(e) => Err(e),
                    Ok((extrusion, p4)) => Ok(
                        (Solid { thickness, elevation, corners: [c0, c1, c2, c3], extrusion }, p4),
                    ),
                },
            },
        },
    }
}

fn read_corners(c: &mut BitCursor<'_>) -> (r: Result<(Point2D, Point2D, Point2D, Point2D)>)
    requires
        old(c).wf(),
    ensures
        final(c).wf(),
        final(c).data() == old(c).data(),
        spec_outcome(r, final(c).pos(), spec_corners(old(c).data(), old(c).pos())),
{
    let a = read_rd2(c)?;
    let b = read_rd2(c)?;
    let d = read_rd2(c)?;
    let e = read_rd2(c)?;
    Ok((a, b, d, e))
}

/// Decode a SOLID payload.
pub fn decode(c: &mut BitCursor<'_>) -> (r: Result<Solid>)
    requires
        old(c).wf(),
    ensures
        final(c).wf(),
        final(c).data() == old(c).data(),
        spec_outcome(r, final(c).pos(), spec_decode(old(c).data(), old(c).pos())),
{
    let thickness = read_bt(c)?;
    let elevation = c.read_bd()?;
    let (c0, c1, c2, c3) = read_corners(c)?;
    let extrusion = read_be(c)?;
    Ok(Solid { thickness, elevation, corners: [c0, c1, c2, c3], extrusion })
}

} // verus!
