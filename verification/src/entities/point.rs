//! POINT entity.
//!
//! ```text
//! BD  x, BD y, BD z
//! BT  thickness
//! BE  extrusion
//! BD  x-axis-angle      -- radians
//! ```
use vstd::prelude::*;

use crate::bitcursor::{spec_read_bd, BitCursor};
use crate::entities::{read_be, read_bt, read_bd3, spec_outcome, spec_read_bd3, spec_read_be, spec_read_bt, Point3D, Vec3D};
use crate::error::{Error, Result};

verus! {

/// Decoded POINT; doubles are bit patterns.
#[derive(Debug, Clone, Copy, PartialEq, Eq, Structural)]
pub struct Point {
    pub position: Point3D,
    pub thickness: u64,
    pub extrusion: Vec3D,
    pub x_axis_angle: u64,
}

/// Position, thickness, extrusion, angle.
pub open spec fn spec_decode(b: Seq<u8>, p: int) -> core::result::Result<(Point, int), Error> {
    match spec_read_bd3(b, p) {
        Err(e) => Err(e),
        Ok((position, p1)) => match spec_read_bt(b, p1) {
            Err(e) => Err(e),
            Ok((thickness, p2)) => match spec_read_be(b, p2) {
                Err(e) => Err(e),
                Ok((extrusion, p3)) => match spec_read_bd(b, p3) {
                    Err(e) => Err(e),
                    Ok((x_axis_angle, p4)) => Ok((Point { position, thickness, extrusion, x_axis_angle }, p4)),
                },
            },
        },
    }
}

/// Decode a POINT payload.
pub fn decode(c: &mut BitCursor<'_>) -> (r: Result<Point>)
    requires
        old(c).wf(),
    ensures
        final(c).wf(),
        final(c).data() == old(c).data(),
        spec_outcome(r, final(c).pos(), spec_decode(old(c).data(), old(c).pos())),
{
    let position = read_bd3(c)?;
    let thickness = read_bt(c)?;
    let extrusion = read_be(c)?;
    let x_axis_angle = c.read_bd()?;
    Ok(Point { position, thickness, extrusion, x_axis_angle })
}

} // verus!
