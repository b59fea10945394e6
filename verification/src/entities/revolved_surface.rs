//! REVOLVEDSURFACE entity: a 2D profile rotated about an axis by a
//! signed sweep angle, cached as an ACIS body.
//!
//! ```text
//! <SAT blob>
//! BD3 axis_origin
//! BD3 axis_direction
//! BD  sweep_angle         -- radians
//! ```
use vstd::prelude::*;

use crate::bitcursor::{spec_read_bd, BitCursor};
use crate::entities::modeler::{decode_sat_blob, spec_decode_sat_blob, SatBlob, SatBlobView};
use crate::entities::{read_bd3, spec_outcome_view, spec_read_bd3, Point3D, Vec3D};
use crate::entities::three_d_solid::spec_sat_blob_refusal;
use crate::error::{Error, Result};

verus! {

#[derive(Debug, Clone, PartialEq, Eq)]
pub struct RevolvedSurface {
    /// Opaque ACIS SAT body; may be empty.
    pub sat: SatBlob,
    /// A world-space point on the axis of revolution.
    pub axis_origin: Point3D,
    /// Axis direction in WCS.
    pub axis_direction: Vec3D,
    /// Bit pattern of the signed sweep angle in radians.
    pub sweep_angle: u64,
}

/// [`RevolvedSurface`] by the view of its blob.
pub struct RevolvedSurfaceView {
    pub sat: SatBlobView,
    pub axis_origin: Point3D,
    pub axis_direction: Vec3D,
    pub sweep_angle: u64,
}

impl View for RevolvedSurface {
    type V = RevolvedSurfaceView;

    open spec fn view(&self) -> RevolvedSurfaceView {
        RevolvedSurfaceView {
            sat: self.sat@,
            axis_origin: self.axis_origin,
            axis_direction: self.axis_direction,
            sweep_angle: self.sweep_angle,
        }
    }
}

/// The blob, the axis origin and direction, the sweep angle.
pub open spec fn spec_decode(b: Seq<u8>, p: int) -> core::result::Result<(RevolvedSurfaceView, int), Error> {
    match spec_decode_sat_blob(b, p) {
        Err(e) => Err(e),
        Ok((sat, p1)) => match spec_read_bd3(b, p1) {
            Err(e) => Err(e),
            Ok((axis_origin, p2)) => match spec_read_bd3(b, p2) {
                Err(e) => Err(e),
                Ok((axis_direction, p3)) => match spec_read_bd(b, p3) {
                    Err(e) => Err(e),
                    Ok((sweep_angle, p4)) => Ok(
                        (RevolvedSurfaceView { sat, axis_origin, axis_direction, sweep_angle }, p4),
                    ),
                },
            },
        },
    }
}

/// Decode a REVOLVEDSURFACE payload.
pub fn decode(c: &mut BitCursor<'_>) -> (r: Result<RevolvedSurface>)
    requires
        old(c).wf(),
    ensures
        final(c).wf(),
        final(c).data() == old(c).data(),
        spec_outcome_view(r, final(c).pos(), spec_decode(old(c).data(), old(c).pos())),
        spec_sat_blob_refusal(old(c).data(), old(c).pos()) matches Some(t) ==> (r matches Err(
            Error::SectionMap(m),
        ) && m@ == t),
{
    let sat = decode_sat_blob(c)?;
    let axis_origin = read_bd3(c)?;
    let axis_direction = read_bd3(c)?;
    let sweep_angle = c.read_bd()?;
    Ok(RevolvedSurface { sat, axis_origin, axis_direction, sweep_angle })
}

} // verus!
