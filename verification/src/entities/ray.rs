//! RAY entity: a half-line from a start point along a direction.
use vstd::prelude::*;

use crate::bitcursor::BitCursor;
use crate::entities::{read_bd3, spec_outcome, spec_read_bd3, Point3D, Vec3D};
use crate::error::{Error, Result};

verus! {

#[derive(Debug, Clone, Copy, PartialEq, Eq, Structural)]
pub struct Ray {
    pub start: Point3D,
    pub direction: Vec3D,
}

/// `3BD start`, `3BD direction`.
pub open spec fn spec_decode(b: Seq<u8>, p: int) -> core::result::Result<(Ray, int), Error> {
    match spec_read_bd3(b, p) {
        Err(e) => Err(e),
        Ok((start, p1)) => match spec_read_bd3(b, p1) {
            Err(e) => Err(e),
            Ok((direction, p2)) => Ok((Ray { start, direction }, p2)),
        },
    }
}

/// Decode a RAY payload.
pub fn decode(c: &mut BitCursor<'_>) -> (r: Result<Ray>)
    requires
        old(c).wf(),
    ensures
        final(c).wf(),
        final(c).data() == old(c).data(),
        spec_outcome(r, final(c).pos(), spec_decode(old(c).data(), old(c).pos())),
{
    let start = read_bd3(c)?;
    let direction = read_bd3(c)?;
    Ok(Ray { start, direction })
}

} // verus!
