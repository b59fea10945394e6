//! VIEWPORT entity, partly: the centre, width and height a renderer
//! needs. The rest of the record is left unread; the cursor stops
//! after these fields.
use vstd::prelude::*;

use crate::bitcursor::{spec_read_bd, BitCursor};
use crate::entities::{read_bd3, spec_outcome, spec_read_bd3, Point3D};
use crate::error::{Error, Result};

verus! {

/// Decoded VIEWPORT prefix; doubles are bit patterns.
#[derive(Debug, Clone, Copy, PartialEq, Eq, Structural)]
pub struct Viewport {
    pub center: Point3D,
    pub width: u64,
    pub height: u64,
}

/// Marks the VIEWPORT fields this decoder does not read.
#[derive(Debug, Clone, Copy, Default)]
pub struct ViewportSkipped;

/// `3BD center, BD width, BD height`.
pub open spec fn spec_decode(b: Seq<u8>, p: int) -> core::result::Result<(Viewport, int), Error> {
    match spec_read_bd3(b, p) {
        Err(e) => Err(e),
        Ok((center, p1)) => match spec_read_bd(b, p1) {
            Err(e) => Err(e),
            Ok((width, p2)) => match spec_read_bd(b, p2) {
                Err(e) => Err(e),
                Ok((height, p3)) => Ok((Viewport { center, width, height }, p3)),
            },
        },
    }
}

/// Decode the VIEWPORT prefix.
pub fn decode(c: &mut BitCursor<'_>) -> (r: Result<Viewport>)
    requires
        old(c).wf(),
    ensures
        final(c).wf(),
        final(c).data() == old(c).data(),
        spec_outcome(r, final(c).pos(), spec_decode(old(c).data(), old(c).pos())),
{
    let center = read_bd3(c)?;
    let width = c.read_bd()?;
    let height = c.read_bd()?;
    Ok(Viewport { center, width, height })
}

} // verus!
