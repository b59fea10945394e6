//! XLINE entity: an infinite line through a point, extending both ways
//! along a direction.
use vstd::prelude::*;

use crate::bitcursor::BitCursor;
use crate::bitwriter::{lemma_holds_at_concat, spec_holds_at};
use crate::entities::{lemma_read_bd3_of, read_bd3, spec_enc_bd3, spec_outcome, spec_read_bd3, Point3D, Vec3D};
use crate::error::{Error, Result};

verus! {

#[derive(Debug, Clone, Copy, PartialEq, Eq, Structural)]
pub struct XLine {
    pub point: Point3D,
    pub direction: Vec3D,
}

/// `3BD point`, `3BD direction`.
pub open spec fn spec_decode(b: Seq<u8>, p: int) -> core::result::Result<(XLine, int), Error> {
    match spec_read_bd3(b, p) {
        Err(e) => Err(e),
        Ok((point, p1)) => match spec_read_bd3(b, p1) {
            Err(e) => Err(e),
            Ok((direction, p2)) => Ok((XLine { point, direction }, p2)),
        },
    }
}

/// The bits a writer emits for an XLINE.
pub open spec fn spec_encode(x: XLine) -> Seq<bool> {
    spec_enc_bd3(x.point) + spec_enc_bd3(x.direction)
}

/// Decoding what was written for an XLINE gives it back, and stops
/// right after it.
pub proof fn lemma_roundtrip(b: Seq<u8>, p: int, x: XLine)
    requires
        spec_holds_at(b, p, spec_encode(x)),
    ensures
        spec_decode(b, p) == Ok::<(XLine, int), Error>((x, p + spec_encode(x).len())),
{
    lemma_holds_at_concat(b, p, spec_enc_bd3(x.point), spec_enc_bd3(x.direction));
    lemma_read_bd3_of(b, p, x.point);
    lemma_read_bd3_of(b, p + spec_enc_bd3(x.point).len(), x.direction);
}

pub fn decode(c: &mut BitCursor<'_>) -> (r: Result<XLine>)
    requires
        old(c).wf(),
    ensures
        final(c).wf(),
        final(c).data() == old(c).data(),
        spec_outcome(r, final(c).pos(), spec_decode(old(c).data(), old(c).pos())),
{
    let point = read_bd3(c)?;
    let direction = read_bd3(c)?;
    Ok(XLine { point, direction })
}

} // verus!
