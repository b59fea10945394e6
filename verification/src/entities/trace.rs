//! TRACE entity: the same stream as SOLID, kept under its own name.
use vstd::prelude::*;

use crate::bitcursor::BitCursor;
use crate::entities::solid::{self, Solid};
use crate::entities::spec_outcome;
use crate::error::{Error, Result};

verus! {

#[derive(Debug, Clone, Copy, PartialEq, Eq)]
pub struct Trace(pub Solid);

/// A SOLID, wrapped.
pub open spec fn spec_decode(b: Seq<u8>, p: int) -> core::result::Result<(Trace, int), Error> {
    match solid::spec_decode(b, p) {
        Err(e) => Err(e),
        Ok((s, p1)) => Ok((Trace(s), p1)),
    }
}

/// Decode a SOLID payload, as SOLID.
pub fn decode_as_solid(c: &mut BitCursor<'_>) -> (r: Result<Solid>)
    requires
        old(c).wf(),
    ensures
        final(c).wf(),
        final(c).data() == old(c).data(),
        spec_outcome(r, final(c).pos(), solid::spec_decode(old(c).data(), old(c).pos())),
{
    solid::decode(c)
}

/// Decode a TRACE payload.
pub fn decode(c: &mut BitCursor<'_>) -> (r: Result<Trace>)
    requires
        old(c).wf(),
    ensures
        final(c).wf(),
        final(c).data() == old(c).data(),
        spec_outcome(r, final(c).pos(), spec_decode(old(c).data(), old(c).pos())),
{
    let s = decode_as_solid(c)?;
    Ok(Trace(s))
}

} // verus!
