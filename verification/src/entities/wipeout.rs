//! WIPEOUT entity: a mask that hides what lies beneath it in the
//! background colour. Its record is the IMAGE record field for field.
use vstd::prelude::*;

use crate::bitcursor::BitCursor;
use crate::entities::image::{self, spec_decode, Image};
use crate::entities::spec_outcome_view;
use crate::error::Result;
use crate::version::Version;

verus! {

/// Decoded WIPEOUT payload: the IMAGE record.
pub type Wipeout = Image;

/// Decode a WIPEOUT payload from a cursor past the common entity
/// preamble.
pub fn decode(c: &mut BitCursor<'_>, version: Version) -> (r: Result<Wipeout>)
    requires
        old(c).wf(),
    ensures
        final(c).wf(),
        final(c).data() == old(c).data(),
        spec_outcome_view(r, final(c).pos(), spec_decode(old(c).data(), old(c).pos(), version)),
{
    image::decode(c, version)
}

} // verus!
