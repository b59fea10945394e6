//! POLYLINE_PFACE entity header: the vertex and face counts of a
//! polyface mesh, whose sub-entities are separate records.
use vstd::prelude::*;

use crate::bitcursor::{spec_read_bl, spec_read_bs_u, BitCursor};
use crate::entities::spec_outcome;
use crate::error::{Error, Result};
use crate::version::Version;

verus! {

#[derive(Debug, Clone, Copy, PartialEq, Eq, Structural)]
pub struct PolyfaceMesh {
    /// Number of `VERTEX_PFACE` sub-entities the mesh owns.
    pub vertex_count: u16,
    /// Number of `VERTEX_PFACE_FACE` sub-entities the mesh owns.
    pub face_count: u16,
    /// R2004+ owned-object count; `None` before R2004.
    pub num_owned_objects: Option<u32>,
}

/// `BS vertex_count, BS face_count`, and from R2004 `BL owned`.
pub open spec fn spec_decode_record(b: Seq<u8>, p: int, version: Version) -> core::result::Result<(PolyfaceMesh, int), Error> {
    match spec_read_bs_u(b, p) {
        Err(e) => Err(e),
        Ok((vertex_count, p1)) => match spec_read_bs_u(b, p1) {
            Err(e) => Err(e),
            Ok((face_count, p2)) => if version.spec_is_r2004_plus() {
                match spec_read_bl(b, p2) {
                    Err(e) => Err(e),
                    Ok((n, p3)) => Ok(
                        (
                            PolyfaceMesh {
                                vertex_count,
                                face_count,
                                num_owned_objects: Some(n as u32),
                            },
                            p3,
                        ),
                    ),
                }
            } else {
                Ok((PolyfaceMesh { vertex_count, face_count, num_owned_objects: None }, p2))
            },
        },
    }
}

/// Decode a POLYLINE_PFACE header.
pub fn decode_record(c: &mut BitCursor<'_>, version: Version) -> (r: Result<PolyfaceMesh>)
    requires
        old(c).wf(),
    ensures
        final(c).wf(),
        final(c).data() == old(c).data(),
        spec_outcome(r, final(c).pos(), spec_decode_record(old(c).data(), old(c).pos(), version)),
{
    let vertex_count = c.read_bs_u()?;
    let face_count = c.read_bs_u()?;
    let num_owned_objects = if version.is_r2004_plus() {
        let n = c.read_bl()?;
        Some(n as u32)
    } else {
        None
    };
    Ok(PolyfaceMesh { vertex_count, face_count, num_owned_objects })
}

} // verus!
