//! POLYLINE_MESH entity header: an M x N grid of mesh vertices whose
//! sub-entities are separate records.
use vstd::prelude::*;

use crate::bitcursor::{spec_read_bs_u, BitCursor};
use crate::entities::spec_outcome;
use crate::error::{Error, Result};

verus! {

/// Mesh is closed in the M direction.
pub const CLOSED_M: u16 = 0x0001;

/// Mesh is closed in the N direction.
pub const CLOSED_N: u16 = 0x0002;

#[derive(Debug, Clone, Copy, PartialEq, Eq, Structural)]
pub struct PolygonMesh {
    pub flags: u16,
    /// Approximation density, M direction (display only).
    pub m_density: u16,
    /// Approximation density, N direction (display only).
    pub n_density: u16,
    /// Grid dimension along the M axis.
    pub m_vert_count: u16,
    /// Grid dimension along the N axis.
    pub n_vert_count: u16,
}

impl PolygonMesh {
    /// Is the mesh closed in the M direction? (Flag bit 0.)
    pub fn is_closed_m(&self) -> (b: bool)
        ensures
            b == (self.flags & CLOSED_M != 0),
    {
        self.flags & CLOSED_M != 0
    }

    /// Is the mesh closed in the N direction? (Flag bit 1.)
    pub fn is_closed_n(&self) -> (b: bool)
        ensures
            b == (self.flags & CLOSED_N != 0),
    {
        self.flags & CLOSED_N != 0
    }
}

/// Five `BS`: flags, the two densities, the two grid dimensions.
pub open spec fn spec_decode(b: Seq<u8>, p: int) -> core::result::Result<(PolygonMesh, int), Error> {
    match spec_read_bs_u(b, p) {
        Err(e) => Err(e),
        Ok((flags, p1)) => match spec_read_bs_u(b, p1) {
            Err(e) => Err(e),
            Ok((m_density, p2)) => match spec_read_bs_u(b, p2) {
                Err(e) => Err(e),
                Ok((n_density, p3)) => match spec_read_bs_u(b, p3) {
                    Err(e) => Err(e),
                    Ok((m_vert_count, p4)) => match spec_read_bs_u(b, p4) {
                        Err(e) => Err(e),
                        Ok((n_vert_count, p5)) => Ok(
                            (
                                PolygonMesh {
                                    flags,
                                    m_density,
                                    n_density,
                                    m_vert_count,
                                    n_vert_count,
                                },
                                p5,
                            ),
                        ),
                    },
                },
            },
        },
    }
}

/// Decode a POLYLINE_MESH header.
pub fn decode(c: &mut BitCursor<'_>) -> (r: Result<PolygonMesh>)
    requires
        old(c).wf(),
    ensures
        final(c).wf(),
        final(c).data() == old(c).data(),
        spec_outcome(r, final(c).pos(), spec_decode(old(c).data(), old(c).pos())),
{
    let flags = c.read_bs_u()?;
    let m_density = c.read_bs_u()?;
    let n_density = c.read_bs_u()?;
    let m_vert_count = c.read_bs_u()?;
    let n_vert_count = c.read_bs_u()?;
    Ok(PolygonMesh { flags, m_density, n_density, m_vert_count, n_vert_count })
}

} // verus!
