//! VERTEX entities: the single vertices of the legacy POLYLINE
//! (2D, 3D, mesh and polyface variants) and the polyface face record.
use vstd::prelude::*;

use crate::bitcursor::{spec_read_bd, spec_read_bl, spec_read_bs, spec_read_rc, BitCursor};
use crate::entities::{read_bd3, spec_outcome, spec_read_bd3, Point3D};
use crate::error::{Error, Result};
use crate::version::Version;

verus! {

/// VERTEX_2D; doubles are bit patterns.
#[derive(Debug, Clone, Copy, PartialEq, Eq, Structural)]
pub struct Vertex {
    pub flag: u8,
    pub location: Point3D,
    pub start_width: u64,
    pub end_width: u64,
    pub bulge: u64,
    /// R2010+ only.
    pub vertex_id: Option<u32>,
    /// Present when flag bit 0x02 is set.
    pub tangent_direction: Option<u64>,
}

/// The optional tail of a VERTEX_2D: the R2010+ id and, when flag bit
/// 0x02 is set, the tangent direction.
pub open spec fn spec_vertex_tail(b: Seq<u8>, p: int, version: Version, flag: u8) -> core::result::Result<((Option<u32>, Option<u64>), int), Error> {
    let id = if version.spec_is_r2010_plus() {
        match spec_read_bl(b, p) {
            Err(e) => Err(e),
            Ok((v, p1)) => Ok((Some(v as u32), p1)),
        }
    } else {
        Ok((None::<u32>, p))
    };
    match id {
        Err(e) => Err(e),
        Ok((vertex_id, p1)) => if flag & 0x02 != 0 {
            match spec_read_bd(b, p1) {
                Err(e) => Err(e),
                Ok((t, p2)) => Ok(((vertex_id, Some(t)), p2)),
            }
        } else {
            Ok(((vertex_id, None), p1))
        },
    }
}

/// `RC flag, 3BD location, BD start width, BD end width, BD bulge`,
/// then the tail.
pub open spec fn spec_decode(b: Seq<u8>, p: int, version: Version) -> core::result::Result<(Vertex, int), Error> {
    match spec_read_rc(b, p) {
        Err(e) => Err(e),
        Ok((flag, p1)) => match spec_read_bd3(b, p1) {
            Err(e) => Err(e),
            Ok((location, p2)) => match spec_read_bd(b, p2) {
                Err(e) => Err(e),
                Ok((start_width, p3)) => match spec_read_bd(b, p3) {
                    Err(e) => Err(e),
                    Ok((end_width, p4)) => match spec_read_bd(b, p4) {
                        Err(e) => Err(e),
                        Ok((bulge, p5)) => match spec_vertex_tail(b, p5, version, flag) {
                            Err(e) => Err(e),
                            Ok(((vertex_id, tangent_direction), p6)) => Ok(
                                (
                                    Vertex {
                                        flag,
                                        location,
                                        start_width,
                                        end_width,
                                        bulge,
                                        vertex_id,
                                        tangent_direction,
                                    },
                                    p6,
                                ),
                            ),
                        },
                    },
                },
            },
        },
    }
}

fn decode_tail(c: &mut BitCursor<'_>, version: Version, flag: u8) -> (r: Result<(Option<u32>, Option<u64>)>)
    requires
        old(c).wf(),
    ensures
        final(c).wf(),
        final(c).data() == old(c).data(),
        spec_outcome(r, final(c).pos(), spec_vertex_tail(old(c).data(), old(c).pos(), version, flag)),
{
    let vertex_id = if version.is_r2010_plus() {
        let v = c.read_bl()?;
        Some(v as u32)
    } else {
        None
    };
    let tangent_direction = if flag & 0x02 != 0 {
        let t = c.read_bd()?;
        Some(t)
    } else {
        None
    };
    Ok((vertex_id, tangent_direction))
}

/// Decode a VERTEX_2D payload.
pub fn decode(c: &mut BitCursor<'_>, version: Version) -> (r: Result<Vertex>)
    requires
        old(c).wf(),
    ensures
        final(c).wf(),
        final(c).data() == old(c).data(),
        spec_outcome(r, final(c).pos(), spec_decode(old(c).data(), old(c).pos(), version)),
{
    let flag = c.read_rc()?;
    let location = read_bd3(c)?;
    let start_width = c.read_bd()?;
    let end_width = c.read_bd()?;
    let bulge = c.read_bd()?;
    let (vertex_id, tangent_direction) = decode_tail(c, version, flag)?;
    Ok(Vertex { flag, location, start_width, end_width, bulge, vertex_id, tangent_direction })
}

/// VERTEX_3D, VERTEX_MESH and VERTEX_PFACE: a flag byte and a point.
#[derive(Debug, Clone, Copy, PartialEq, Eq, Structural)]
pub struct VertexPoint {
    /// Flag byte, same bit meanings as [`Vertex::flag`].
    pub flag: u8,
    /// Vertex location in the owning polyline's coordinate system.
    pub location: Point3D,
}

/// `RC flag, 3BD location`.
pub open spec fn spec_decode_point(b: Seq<u8>, p: int) -> core::result::Result<(VertexPoint, int), Error> {
    match spec_read_rc(b, p) {
        Err(e) => Err(e),
        Ok((flag, p1)) => match spec_read_bd3(b, p1) {
            Err(e) => Err(e),
            Ok((location, p2)) => Ok((VertexPoint { flag, location }, p2)),
        },
    }
}

/// Decode a VERTEX_3D / VERTEX_MESH / VERTEX_PFACE record.
pub fn decode_point(c: &mut BitCursor<'_>) -> (r: Result<VertexPoint>)
    requires
        old(c).wf(),
    ensures
        final(c).wf(),
        final(c).data() == old(c).data(),
        spec_outcome(r, final(c).pos(), spec_decode_point(old(c).data(), old(c).pos())),
{
    let flag = c.read_rc()?;
    let location = read_bd3(c)?;
    Ok(VertexPoint { flag, location })
}

/// VERTEX_PFACE_FACE: four 1-based vertex indices; a negative index
/// marks an invisible edge, a zero one a face with fewer corners.
#[derive(Debug, Clone, Copy, PartialEq, Eq)]
pub struct VertexPfaceFace {
    /// The four corner indices, in face order.
    pub vertex_indices: [i16; 4],
}

/// Four `BS`.
pub open spec fn spec_decode_pface_face(b: Seq<u8>, p: int) -> core::result::Result<(VertexPfaceFace, int), Error> {
    match spec_read_bs(b, p) {
        Err(e) => Err(e),
        Ok((i0, p1)) => match spec_read_bs(b, p1) {
            Err(e) => Err(e),
            Ok((i1, p2)) => match spec_read_bs(b, p2) {
                Err(e) => Err(e),
                Ok((i2, p3)) => match spec_read_bs(b, p3) {
                    Err(e) => Err(e),
                    Ok((i3, p4)) => Ok((VertexPfaceFace { vertex_indices: [i0, i1, i2, i3] }, p4)),
                },
            },
        },
    }
}

/// Decode a VERTEX_PFACE_FACE record.
pub fn decode_pface_face(c: &mut BitCursor<'_>) -> (r: Result<VertexPfaceFace>)
    requires
        old(c).wf(),
    ensures
        final(c).wf(),
        final(c).data() == old(c).data(),
        spec_outcome(r, final(c).pos(), spec_decode_pface_face(old(c).data(), old(c).pos())),
{
    let i0 = c.read_bs()?;
    let i1 = c.read_bs()?;
    let i2 = c.read_bs()?;
    let i3 = c.read_bs()?;
    Ok(VertexPfaceFace { vertex_indices: [i0, i1, i2, i3] })
}

} // verus!
