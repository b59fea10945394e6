//! POLYLINE_2D and POLYLINE_3D entity headers: the legacy polylines
//! whose vertices are separate VERTEX records.
use vstd::prelude::*;

use crate::bitcursor::{spec_read_bd, spec_read_bl, spec_read_bs, spec_read_bs_u, spec_read_rc, BitCursor};
use crate::entities::{read_be, read_bt, spec_outcome, spec_read_be, spec_read_bt, Vec3D};
use crate::error::{Error, Result};
use crate::version::Version;

verus! {

/// POLYLINE_3D: two flag bytes and, from R2004, the owned-object count.
#[derive(Debug, Clone, Copy, PartialEq, Eq)]
pub struct Polyline3d {
    /// The two flag bytes, kept verbatim.
    pub flags: [u8; 2],
    /// R2004+ owned-object count; `None` before R2004.
    pub num_owned_objects: Option<u32>,
}

/// `RC flags_1, RC flags_2`, and from R2004 `BL owned`.
pub open spec fn spec_decode_3d(b: Seq<u8>, p: int, version: Version) -> core::result::Result<(Polyline3d, int), Error> {
    match spec_read_rc(b, p) {
        Err(e) => Err(e),
        Ok((f1, p1)) => match spec_read_rc(b, p1) {
            Err(e) => Err(e),
            Ok((f2, p2)) => if version.spec_is_r2004_plus() {
                match spec_read_bl(b, p2) {
                    Err(e) => Err(e),
                    Ok((n, p3)) => Ok(
                        (Polyline3d { flags: [f1, f2], num_owned_objects: Some(n as u32) }, p3),
                    ),
                }
            } else {
                Ok((Polyline3d { flags: [f1, f2], num_owned_objects: None }, p2))
            },
        },
    }
}

/// Decode a POLYLINE_3D header.
pub fn decode_3d(c: &mut BitCursor<'_>, version: Version) -> (r: Result<Polyline3d>)
    requires
        old(c).wf(),
    ensures
        final(c).wf(),
        final(c).data() == old(c).data(),
        spec_outcome(r, final(c).pos(), spec_decode_3d(old(c).data(), old(c).pos(), version)),
{
    let f1 = c.read_rc()?;
    let f2 = c.read_rc()?;
    let num_owned_objects = if version.is_r2004_plus() {
        let n = c.read_bl()?;
        Some(n as u32)
    } else {
        None
    };
    Ok(Polyline3d { flags: [f1, f2], num_owned_objects })
}

/// POLYLINE_2D header; doubles are bit patterns.
#[derive(Debug, Clone, Copy, PartialEq, Eq, Structural)]
pub struct Polyline {
    pub flag: u16,
    pub curve_type: i16,
    pub default_start_width: u64,
    pub default_end_width: u64,
    pub thickness: u64,
    pub elevation: u64,
    pub extrusion: Vec3D,
}

impl Polyline {
    /// Bit 0x01 of `flag`: the polyline is closed.
    pub fn is_closed(&self) -> (b: bool)
        ensures
            b == (self.flag & 0x01 != 0),
    {
        self.flag & 0x01 != 0
    }

    /// Bit 0x08 of `flag`: the polyline is a 3D polyline.
    pub fn is_3d(&self) -> (b: bool)
        ensures
            b == (self.flag & 0x08 != 0),
    {
        self.flag & 0x08 != 0
    }

    /// Bit 0x40 of `flag`: the polyline is a polyface mesh.
    pub fn is_polyface(&self) -> (b: bool)
        ensures
            b == (self.flag & 0x40 != 0),
    {
        self.flag & 0x40 != 0
    }
}

/// `BS flag, BS curve type, BD start width, BD end width, BT
/// thickness, BD elevation, BE extrusion`.
pub open spec fn spec_decode(b: Seq<u8>, p: int) -> core::result::Result<(Polyline, int), Error> {
    match spec_read_bs_u(b, p) {
        Err(e) => Err(e),
        Ok((flag, p1)) => match spec_read_bs(b, p1) {
            Err(e) => Err(e),
            Ok((curve_type, p2)) => match spec_read_bd(b, p2) {
                Err(e) => Err(e),
                Ok((sw, p3)) => match spec_read_bd(b, p3) {
                    Err(e) => Err(e),
                    Ok((ew, p4)) => match spec_read_bt(b, p4) {
                        Err(e) => Err(e),
                        Ok((thickness, p5)) => match spec_read_bd(b, p5) {
                            Err(e) => Err(e),
                            Ok((elevation, p6)) => match spec_read_be(b, p6) {
                                Err(e) => Err(e),
                                Ok((extrusion, p7)) => Ok(
                                    (
                                        Polyline {
                                            flag,
                                            curve_type,
                                            default_start_width: sw,
                                            default_end_width: ew,
                                            thickness,
                                            elevation,
                                            extrusion,
                                        },
                                        p7,
                                    ),
                                ),
                            },
                        },
                    },
                },
            },
        },
    }
}

/// Decode a POLYLINE_2D header.
pub fn decode(c: &mut BitCursor<'_>) -> (r: Result<Polyline>)
    requires
        old(c).wf(),
    ensures
        final(c).wf(),
        final(c).data() == old(c).data(),
        spec_outcome(r, final(c).pos(), spec_decode(old(c).data(), old(c).pos())),
{
    let flag = c.read_bs_u()?;
    let curve_type = c.read_bs()?;
    let default_start_width = c.read_bd()?;
    let default_end_width = c.read_bd()?;
    let thickness = read_bt(c)?;
    let elevation = c.read_bd()?;
    let extrusion = read_be(c)?;
    Ok(Polyline {
        flag,
        curve_type,
        default_start_width,
        default_end_width,
        thickness,
        elevation,
        extrusion,
    })
}

} // verus!
