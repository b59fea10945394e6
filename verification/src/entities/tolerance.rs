//! TOLERANCE entity: a geometric-tolerance frame (feature control
//! frame) with its text and the DIMSTYLE it follows.
use vstd::prelude::*;

use crate::bitcursor::{spec_read_bd, spec_read_bs, spec_read_handle, BitCursor, Handle};
use crate::entities::{read_bd3, read_tv, spec_outcome_view, spec_read_bd3, spec_read_tv, Point3D, Vec3D};
use crate::error::{Error, Result};
use crate::version::Version;

verus! {

/// Decoded TOLERANCE payload; doubles are bit patterns.
#[derive(Debug, Clone, PartialEq, Eq)]
pub struct Tolerance {
    /// Reserved short, R2007+ only; zero before.
    pub unknown_short: i16,
    pub height: u64,
    pub dimgap: u64,
    pub insertion_point: Point3D,
    pub x_axis_direction: Vec3D,
    pub extrusion: Vec3D,
    pub text_string: String,
    /// Handle to the governing DIMSTYLE table entry.
    pub dimstyle_handle: Handle,
}

/// [`Tolerance`] with its text as characters.
pub struct ToleranceView {
    pub unknown_short: i16,
    pub height: u64,
    pub dimgap: u64,
    pub insertion_point: Point3D,
    pub x_axis_direction: Vec3D,
    pub extrusion: Vec3D,
    pub text_string: Seq<char>,
    pub dimstyle_handle: Handle,
}

impl View for Tolerance {
    type V = ToleranceView;

    open spec fn view(&self) -> ToleranceView {
        ToleranceView {
            unknown_short: self.unknown_short,
            height: self.height,
            dimgap: self.dimgap,
            insertion_point: self.insertion_point,
            x_axis_direction: self.x_axis_direction,
            extrusion: self.extrusion,
            text_string: self.text_string@,
            dimstyle_handle: self.dimstyle_handle,
        }
    }
}

/// The three vectors: insertion point, X axis, extrusion.
pub open spec fn spec_frame(b: Seq<u8>, p: int) -> core::result::Result<((Point3D, Vec3D, Vec3D), int), Error> {
    match spec_read_bd3(b, p) {
        Err(e) => Err(e),
        Ok((ins, p1)) => match spec_read_bd3(b, p1) {
            Err(e) => Err(e),
            Ok((x, p2)) => match spec_read_bd3(b, p2) {
                Err(e) => Err(e),
                Ok((ext, p3)) => Ok(((ins, x, ext), p3)),
            },
        },
    }
}

/// From R2007 `BS unknown`; then `BD height, BD dimgap`, the frame,
/// `TV text`, `H dimstyle`.
pub open spec fn spec_decode(b: Seq<u8>, p: int, version: Version) -> core::result::Result<(ToleranceView, int), Error> {
    let head = if version.spec_is_r2007_plus() {
        spec_read_bs(b, p)
    } else {
        Ok((0i16, p))
    };
    match head {
        Err(e) => Err(e),
        Ok((unknown_short, p1)) => match spec_read_bd(b, p1) {
            Err(e) => Err(e),
            Ok((height, p2)) => match spec_read_bd(b, p2) {
                Err(e) => Err(e),
                Ok((dimgap, p3)) => match spec_frame(b, p3) {
                    Err(e) => Err(e),
                    Ok(((ins, x, ext), p4)) => match spec_read_tv(b, p4, version) {
                        Err(e) => Err(e),
                        Ok((text, p5)) => match spec_read_handle(b, p5) {
                            Err(e) => Err(e),
                            Ok((h, p6)) => Ok(
                                (
                                    ToleranceView {
                                        unknown_short,
                                        height,
                                        dimgap,
                                        insertion_point: ins,
                                        x_axis_direction: x,
                                        extrusion: ext,
                                        text_string: text,
                                        dimstyle_handle: h,
                                    },
                                    p6,
                                ),
                            ),
                        },
                    },
                },
            },
        },
    }
}

/// Decode a TOLERANCE payload.
pub fn decode(c: &mut BitCursor<'_>, version: Version) -> (r: Result<Tolerance>)
    requires
        old(c).wf(),
    ensures
        final(c).wf(),
        final(c).data() == old(c).data(),
        spec_outcome_view(r, final(c).pos(), spec_decode(old(c).data(), old(c).pos(), version)),
{
    let unknown_short = if version.is_r2007_plus() {
        c.read_bs()?
    } else {
        0
    };
    let height = c.read_bd()?;
    let dimgap = c.read_bd()?;
    let insertion_point = read_bd3(c)?;
    let x_axis_direction = read_bd3(c)?;
    let extrusion = read_bd3(c)?;
    let text_string = read_tv(c, version, "TOLERANCE text is not valid UTF-16")?;
    let dimstyle_handle = c.read_handle()?;
    Ok(Tolerance {
        unknown_short,
        height,
        dimgap,
        insertion_point,
        x_axis_direction,
        extrusion,
        text_string,
        dimstyle_handle,
    })
}

} // verus!
