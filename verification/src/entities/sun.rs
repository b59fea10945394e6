//! SUN entity: the sun light of a drawing's render settings (R2007+).
use vstd::prelude::*;

use crate::bitcursor::{spec_read_b, spec_read_bd, spec_read_bl_u, spec_read_bs, BitCursor};
use crate::entities::{spec_outcome, spec_unsupported};
use crate::error::{Error, Result};
use crate::version::Version;

verus! {

/// Decoded SUN entity.
#[derive(Debug, Clone, Copy, PartialEq, Eq, Structural)]
pub struct Sun {
    pub version: u32,
    pub status: bool,
    pub sun_color_index: i16,
    /// Bit pattern of the intensity.
    pub intensity: u64,
    pub has_shadow: bool,
    pub julian_day: u32,
    pub time_of_day: u32,
    pub daylight_savings: bool,
    pub shadow_type_map_flag: bool,
    pub shadow_softness_flag: bool,
    pub shadow_map_size_flag: bool,
    pub shadow_softness_samples: i16,
}

/// The four shadow fields that close the record.
pub open spec fn spec_shadow_tail(b: Seq<u8>, p: int) -> core::result::Result<((bool, bool, bool, i16), int), Error> {
    match spec_read_b(b, p) {
        Err(e) => Err(e),
        Ok((type_map, p1)) => match spec_read_b(b, p1) {
            Err(e) => Err(e),
            Ok((softness, p2)) => match spec_read_b(b, p2) {
                Err(e) => Err(e),
                Ok((map_size, p3)) => match spec_read_bs(b, p3) {
                    Err(e) => Err(e),
                    Ok((samples, p4)) => Ok(((type_map, softness, map_size, samples), p4)),
                },
            },
        },
    }
}

/// `BL version, B status, BS colour, BD intensity, B shadow, BL day,
/// BL time, B daylight savings`, then the shadow tail; R2007+ only.
pub open spec fn spec_decode(b: Seq<u8>, p: int, version: Version) -> core::result::Result<(Sun, int), Error> {
    if !version.spec_is_r2007_plus() {
        Err(spec_unsupported())
    } else {
        match spec_read_bl_u(b, p) {
            Err(e) => Err(e),
            Ok((v, p1)) => match spec_read_b(b, p1) {
                Err(e) => Err(e),
                Ok((status, p2)) => match spec_read_bs(b, p2) {
                    Err(e) => Err(e),
                    Ok((color, p3)) => match spec_read_bd(b, p3) {
                        Err(e) => Err(e),
                        Ok((intensity, p4)) => match spec_read_b(b, p4) {
                            Err(e) => Err(e),
                            Ok((has_shadow, p5)) => match spec_read_bl_u(b, p5) {
                                Err(e) => Err(e),
                                Ok((day, p6)) => match spec_read_bl_u(b, p6) {
                                    Err(e) => Err(e),
                                    Ok((time, p7)) => match spec_read_b(b, p7) {
                                        Err(e) => Err(e),
                                        Ok((dst, p8)) => match spec_shadow_tail(b, p8) {
                                            Err(e) => Err(e),
                                            Ok(((tm, sf, ms, samples), p9)) => Ok(
                                                (
                                                    Sun {
                                                        version: v,
                                                        status,
                                                        sun_color_index: color,
                                                        intensity,
                                                        has_shadow,
                                                        julian_day: day,
                                                        time_of_day: time,
                                                        daylight_savings: dst,
                                                        shadow_type_map_flag: tm,
                                                        shadow_softness_flag: sf,
                                                        shadow_map_size_flag: ms,
                                                        shadow_softness_samples: samples,
                                                    },
                                                    p9,
                                                ),
                                            ),
                                        },
                                    },
                                },
                            },
                        },
                    },
                },
            },
        }
    }
}

fn decode_shadow_tail(c: &mut BitCursor<'_>) -> (r: Result<(bool, bool, bool, i16)>)
    requires
        old(c).wf(),
    ensures
        final(c).wf(),
        final(c).data() == old(c).data(),
        spec_outcome(r, final(c).pos(), spec_shadow_tail(old(c).data(), old(c).pos())),
{
    let type_map = c.read_b()?;
    let softness = c.read_b()?;
    let map_size = c.read_b()?;
    let samples = c.read_bs()?;
    Ok((type_map, softness, map_size, samples))
}

/// Decode a SUN payload; releases before R2007 are refused, as
/// `Unsupported` with the feature `SUN requires R2007+`.
pub fn decode(c: &mut BitCursor<'_>, version: Version) -> (r: Result<Sun>)
    requires
        old(c).wf(),
    ensures
        final(c).wf(),
        final(c).data() == old(c).data(),
        spec_outcome(r, final(c).pos(), spec_decode(old(c).data(), old(c).pos(), version)),
        !version.spec_is_r2007_plus() ==> (r matches Err(Error::Unsupported { feature }) && feature@
            == "SUN requires R2007+"@),
{
    if !version.is_r2007_plus() {
        return Err(Error::Unsupported { feature: "SUN requires R2007+".to_string() });
    }
    let version_field = c.read_bl_u()?;
    let status = c.read_b()?;
    let sun_color_index = c.read_bs()?;
    let intensity = c.read_bd()?;
    let has_shadow = c.read_b()?;
    let julian_day = c.read_bl_u()?;
    let time_of_day = c.read_bl_u()?;
    let daylight_savings = c.read_b()?;
    let (shadow_type_map_flag, shadow_softness_flag, shadow_map_size_flag, shadow_softness_samples) =
        decode_shadow_tail(c)?;
    Ok(Sun {
        version: version_field,
        status,
        sun_color_index,
        intensity,
        has_shadow,
        julian_day,
        time_of_day,
        daylight_savings,
        shadow_type_map_flag,
        shadow_softness_flag,
        shadow_map_size_flag,
        shadow_softness_samples,
    })
}

} // verus!
