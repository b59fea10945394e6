//! SWEPTSURFACE entity: a profile swept along a path entity, cached as
//! an ACIS body, with the path's handle and the alignment mode.
//!
//! ```text
//! <SAT blob>
//! H   path_entity
//! BB  align_option       -- 0..3
//! ```
use vstd::prelude::*;

use crate::bitcursor::{spec_read_bb, spec_read_handle, BitCursor, Handle};
use crate::entities::modeler::{decode_sat_blob, spec_decode_sat_blob, SatBlob, SatBlobView};
use crate::entities::{spec_outcome_view, spec_rejected};
use crate::entities::three_d_solid::spec_sat_blob_refusal;
use crate::error::{Error, Result};
use crate::header::concat_text;
use crate::text::{spec_decimal_digits, with_decimal};

verus! {

/// Alignment of the profile to the sweep path.
#[derive(Debug, Clone, Copy, PartialEq, Eq, Structural)]
pub enum AlignOption {
    /// 0: the profile keeps its orientation.
    NoAlignment,
    /// 1: the profile's normal follows the path tangent.
    Normal,
    /// 2: the profile is moved to the path start without rotating.
    Translate,
    /// 3: the profile's Y axis follows the path bank.
    ForcedAlignment,
}

/// The option a `BB` value names, if any.
pub open spec fn spec_align_from_bb(v: u8) -> Option<AlignOption> {
    if v == 0 {
        Some(AlignOption::NoAlignment)
    } else if v == 1 {
        Some(AlignOption::Normal)
    } else if v == 2 {
        Some(AlignOption::Translate)
    } else if v == 3 {
        Some(AlignOption::ForcedAlignment)
    } else {
        None
    }
}

/// The `BB` value of an option.
pub open spec fn spec_align_to_bb(o: AlignOption) -> u8 {
    match o {
        AlignOption::NoAlignment => 0,
        AlignOption::Normal => 1,
        AlignOption::Translate => 2,
        AlignOption::ForcedAlignment => 3,
    }
}

impl AlignOption {
    /// The option for a `BB` value; values past 3 are refused with a
    /// message that names the value.
    pub fn from_bb(v: u8) -> (r: Result<AlignOption>)
        ensures
            match spec_align_from_bb(v) {
                Some(o) => r == Ok::<AlignOption, Error>(o),
                None => r matches Err(Error::SectionMap(m)) && m@ == "SWEPTSURFACE alignment option "@
                    + spec_decimal_digits(v as nat) + " not in 0..=3"@,
            },
    {
        match v {
            0 => Ok(AlignOption::NoAlignment),
            1 => Ok(AlignOption::Normal),
            2 => Ok(AlignOption::Translate),
            3 => Ok(AlignOption::ForcedAlignment),
            _ => {
                let head = with_decimal("SWEPTSURFACE alignment option ", v as u64);
                Err(Error::SectionMap(concat_text(head.as_str(), " not in 0..=3")))
            },
        }
    }

    /// The `BB` value of the option.
    pub fn to_bb(self) -> (v: u8)
        ensures
            v == spec_align_to_bb(self),
    {
        match self {
            AlignOption::NoAlignment => 0,
            AlignOption::Normal => 1,
            AlignOption::Translate => 2,
            AlignOption::ForcedAlignment => 3,
        }
    }
}

/// `from_bb` undoes `to_bb`, and `to_bb` undoes `from_bb` on every value
/// it accepts.
pub proof fn lemma_align_roundtrip(o: AlignOption, v: u8)
    ensures
        spec_align_from_bb(spec_align_to_bb(o)) == Some(o),
        spec_align_from_bb(v) matches Some(x) ==> spec_align_to_bb(x) == v,
        spec_align_from_bb(v) is Some <==> v <= 3,
{
}

#[derive(Debug, Clone, PartialEq, Eq)]
pub struct SweptSurface {
    /// Opaque ACIS SAT body; may be empty.
    pub sat: SatBlob,
    /// Raw handle reference to the path entity.
    pub path_handle: Handle,
    /// Profile-to-path alignment mode.
    pub align_option: AlignOption,
}

/// [`SweptSurface`] by the view of its blob.
pub struct SweptSurfaceView {
    pub sat: SatBlobView,
    pub path_handle: Handle,
    pub align_option: AlignOption,
}

impl View for SweptSurface {
    type V = SweptSurfaceView;

    open spec fn view(&self) -> SweptSurfaceView {
        SweptSurfaceView { sat: self.sat@, path_handle: self.path_handle, align_option: self.align_option }
    }
}

/// The blob, the path handle, the alignment `BB`.
pub open spec fn spec_decode(b: Seq<u8>, p: int) -> core::result::Result<(SweptSurfaceView, int), Error> {
    match spec_decode_sat_blob(b, p) {
        Err(e) => Err(e),
        Ok((sat, p1)) => match spec_read_handle(b, p1) {
            Err(e) => Err(e),
            Ok((path_handle, p2)) => match spec_read_bb(b, p2) {
                Err(e) => Err(e),
                Ok((v, p3)) => match spec_align_from_bb(v) {
                    None => Err(spec_rejected()),
                    Some(align_option) => Ok((SweptSurfaceView { sat, path_handle, align_option }, p3)),
                },
            },
        },
    }
}

/// Decode a SWEPTSURFACE payload.
pub fn decode(c: &mut BitCursor<'_>) -> (r: Result<SweptSurface>)
    requires
        old(c).wf(),
    ensures
        final(c).wf(),
        final(c).data() == old(c).data(),
        spec_outcome_view(r, final(c).pos(), spec_decode(old(c).data(), old(c).pos())),
        spec_sat_blob_refusal(old(c).data(), old(c).pos()) matches Some(t) ==> (r matches Err(
            Error::SectionMap(m),
        ) && m@ == t),
{
    let sat = decode_sat_blob(c)?;
    let path_handle = c.read_handle()?;
    let bb = c.read_bb()?;
    let align_option = AlignOption::from_bb(bb)?;
    Ok(SweptSurface { sat, path_handle, align_option })
}

} // verus!
