//! REGION entity: a 2D ACIS region (a planar bounded face). It shares
//! one record shape with 3DSOLID and BODY; see
//! [`crate::entities::three_d_solid`] for the envelope and
//! [`crate::entities::modeler`] for the rest of the record.
use vstd::prelude::*;

use crate::bitcursor::BitCursor;
use crate::entities::modeler::{self, spec_decode_record, ModelerTail, ModelerTailView};
use crate::entities::spec_outcome_view;
use crate::entities::three_d_solid::{read_sat_blob, spec_read_sat_blob};
use crate::entities::three_d_solid::spec_sat_blob_refusal;
use crate::error::{Error, Result};
use crate::version::Version;

verus! {

/// REGION entity; the fields mean what they mean on a 3DSOLID.
#[derive(Debug, Clone, PartialEq, Eq)]
pub struct Region {
    /// The entity was written with no inline body.
    pub acis_empty: bool,
    /// ACIS format version; `None` when `acis_empty`.
    pub version: Option<u16>,
    /// Concatenated SAT payload bytes; `None` when `acis_empty`.
    pub sat_blob: Option<Vec<u8>>,
    /// The SAB stream lives in the data-storage section.
    pub in_data_store: bool,
    /// The record tail; `None` from the envelope-only [`decode`].
    pub tail: Option<ModelerTail>,
}

/// [`Region`] with its blob as a sequence.
pub struct RegionView {
    pub acis_empty: bool,
    pub version: Option<u16>,
    pub sat_blob: Option<Seq<u8>>,
    pub in_data_store: bool,
    pub tail: Option<ModelerTailView>,
}

impl View for Region {
    type V = RegionView;

    open spec fn view(&self) -> RegionView {
        RegionView {
            acis_empty: self.acis_empty,
            version: self.version,
            sat_blob: match self.sat_blob {
                Some(v) => Some(v@),
                None => None,
            },
            in_data_store: self.in_data_store,
            tail: match self.tail {
                Some(t) => Some(t@),
                None => None,
            },
        }
    }
}

/// The envelope alone, as a REGION with no tail.
pub open spec fn spec_decode(b: Seq<u8>, p: int) -> core::result::Result<(RegionView, int), Error> {
    match spec_read_sat_blob(b, p) {
        Err(e) => Err(e),
        Ok(((empty, version, blob), p1)) => Ok(
            (
                RegionView {
                    acis_empty: empty,
                    version,
                    sat_blob: blob,
                    in_data_store: false,
                    tail: None,
                },
                p1,
            ),
        ),
    }
}

/// Decode a REGION envelope.
pub fn decode(c: &mut BitCursor<'_>) -> (r: Result<Region>)
    requires
        old(c).wf(),
    ensures
        final(c).wf(),
        final(c).data() == old(c).data(),
        spec_outcome_view(r, final(c).pos(), spec_decode(old(c).data(), old(c).pos())),
        spec_sat_blob_refusal(old(c).data(), old(c).pos()) matches Some(t) ==> (r matches Err(
            Error::SectionMap(m),
        ) && m@ == t),
{
    let (acis_empty, version, sat_blob) = read_sat_blob(c)?;
    Ok(Region { acis_empty, version, sat_blob, in_data_store: false, tail: None })
}

/// The whole record, as a REGION: version and blob only when the
/// envelope is not empty.
pub open spec fn spec_decode_record_region(b: Seq<u8>, p: int, version: Version, in_data_store: bool) -> core::result::Result<(RegionView, int), Error> {
    match spec_decode_record(b, p, version, in_data_store) {
        Err(e) => Err(e),
        Ok((rec, p1)) => Ok(
            (
                RegionView {
                    acis_empty: rec.blob.empty,
                    version: if rec.blob.empty {
                        None
                    } else {
                        Some(rec.blob.version)
                    },
                    sat_blob: if rec.blob.empty {
                        None
                    } else {
                        Some(rec.blob.bytes)
                    },
                    in_data_store: rec.in_data_store,
                    tail: Some(rec.tail),
                },
                p1,
            ),
        ),
    }
}

/// Decode a whole REGION record, envelope and tail.
pub fn decode_record(c: &mut BitCursor<'_>, version: Version, in_data_store: bool) -> (r: Result<Region>)
    requires
        old(c).wf(),
    ensures
        final(c).wf(),
        final(c).data() == old(c).data(),
        spec_outcome_view(r, final(c).pos(), spec_decode_record_region(old(c).data(), old(c).pos(), version, in_data_store)),
        modeler::spec_record_refusal(old(c).data(), old(c).pos(), in_data_store) matches Some(t) ==> (r matches Err(
            Error::SectionMap(m),
        ) && m@ == t),
{
    let record = modeler::decode_record(c, version, in_data_store)?;
    let empty = record.blob.empty;
    Ok(Region {
        acis_empty: empty,
        version: if empty {
            None
        } else {
            Some(record.blob.version)
        },
        sat_blob: if empty {
            None
        } else {
            Some(record.blob.bytes)
        },
        in_data_store: record.in_data_store,
        tail: Some(record.tail),
    })
}

} // verus!
