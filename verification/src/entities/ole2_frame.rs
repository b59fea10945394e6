//! OLE2FRAME entity: an embedded OLE 2 object (a spreadsheet, a
//! document) carried as an opaque compound-document blob.
//!
//! ```text
//! BS    ole_version
//! BL    data_length
//! RC[]  data            -- data_length bytes
//! BS    oleobject_type
//! RC    mode
//! ```
use vstd::prelude::*;

use crate::bitcursor::{spec_read_bl, spec_read_bs, spec_read_rc, BitCursor};
use crate::entities::{read_rc_vec, spec_outcome_view, spec_read_rc_seq, spec_rejected};
use crate::error::{Error, Result};
use crate::header::concat_text;
use crate::text::{push_signed_decimal, spec_decimal_digits, spec_signed_decimal, with_decimal};

verus! {

/// Decoded OLE2FRAME payload.
#[derive(Debug, Clone, PartialEq, Eq)]
pub struct Ole2Frame {
    pub ole_version: i16,
    /// Raw OLE 2 Compound Document bytes. Opaque at this layer.
    pub data: Vec<u8>,
    pub oleobject_type: i16,
    pub mode: u8,
}

/// [`Ole2Frame`] with its bytes as a sequence.
pub struct Ole2FrameView {
    pub ole_version: i16,
    pub data: Seq<u8>,
    pub oleobject_type: i16,
    pub mode: u8,
}

impl View for Ole2Frame {
    type V = Ole2FrameView;

    open spec fn view(&self) -> Ole2FrameView {
        Ole2FrameView {
            ole_version: self.ole_version,
            data: self.data@,
            oleobject_type: self.oleobject_type,
            mode: self.mode,
        }
    }
}

/// 16 MiB cap on the embedded OLE blob.
pub const OLE2FRAME_MAX_DATA_BYTES: usize = 16777216;

/// The record, with a data length that is negative, over the cap, or
/// past the end of the buffer refused.
pub open spec fn spec_decode(b: Seq<u8>, p: int) -> core::result::Result<(Ole2FrameView, int), Error> {
    match spec_read_bs(b, p) {
        Err(e) => Err(e),
        Ok((ole_version, p1)) => match spec_read_bl(b, p1) {
            Err(e) => Err(e),
            Ok((len, p2)) => if len < 0 || len > OLE2FRAME_MAX_DATA_BYTES || len * 8 > b.len() * 8
                - p2 {
                Err(spec_rejected())
            } else {
                match spec_read_rc_seq(b, p2, len as nat) {
                    Err(e) => Err(e),
                    Ok((data, p3)) => match spec_read_bs(b, p3) {
                        Err(e) => Err(e),
                        Ok((oleobject_type, p4)) => match spec_read_rc(b, p4) {
                            Err(e) => Err(e),
                            Ok((mode, p5)) => Ok(
                                (Ole2FrameView { ole_version, data, oleobject_type, mode }, p5),
                            ),
                        },
                    },
                }
            },
        },
    }
}

/// The message of the refusal of a data length, when the record is
/// refused for it: it names the length, and the cap or the bits left
/// that it exceeds.
pub open spec fn spec_refusal_text(b: Seq<u8>, p: int) -> Option<Seq<char>> {
    match spec_read_bs(b, p) {
        Err(_) => None,
        Ok((_, p1)) => match spec_read_bl(b, p1) {
            Err(_) => None,
            Ok((len, p2)) => if len < 0 {
                Some("OLE2FRAME negative data_length "@ + spec_signed_decimal(len as int))
            } else if len > OLE2FRAME_MAX_DATA_BYTES {
                Some(
                    "OLE2FRAME data_length "@ + spec_decimal_digits(len as nat) + " exceeds cap "@
                        + spec_decimal_digits(OLE2FRAME_MAX_DATA_BYTES as nat),
                )
            } else if len * 8 > b.len() * 8 - p2 {
                Some(
                    "OLE2FRAME data_length "@ + spec_decimal_digits(len as nat)
                        + " exceeds remaining_bits "@ + spec_decimal_digits((b.len() * 8 - p2) as nat),
                )
            } else {
                None
            },
        },
    }
}

/// Decode an OLE2FRAME payload.
pub fn decode(c: &mut BitCursor<'_>) -> (r: Result<Ole2Frame>)
    requires
        old(c).wf(),
    ensures
        final(c).wf(),
        final(c).data() == old(c).data(),
        spec_outcome_view(r, final(c).pos(), spec_decode(old(c).data(), old(c).pos())),
        spec_refusal_text(old(c).data(), old(c).pos()) matches Some(t) ==> (r matches Err(
            Error::SectionMap(m),
        ) && m@ == t),
{
    let ole_version = c.read_bs()?;
    let data_length_signed = c.read_bl()?;
    if data_length_signed < 0 {
        let mut m = "OLE2FRAME negative data_length ".to_string();
        push_signed_decimal(&mut m, data_length_signed as i64);
        return Err(Error::SectionMap(m));
    }
    let data_length = data_length_signed as usize;
    if data_length > OLE2FRAME_MAX_DATA_BYTES {
        let m = with_decimal("OLE2FRAME data_length ", data_length as u64);
        let tail = with_decimal(" exceeds cap ", OLE2FRAME_MAX_DATA_BYTES as u64);
        return Err(Error::SectionMap(concat_text(m.as_str(), tail.as_str())));
    }
    let remaining = c.remaining_bits();
    if data_length * 8 > remaining {
        let m = with_decimal("OLE2FRAME data_length ", data_length as u64);
        let tail = with_decimal(" exceeds remaining_bits ", remaining as u64);
        return Err(Error::SectionMap(concat_text(m.as_str(), tail.as_str())));
    }
    let data = read_rc_vec(c, data_length)?;
    let oleobject_type = c.read_bs()?;
    let mode = c.read_rc()?;
    Ok(Ole2Frame { ole_version, data, oleobject_type, mode })
}

} // verus!
