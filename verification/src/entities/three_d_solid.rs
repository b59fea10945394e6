//! 3DSOLID entity: an ACIS-modelled solid body. REGION, 3DSOLID and
//! BODY share one record shape; this module owns the ACIS envelope
//! (the empty bit, the version and the length-prefixed block loop)
//! and [`crate::entities::modeler`] the rest of the record.
//!
//! ```text
//! B   ACIS empty                  -- true: no data follows
//! (if !ACIS empty:)
//!   B   unknown
//!   BS  version                   -- 1 or 2
//!   repeat until block size is 0:
//!     BL  block size
//!     RC  data[block size]
//! ```
//!
//! A version-2 envelope may instead hold a raw ACIS file with no
//! length field, which cannot be stepped without an ACIS parser: a
//! version-2 envelope whose bytes do not read as length-prefixed
//! blocks is refused, as is any version other than 1 and 2, and the
//! refusal names the version.
use vstd::prelude::*;

use crate::bitcursor::{spec_read_b, spec_read_bl, spec_read_bs_u, spec_read_rc, BitCursor};
use crate::entities::modeler::{self, spec_decode_record, ModelerRecord, ModelerRecordView, ModelerTail, ModelerTailView};
use crate::entities::{read_rc_vec, spec_outcome_view, spec_read_rc_seq, spec_rejected};
use crate::error::{Error, Result};
use crate::text::{push_decimal, push_signed_decimal, spec_decimal_digits, spec_signed_decimal, with_decimal};
use crate::header::concat_text;
use crate::version::Version;

verus! {

/// Maximum accumulated SAT blob size across all blocks (32 MiB).
pub const MAX_SAT_BLOB_BYTES: usize = 33554432;

/// 3DSOLID entity.
#[derive(Debug, Clone, PartialEq, Eq)]
pub struct ThreeDSolid {
    /// The entity was written with no inline body.
    pub acis_empty: bool,
    /// ACIS format version; `None` when `acis_empty`.
    pub version: Option<u16>,
    /// Concatenated SAT payload bytes; `None` when `acis_empty`.
    pub sat_blob: Option<Vec<u8>>,
    /// The SAB stream lives in the data-storage section.
    pub in_data_store: bool,
    /// The record tail; `None` from the envelope-only [`decode`].
    pub tail: Option<ModelerTail>,
}

/// [`ThreeDSolid`] with its blob as a sequence.
pub struct ThreeDSolidView {
    pub acis_empty: bool,
    pub version: Option<u16>,
    pub sat_blob: Option<Seq<u8>>,
    pub in_data_store: bool,
    pub tail: Option<ModelerTailView>,
}

impl View for ThreeDSolid {
    type V = ThreeDSolidView;

    open spec fn view(&self) -> ThreeDSolidView {
        ThreeDSolidView {
            acis_empty: self.acis_empty,
            version: self.version,
            sat_blob: match self.sat_blob {
                Some(v) => Some(v@),
                None => None,
            },
            in_data_store: self.in_data_store,
            tail: match self.tail {
                Some(t) => Some(t@),
                None => None,
            },
        }
    }
}

/// A successful read ends after its start and inside the buffer.
pub proof fn lemma_bl_advances(b: Seq<u8>, p: int)
    requires
        spec_read_bl(b, p) is Ok,
    ensures
        p + 2 <= spec_read_bl(b, p)->Ok_0.1 <= b.len() * 8,
{
}

/// A run of `n` bytes that reads ends `8 * n` bits on.
pub proof fn lemma_rc_seq_advances(b: Seq<u8>, p: int, n: nat)
    requires
        spec_read_rc_seq(b, p, n) is Ok,
    ensures
        spec_read_rc_seq(b, p, n)->Ok_0.1 == p + 8 * n,
        spec_read_rc_seq(b, p, n)->Ok_0.0.len() == n,
        n > 0 ==> spec_read_rc_seq(b, p, n)->Ok_0.1 <= b.len() * 8,
    decreases n,
{
    if n > 0 {
        lemma_rc_seq_advances(b, p, (n - 1) as nat);
    }
}

/// The version-1 block loop from `p`, appending to `acc`: each block
/// size that is negative, larger than the whole bytes left, or that
/// would take the blob past the cap is refused; a zero size ends it.
#[verifier::opaque]
pub open spec fn spec_read_sat_blocks_from(b: Seq<u8>, p: int, acc: Seq<u8>) -> core::result::Result<(Seq<u8>, int), Error>
    decreases b.len() * 8 - p,
{
    match spec_read_bl(b, p) {
        Err(e) => Err(e),
        Ok((size, p1)) => if size == 0 {
            Ok((acc, p1))
        } else if size < 0 {
            Err(spec_rejected())
        } else if size > (b.len() * 8 - p1) / 8 {
            Err(spec_rejected())
        } else if acc.len() + size > MAX_SAT_BLOB_BYTES {
            Err(spec_rejected())
        } else {
            match spec_read_rc_seq(b, p1, size as nat) {
                Err(e) => Err(e),
                Ok((data, p2)) => {
                    proof {
                        lemma_bl_advances(b, p);
                        lemma_rc_seq_advances(b, p1, size as nat);
                    }
                    spec_read_sat_blocks_from(b, p2, acc + data)
                },
            }
        },
    }
}

/// The message of the refusal that ends the block loop from `p` with
/// `acc` read so far, if one does: a negative size, a size over the
/// bytes left, or a size that takes the blob past the cap, each named
/// with its numbers.
#[verifier::opaque]
pub open spec fn spec_sat_blocks_refusal(b: Seq<u8>, p: int, acc: Seq<u8>) -> Option<Seq<char>>
    decreases b.len() * 8 - p,
{
    match spec_read_bl(b, p) {
        Err(_) => None,
        Ok((size, p1)) => if size == 0 {
            None
        } else if size < 0 {
            Some(
                "SAT block size is negative ("@ + spec_signed_decimal(size as int)
                    + "); entity stream is malformed"@,
            )
        } else if size > (b.len() * 8 - p1) / 8 {
            Some(
                "SAT block size ("@ + spec_decimal_digits(size as nat) + ") exceeds remaining cursor bytes ("@
                    + spec_decimal_digits(((b.len() * 8 - p1) / 8) as nat) + ")"@,
            )
        } else if acc.len() + size > MAX_SAT_BLOB_BYTES {
            Some(
                "SAT blob exceeds "@ + spec_decimal_digits(MAX_SAT_BLOB_BYTES as nat) + "-byte cap (accumulated "@
                    + spec_decimal_digits(acc.len()) + " + block "@ + spec_decimal_digits(size as nat) + ")"@,
            )
        } else {
            match spec_read_rc_seq(b, p1, size as nat) {
                Err(_) => None,
                Ok((data, p2)) => {
                    proof {
                        lemma_bl_advances(b, p);
                        lemma_rc_seq_advances(b, p1, size as nat);
                    }
                    spec_sat_blocks_refusal(b, p2, acc + data)
                },
            }
        },
    }
}

/// The block loop of an envelope of the given version. Version 1 is
/// length-prefixed blocks; version 2 is stepped the same way when its
/// bytes read as such blocks, and refused when they do not; any other
/// version is refused.
pub open spec fn spec_read_sat_blocks(b: Seq<u8>, p: int, version: u16) -> core::result::Result<(Seq<u8>, int), Error> {
    if version != 1 && version != 2 {
        Err(spec_rejected())
    } else {
        match spec_read_sat_blocks_from(b, p, Seq::empty()) {
            Ok(r) => Ok(r),
            Err(e) => if version == 1 {
                Err(e)
            } else {
                Err(spec_rejected())
            },
        }
    }
}

/// The message of the refusal that ends the block loop of an envelope
/// of version `version` at `p`, if one does: the block loop's own for
/// version 1, the one that names the version for version 2 whose bytes
/// are not length-prefixed blocks and for any other version.
pub open spec fn spec_blocks_refusal(b: Seq<u8>, p: int, version: u16) -> Option<Seq<char>> {
    if version == 1 {
        spec_sat_blocks_refusal(b, p, Seq::empty())
    } else if version != 2 || spec_read_sat_blocks_from(b, p, Seq::empty()) is Err {
        Some(
            "ACIS envelope reports version "@ + spec_decimal_digits(version as nat)
                + "; only the length-prefixed version 1 form can be stepped"@,
        )
    } else {
        None
    }
}

/// The message of the refusal that ends the envelope at `p`, if one
/// does.
pub open spec fn spec_sat_blob_refusal(b: Seq<u8>, p: int) -> Option<Seq<char>> {
    match spec_read_b(b, p) {
        Err(_) => None,
        Ok((empty, p1)) => if empty {
            None
        } else {
            match spec_read_b(b, p1) {
                Err(_) => None,
                Ok((_, p2)) => match spec_read_bs_u(b, p2) {
                    Err(_) => None,
                    Ok((version, p3)) => spec_blocks_refusal(b, p3, version),
                },
            }
        },
    }
}

/// The envelope: `(acis_empty, version, blob)`, the last two `None`
/// when it is empty.
pub open spec fn spec_read_sat_blob(b: Seq<u8>, p: int) -> core::result::Result<((bool, Option<u16>, Option<Seq<u8>>), int), Error> {
    match spec_read_b(b, p) {
        Err(e) => Err(e),
        Ok((empty, p1)) => if empty {
            Ok(((true, None, None), p1))
        } else {
            match spec_read_b(b, p1) {
                Err(e) => Err(e),
                Ok((_unknown, p2)) => match spec_read_bs_u(b, p2) {
                    Err(e) => Err(e),
                    Ok((version, p3)) => match spec_read_sat_blocks(b, p3, version) {
                        Err(e) => Err(e),
                        Ok((blob, p4)) => Ok(((false, Some(version), Some(blob)), p4)),
                    },
                },
            }
        },
    }
}

fn version_message(version: u16) -> (s: String)
    ensures
        s@ == "ACIS envelope reports version "@ + spec_decimal_digits(version as nat)
            + "; only the length-prefixed version 1 form can be stepped"@,
{
    let mut head = "ACIS envelope reports version ".to_string();
    push_decimal(&mut head, version as u64);
    concat_text(head.as_str(), "; only the length-prefixed version 1 form can be stepped")
}

/// Read the block loop of an ACIS envelope. An envelope of version 2
/// whose bytes do not read as length-prefixed blocks, or of a version
/// other than 1 and 2, is refused with a message that names the
/// version.
pub(crate) fn read_sat_blocks(c: &mut BitCursor<'_>, version: u16) -> (r: Result<Vec<u8>>)
    requires
        old(c).wf(),
    ensures
        final(c).wf(),
        final(c).data() == old(c).data(),
        spec_outcome_view(r, final(c).pos(), spec_read_sat_blocks(old(c).data(), old(c).pos(), version)),
        spec_blocks_refusal(old(c).data(), old(c).pos(), version) matches Some(t) ==> (r matches Err(
            Error::SectionMap(m),
        ) && m@ == t),
{
    if version != 1 && version != 2 {
        return Err(Error::SectionMap(version_message(version)));
    }
    match read_length_prefixed_blocks(c) {
        Ok(blob) => Ok(blob),
        Err(e) => if version == 1 {
            Err(e)
        } else {
            Err(Error::SectionMap(version_message(version)))
        },
    }
}

/// The length-prefixed block loop: `BL` block sizes, each followed by
/// that many `RC`s, until a size of 0.
fn read_length_prefixed_blocks(c: &mut BitCursor<'_>) -> (r: Result<Vec<u8>>)
    requires
        old(c).wf(),
    ensures
        final(c).wf(),
        final(c).data() == old(c).data(),
        spec_outcome_view(r, final(c).pos(), spec_read_sat_blocks_from(old(c).data(), old(c).pos(), Seq::empty())),
        spec_sat_blocks_refusal(old(c).data(), old(c).pos(), Seq::empty()) matches Some(t) ==> (r matches Err(
            Error::SectionMap(m),
        ) && m@ == t),
{
    let mut blob: Vec<u8> = Vec::new();
    loop
        invariant
            c.wf(),
            c.data() == old(c).data(),
            spec_read_sat_blocks_from(c.data(), c.pos(), blob@) == spec_read_sat_blocks_from(
                old(c).data(),
                old(c).pos(),
                Seq::empty(),
            ),
            spec_sat_blocks_refusal(c.data(), c.pos(), blob@) == spec_sat_blocks_refusal(
                old(c).data(),
                old(c).pos(),
                Seq::empty(),
            ),
            blob@.len() <= MAX_SAT_BLOB_BYTES,
        decreases c.data().len() * 8 - c.pos(),
    {
        proof {
            reveal(spec_read_sat_blocks_from);
            reveal(spec_sat_blocks_refusal);
        }
        let ghost p = c.pos();
        let ghost acc = blob@;
        let block_size_signed = c.read_bl()?;
        if block_size_signed == 0 {
            return Ok(blob);
        }
        if block_size_signed < 0 {
            let mut m = "SAT block size is negative (".to_string();
            push_signed_decimal(&mut m, block_size_signed as i64);
            return Err(Error::SectionMap(concat_text(m.as_str(), "); entity stream is malformed")));
        }
        let block_size = block_size_signed as usize;
        let remaining_bytes = c.remaining_bits() / 8;
        if block_size > remaining_bytes {
            let m = with_decimal("SAT block size (", block_size as u64);
            let mut m = concat_text(m.as_str(), ") exceeds remaining cursor bytes (");
            push_decimal(&mut m, remaining_bytes as u64);
            return Err(Error::SectionMap(concat_text(m.as_str(), ")")));
        }
        if block_size > MAX_SAT_BLOB_BYTES - blob.len() {
            let m = with_decimal("SAT blob exceeds ", MAX_SAT_BLOB_BYTES as u64);
            let mut m = concat_text(m.as_str(), "-byte cap (accumulated ");
            push_decimal(&mut m, blob.len() as u64);
            let mut m = concat_text(m.as_str(), " + block ");
            push_decimal(&mut m, block_size as u64);
            return Err(Error::SectionMap(concat_text(m.as_str(), ")")));
        }
        let ghost p1 = c.pos();
        let data = read_rc_vec(c, block_size)?;
        proof {
            lemma_bl_advances(c.data(), p);
            lemma_rc_seq_advances(c.data(), p1, block_size as nat);
        }
        let mut i: usize = 0;
        while i < data.len()
            invariant
                0 <= i <= data.len(),
                blob@ == acc + data@.subrange(0, i as int),
                acc.len() + data@.len() <= MAX_SAT_BLOB_BYTES,
            decreases data.len() - i,
        {
            blob.push(data[i]);
            i += 1;
            assert(blob@ =~= acc + data@.subrange(0, i as int));
        }
        assert(data@.subrange(0, data@.len() as int) =~= data@);
    }
}

/// Shared ACIS-envelope reader used by 3DSOLID, REGION and BODY:
/// `(acis_empty, version, blob)`.
pub(crate) fn read_sat_blob(c: &mut BitCursor<'_>) -> (r: Result<(bool, Option<u16>, Option<Vec<u8>>)>)
    requires
        old(c).wf(),
    ensures
        final(c).wf(),
        final(c).data() == old(c).data(),
        match spec_read_sat_blob(old(c).data(), old(c).pos()) {
            Ok(((empty, version, blob), p)) => r matches Ok((e2, v2, b2)) && e2 == empty && v2
                == version && final(c).pos() == p && match (blob, b2) {
                (None, None) => true,
                (Some(s), Some(v)) => v@ == s,
                _ => false,
            },
            Err(Error::SectionMap(_)) => r matches Err(Error::SectionMap(_)),
            Err(Error::Unsupported { .. }) => r matches Err(Error::Unsupported { .. }),
            Err(e) => r matches Err(x) && x == e,
        },
        spec_sat_blob_refusal(old(c).data(), old(c).pos()) matches Some(t) ==> (r matches Err(
            Error::SectionMap(m),
        ) && m@ == t),
{
    let acis_empty = c.read_b()?;
    if acis_empty {
        return Ok((true, None, None));
    }
    let _unknown = c.read_b()?;
    let version = c.read_bs_u()?;
    let blob = read_sat_blocks(c, version)?;
    Ok((false, Some(version), Some(blob)))
}

/// The envelope alone, as a 3DSOLID with no tail.
pub open spec fn spec_decode(b: Seq<u8>, p: int) -> core::result::Result<(ThreeDSolidView, int), Error> {
    match spec_read_sat_blob(b, p) {
        Err(e) => Err(e),
        Ok(((empty, version, blob), p1)) => Ok(
            (
                ThreeDSolidView {
                    acis_empty: empty,
                    version,
                    sat_blob: blob,
                    in_data_store: false,
                    tail: None,
                },
                p1,
            ),
        ),
    }
}

/// Decode a 3DSOLID envelope, leaving the cursor at the record tail.
pub fn decode(c: &mut BitCursor<'_>) -> (r: Result<ThreeDSolid>)
    requires
        old(c).wf(),
    ensures
        final(c).wf(),
        final(c).data() == old(c).data(),
        spec_outcome_view(r, final(c).pos(), spec_decode(old(c).data(), old(c).pos())),
        spec_sat_blob_refusal(old(c).data(), old(c).pos()) matches Some(t) ==> (r matches Err(
            Error::SectionMap(m),
        ) && m@ == t),
{
    let (acis_empty, version, sat_blob) = read_sat_blob(c)?;
    Ok(ThreeDSolid { acis_empty, version, sat_blob, in_data_store: false, tail: None })
}

/// The 3DSOLID a whole record makes: version and blob only when the
/// envelope is not empty.
pub open spec fn spec_from_record(record: ModelerRecordView) -> ThreeDSolidView {
    ThreeDSolidView {
        acis_empty: record.blob.empty,
        version: if record.blob.empty {
            None
        } else {
            Some(record.blob.version)
        },
        sat_blob: if record.blob.empty {
            None
        } else {
            Some(record.blob.bytes)
        },
        in_data_store: record.in_data_store,
        tail: Some(record.tail),
    }
}

/// Build a 3DSOLID from a decoded record.
pub fn from_record(record: ModelerRecord) -> (s: ThreeDSolid)
    ensures
        s@ == spec_from_record(record@),
{
    let empty = record.blob.empty;
    ThreeDSolid {
        acis_empty: empty,
        version: if empty {
            None
        } else {
            Some(record.blob.version)
        },
        sat_blob: if empty {
            None
        } else {
            Some(record.blob.bytes)
        },
        in_data_store: record.in_data_store,
        tail: Some(record.tail),
    }
}

/// The whole record, as a 3DSOLID.
pub open spec fn spec_decode_whole(b: Seq<u8>, p: int, version: Version, in_data_store: bool) -> core::result::Result<(ThreeDSolidView, int), Error> {
    match spec_decode_record(b, p, version, in_data_store) {
        Err(e) => Err(e),
        Ok((rec, p1)) => Ok((spec_from_record(rec), p1)),
    }
}

/// Decode a whole 3DSOLID record, envelope and tail.
pub fn decode_record(c: &mut BitCursor<'_>, version: Version, in_data_store: bool) -> (r: Result<ThreeDSolid>)
    requires
        old(c).wf(),
    ensures
        final(c).wf(),
        final(c).data() == old(c).data(),
        spec_outcome_view(r, final(c).pos(), spec_decode_whole(old(c).data(), old(c).pos(), version, in_data_store)),
        modeler::spec_record_refusal(old(c).data(), old(c).pos(), in_data_store) matches Some(t) ==> (r matches Err(
            Error::SectionMap(m),
        ) && m@ == t),
{
    let record = modeler::decode_record(c, version, in_data_store)?;
    Ok(from_record(record))
}

} // verus!
