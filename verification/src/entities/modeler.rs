//! The ACIS record shared by REGION, 3DSOLID, BODY and the SURFACE
//! family: the envelope (read by [`crate::entities::three_d_solid`]),
//! then the wireframe / isoline / silhouette block, a second
//! ACIS-empty bit, the R2007+ `BL`, and on data-store records the
//! R2013+ revision block.
//!
//! ```text
//! (envelope, unless the SAB stream is in the data store)
//! B    wireframe data present
//! (if wireframe data present:)
//!   B    point present
//!   (if point present:) 3BD point
//!   BL   num isolines
//!   B    isolines present
//!   (if isolines present:)
//!     BL   num wires;        wire × num wires
//!     BL   num silhouettes;  silhouette × num silhouettes
//! B    ACIS empty (2)
//! (if !ACIS empty (2):) B unknown, BS version, the block loop
//! R2007+: BL unknown
//! (data store:) B, BB, BB, BB, RC × 16 revision GUID, BL
//! ```
//!
//! A wire is `RC type, BL selection marker, BS colour, BL ACIS index,
//! BL point count, 3BD × point count, B transform present` and, when
//! the transform is present, `3BD × 4, BD scale, B × 3`. A silhouette
//! is `BL viewport id, 3BD × 3, B perspective, BL wire count` then that
//! many wires. Wires and silhouettes are stepped, not kept. Every
//! count is bounded by [`MAX_MODELER_ELEMENTS`].
use vstd::prelude::*;

use crate::bitcursor::{spec_read_b, spec_read_bb, spec_read_bd, spec_read_bl, spec_read_bs, spec_read_bs_u, spec_read_rc, BitCursor};
use crate::entities::three_d_solid::{
    read_sat_blob, read_sat_blocks, spec_blocks_refusal, spec_read_sat_blob, spec_read_sat_blocks, spec_sat_blob_refusal,
    MAX_SAT_BLOB_BYTES,
};
use crate::entities::{read_bd3, read_rc_vec, spec_outcome, spec_outcome_view, spec_read_bd3, spec_read_rc_seq, spec_rejected, Point3D};
use crate::error::{Error, Result};
use crate::header::concat_text;
use crate::text::{push_signed_decimal, spec_signed_decimal};
use crate::version::Version;

verus! {

/// The SAT blob cap, under the name the SURFACE decoders use.
pub const MAX_SAT_BYTES: usize = MAX_SAT_BLOB_BYTES;

/// Cap on every count of the wireframe block.
pub const MAX_MODELER_ELEMENTS: i32 = 65536;

/// Width in bytes of the R2013+ revision GUID.
pub const REVISION_GUID_BYTES: usize = 16;

/// ACIS envelope data.
#[derive(Debug, Clone, PartialEq, Eq)]
pub struct SatBlob {
    /// The `acis_empty` flag; if set, no payload followed.
    pub empty: bool,
    /// ACIS format version; 0 when `empty`.
    pub version: u16,
    /// Raw concatenated SAT bytes, not demasked.
    pub bytes: Vec<u8>,
}

/// [`SatBlob`] with its bytes as a sequence.
pub struct SatBlobView {
    pub empty: bool,
    pub version: u16,
    pub bytes: Seq<u8>,
}

impl View for SatBlob {
    type V = SatBlobView;

    open spec fn view(&self) -> SatBlobView {
        SatBlobView { empty: self.empty, version: self.version, bytes: self.bytes@ }
    }
}

/// The tail every ACIS entity writes after its envelope.
#[derive(Debug, Clone, Copy, PartialEq, Eq)]
pub struct ModelerTail {
    /// The point/isoline block was written.
    pub wireframe_present: bool,
    /// The block's point, when the block and its point are present.
    pub point: Option<Point3D>,
    /// `Num IsoLines`; 0 when no block was written.
    pub num_isolines: i32,
    /// The wire and silhouette lists follow.
    pub isolines_present: bool,
    /// Number of wires in the isoline list.
    pub num_wires: i32,
    /// Number of silhouettes in the silhouette list.
    pub num_silhouettes: i32,
    /// The second `ACIS empty` bit.
    pub acis_empty_2: bool,
    /// Data-store records only: the 16-byte revision GUID.
    pub revision_guid: Option<[u8; 16]>,
}

/// [`ModelerTail`] with its GUID as a sequence.
pub struct ModelerTailView {
    pub wireframe_present: bool,
    pub point: Option<Point3D>,
    pub num_isolines: i32,
    pub isolines_present: bool,
    pub num_wires: i32,
    pub num_silhouettes: i32,
    pub acis_empty_2: bool,
    pub revision_guid: Option<Seq<u8>>,
}

impl View for ModelerTail {
    type V = ModelerTailView;

    open spec fn view(&self) -> ModelerTailView {
        ModelerTailView {
            wireframe_present: self.wireframe_present,
            point: self.point,
            num_isolines: self.num_isolines,
            isolines_present: self.isolines_present,
            num_wires: self.num_wires,
            num_silhouettes: self.num_silhouettes,
            acis_empty_2: self.acis_empty_2,
            revision_guid: match self.revision_guid {
                Some(g) => Some(g@),
                None => None,
            },
        }
    }
}

/// One whole ACIS record: the envelope plus the tail.
#[derive(Debug, Clone, PartialEq, Eq)]
pub struct ModelerRecord {
    /// The inline envelope; empty on a data-store record.
    pub blob: SatBlob,
    /// The SAB stream lives in the data-storage section.
    pub in_data_store: bool,
    pub tail: ModelerTail,
}

/// [`ModelerRecord`] by the views of its parts.
pub struct ModelerRecordView {
    pub blob: SatBlobView,
    pub in_data_store: bool,
    pub tail: ModelerTailView,
}

impl View for ModelerRecord {
    type V = ModelerRecordView;

    open spec fn view(&self) -> ModelerRecordView {
        ModelerRecordView { blob: self.blob@, in_data_store: self.in_data_store, tail: self.tail@ }
    }
}

/// The envelope as a [`SatBlob`]: version 0 and no bytes when empty.
pub open spec fn spec_decode_sat_blob(b: Seq<u8>, p: int) -> core::result::Result<(SatBlobView, int), Error> {
    match spec_read_sat_blob(b, p) {
        Err(e) => Err(e),
        Ok(((empty, version, blob), p1)) => Ok(
            (
                SatBlobView {
                    empty,
                    version: match version {
                        Some(v) => v,
                        None => 0,
                    },
                    bytes: match blob {
                        Some(s) => s,
                        None => Seq::empty(),
                    },
                },
                p1,
            ),
        ),
    }
}

/// Decode one ACIS envelope into a [`SatBlob`].
pub fn decode_sat_blob(c: &mut BitCursor<'_>) -> (r: Result<SatBlob>)
    requires
        old(c).wf(),
    ensures
        final(c).wf(),
        final(c).data() == old(c).data(),
        spec_outcome_view(r, final(c).pos(), spec_decode_sat_blob(old(c).data(), old(c).pos())),
        spec_sat_blob_refusal(old(c).data(), old(c).pos()) matches Some(t) ==> (r matches Err(
            Error::SectionMap(m),
        ) && m@ == t),
{
    let (empty, version, bytes) = read_sat_blob(c)?;
    Ok(SatBlob {
        empty,
        version: match version {
            Some(v) => v,
            None => 0,
        },
        bytes: match bytes {
            Some(v) => v,
            None => Vec::new(),
        },
    })
}

/// A count is in `0..=MAX_MODELER_ELEMENTS`.
pub open spec fn spec_count_ok(v: i32) -> bool {
    0 <= v <= MAX_MODELER_ELEMENTS
}

/// The message of the refusal of `value` as a count of `what`.
pub open spec fn spec_count_text(what: Seq<char>, value: i32) -> Seq<char> {
    "ACIS "@ + what + " is "@ + spec_signed_decimal(value as int) + ", outside 0..=65536"@
}

/// Reject a `BL` count that cannot describe a real wireframe block;
/// the message names what was counted and the value read.
fn bounded_count(value: i32, what: &str) -> (r: Result<i32>)
    ensures
        spec_count_ok(value) ==> r == Ok::<i32, Error>(value),
        !spec_count_ok(value) ==> (r matches Err(Error::SectionMap(m)) && m@ == spec_count_text(what@, value)),
{
    if value < 0 || value > MAX_MODELER_ELEMENTS {
        let head = concat_text("ACIS ", what);
        let mut m = concat_text(head.as_str(), " is ");
        push_signed_decimal(&mut m, value as i64);
        return Err(Error::SectionMap(concat_text(m.as_str(), ", outside 0..=65536")));
    }
    Ok(value)
}

/// A `BL` count, refused outside the bound.
pub open spec fn spec_read_count(b: Seq<u8>, p: int) -> core::result::Result<(i32, int), Error> {
    match spec_read_bl(b, p) {
        Err(e) => Err(e),
        Ok((v, p1)) => if spec_count_ok(v) {
            Ok((v, p1))
        } else {
            Err(spec_rejected())
        },
    }
}

/// The message of the refusal of the count of `what` read at `p`, when
/// that count is refused.
pub open spec fn spec_count_refusal(b: Seq<u8>, p: int, what: Seq<char>) -> Option<Seq<char>> {
    match spec_read_bl(b, p) {
        Ok((v, _)) => if spec_count_ok(v) {
            None
        } else {
            Some(spec_count_text(what, v))
        },
        Err(_) => None,
    }
}

fn read_count(c: &mut BitCursor<'_>, what: &str) -> (r: Result<i32>)
    requires
        old(c).wf(),
    ensures
        final(c).wf(),
        final(c).data() == old(c).data(),
        spec_outcome(r, final(c).pos(), spec_read_count(old(c).data(), old(c).pos())),
        spec_count_refusal(old(c).data(), old(c).pos(), what@) matches Some(t) ==> (r matches Err(
            Error::SectionMap(m),
        ) && m@ == t),
{
    let v = c.read_bl()?;
    bounded_count(v, what)
}

/// `n` `3BD`s, stepped.
pub open spec fn spec_skip_bd3(b: Seq<u8>, p: int, n: nat) -> core::result::Result<((), int), Error>
    decreases n,
{
    if n == 0 {
        Ok(((), p))
    } else {
        match spec_skip_bd3(b, p, (n - 1) as nat) {
            Err(e) => Err(e),
            Ok((_, p1)) => match spec_read_bd3(b, p1) {
                Err(e) => Err(e),
                Ok((_, p2)) => Ok(((), p2)),
            },
        }
    }
}

proof fn lemma_skip_bd3_error(b: Seq<u8>, p: int, i: nat, n: nat, e: Error)
    requires
        i < n,
        spec_skip_bd3(b, p, (i + 1) as nat) == Err::<((), int), Error>(e),
    ensures
        spec_skip_bd3(b, p, n) == Err::<((), int), Error>(e),
    decreases n,
{
    if n > i + 1 {
        lemma_skip_bd3_error(b, p, i, (n - 1) as nat, e);
    }
}

fn skip_bd3(c: &mut BitCursor<'_>, n: u32) -> (r: Result<()>)
    requires
        old(c).wf(),
    ensures
        final(c).wf(),
        final(c).data() == old(c).data(),
        spec_outcome(r, final(c).pos(), spec_skip_bd3(old(c).data(), old(c).pos(), n as nat)),
{
    let ghost p0 = c.pos();
    let mut i: u32 = 0;
    while i < n
        invariant
            c.wf(),
            c.data() == old(c).data(),
            p0 == old(c).pos(),
            0 <= i <= n,
            spec_skip_bd3(c.data(), p0, i as nat) == Ok::<((), int), Error>(((), c.pos())),
        decreases n - i,
    {
        let ghost data = c.data();
        let rp = read_bd3(c);
        proof {
            if rp is Err {
                lemma_skip_bd3_error(data, p0, i as nat, n as nat, rp->Err_0);
            }
        }
        let _ = rp?;
        i += 1;
    }
    Ok(())
}

/// The optional wire transform: `3BD × 4, BD scale, B × 3`.
pub open spec fn spec_wire_transform(b: Seq<u8>, p: int) -> core::result::Result<((), int), Error> {
    match spec_skip_bd3(b, p, 4) {
        Err(e) => Err(e),
        Ok((_, p1)) => match spec_read_bd(b, p1) {
            Err(e) => Err(e),
            Ok((_, p2)) => match spec_read_b(b, p2) {
                Err(e) => Err(e),
                Ok((_, p3)) => match spec_read_b(b, p3) {
                    Err(e) => Err(e),
                    Ok((_, p4)) => match spec_read_b(b, p4) {
                        Err(e) => Err(e),
                        Ok((_, p5)) => Ok(((), p5)),
                    },
                },
            },
        },
    }
}

/// The fixed head of a wire: `RC type, BL selection marker, BS
/// colour, BL ACIS index`.
pub open spec fn spec_wire_head(b: Seq<u8>, p: int) -> core::result::Result<((), int), Error> {
    match spec_read_rc(b, p) {
        Err(e) => Err(e),
        Ok((_, p1)) => match spec_read_bl(b, p1) {
            Err(e) => Err(e),
            Ok((_, p2)) => match spec_read_bs(b, p2) {
                Err(e) => Err(e),
                Ok((_, p3)) => match spec_read_bl(b, p3) {
                    Err(e) => Err(e),
                    Ok((_, p4)) => Ok(((), p4)),
                },
            },
        },
    }
}

/// One wire, stepped: the head, a counted point list, and the
/// optional transform.
#[verifier::opaque]
pub open spec fn spec_wire(b: Seq<u8>, p: int) -> core::result::Result<((), int), Error> {
    match spec_wire_head(b, p) {
        Err(e) => Err(e),
        Ok((_, p4)) => match spec_read_count(b, p4) {
            Err(e) => Err(e),
            Ok((n, p5)) => match spec_skip_bd3(b, p5, n as nat) {
                Err(e) => Err(e),
                Ok((_, p6)) => match spec_read_b(b, p6) {
                    Err(e) => Err(e),
                    Ok((t, p7)) => if t {
                        spec_wire_transform(b, p7)
                    } else {
                        Ok(((), p7))
                    },
                },
            },
        },
    }
}

/// The count refusal that ends one wire at `p`, if any.
pub open spec fn spec_wire_refusal(b: Seq<u8>, p: int) -> Option<Seq<char>> {
    match spec_wire_head(b, p) {
        Err(_) => None,
        Ok((_, p4)) => spec_count_refusal(b, p4, "wire point count"@),
    }
}

proof fn lemma_wire_ok_no_refusal(b: Seq<u8>, p: int)
    ensures
        spec_wire(b, p) is Ok ==> spec_wire_refusal(b, p) is None,
        spec_wire_refusal(b, p) is Some ==> spec_wire(b, p) is Err,
{
    reveal(spec_wire);
}

fn step_wire_head(c: &mut BitCursor<'_>) -> (r: Result<()>)
    requires
        old(c).wf(),
    ensures
        final(c).wf(),
        final(c).data() == old(c).data(),
        spec_outcome(r, final(c).pos(), spec_wire_head(old(c).data(), old(c).pos())),
{
    let _wire_type = c.read_rc()?;
    let _selection_marker = c.read_bl()?;
    let _colour = c.read_bs()?;
    let _acis_index = c.read_bl()?;
    Ok(())
}

fn step_wire_transform(c: &mut BitCursor<'_>) -> (r: Result<()>)
    requires
        old(c).wf(),
    ensures
        final(c).wf(),
        final(c).data() == old(c).data(),
        spec_outcome(r, final(c).pos(), spec_wire_transform(old(c).data(), old(c).pos())),
{
    skip_bd3(c, 4)?;
    let _scale = c.read_bd()?;
    let _has_rotation = c.read_b()?;
    let _has_reflection = c.read_b()?;
    let _has_shear = c.read_b()?;
    Ok(())
}

/// Step one wire, consuming its bits without surfacing them.
fn step_wire(c: &mut BitCursor<'_>) -> (r: Result<()>)
    requires
        old(c).wf(),
    ensures
        final(c).wf(),
        final(c).data() == old(c).data(),
        spec_outcome(r, final(c).pos(), spec_wire(old(c).data(), old(c).pos())),
        spec_wire_refusal(old(c).data(), old(c).pos()) matches Some(t) ==> (r matches Err(
            Error::SectionMap(m),
        ) && m@ == t),
{
    proof {
        reveal(spec_wire);
    }
    step_wire_head(c)?;
    let point_count = read_count(c, "wire point count")?;
    skip_bd3(c, point_count as u32)?;
    if c.read_b()? {
        step_wire_transform(c)?;
    }
    Ok(())
}

/// `n` wires, stepped.
pub open spec fn spec_wires(b: Seq<u8>, p: int, n: nat) -> core::result::Result<((), int), Error>
    decreases n,
{
    if n == 0 {
        Ok(((), p))
    } else {
        match spec_wires(b, p, (n - 1) as nat) {
            Err(e) => Err(e),
            Ok((_, p1)) => spec_wire(b, p1),
        }
    }
}

proof fn lemma_wires_error(b: Seq<u8>, p: int, i: nat, n: nat, e: Error)
    requires
        i < n,
        spec_wires(b, p, (i + 1) as nat) == Err::<((), int), Error>(e),
    ensures
        spec_wires(b, p, n) == Err::<((), int), Error>(e),
    decreases n,
{
    if n > i + 1 {
        lemma_wires_error(b, p, i, (n - 1) as nat, e);
    }
}

/// The count refusal that ends a list of `n` wires at `p`, if any.
pub open spec fn spec_wires_refusal(b: Seq<u8>, p: int, n: nat) -> Option<Seq<char>>
    decreases n,
{
    if n == 0 {
        None
    } else {
        match spec_wires(b, p, (n - 1) as nat) {
            Err(_) => spec_wires_refusal(b, p, (n - 1) as nat),
            Ok((_, p1)) => spec_wire_refusal(b, p1),
        }
    }
}

proof fn lemma_wires_ok_no_refusal(b: Seq<u8>, p: int, n: nat)
    ensures
        spec_wires(b, p, n) is Ok ==> spec_wires_refusal(b, p, n) is None,
    decreases n,
{
    if n > 0 {
        lemma_wires_ok_no_refusal(b, p, (n - 1) as nat);
        if let Ok((_, p1)) = spec_wires(b, p, (n - 1) as nat) {
            lemma_wire_ok_no_refusal(b, p1);
        }
    }
}

/// When wire `i` is the first to fail, the list's refusal is that wire's.
proof fn lemma_wires_refusal_at(b: Seq<u8>, p: int, i: nat, n: nat, pi: int)
    requires
        i < n,
        spec_wires(b, p, i) == Ok::<((), int), Error>(((), pi)),
        spec_wire(b, pi) is Err,
    ensures
        spec_wires_refusal(b, p, n) == spec_wire_refusal(b, pi),
    decreases n,
{
    if n > i + 1 {
        lemma_wires_error(b, p, i, (n - 1) as nat, spec_wire(b, pi)->Err_0);
        lemma_wires_refusal_at(b, p, i, (n - 1) as nat, pi);
    }
}

fn step_wires(c: &mut BitCursor<'_>, n: i32) -> (r: Result<()>)
    requires
        old(c).wf(),
        n >= 0,
    ensures
        final(c).wf(),
        final(c).data() == old(c).data(),
        spec_outcome(r, final(c).pos(), spec_wires(old(c).data(), old(c).pos(), n as nat)),
        spec_wires_refusal(old(c).data(), old(c).pos(), n as nat) matches Some(t) ==> (r matches Err(
            Error::SectionMap(m),
        ) && m@ == t),
{
    let ghost p0 = c.pos();
    let mut i: i32 = 0;
    while i < n
        invariant
            c.wf(),
            c.data() == old(c).data(),
            p0 == old(c).pos(),
            0 <= i <= n,
            spec_wires(c.data(), p0, i as nat) == Ok::<((), int), Error>(((), c.pos())),
        decreases n - i,
    {
        let ghost data = c.data();
        let ghost pi = c.pos();
        let rw = step_wire(c);
        proof {
            if rw is Err {
                let o = spec_wire(data, pi);
                if o is Err {
                    lemma_wires_error(data, p0, i as nat, n as nat, o->Err_0);
                    lemma_wires_refusal_at(data, p0, i as nat, n as nat, pi);
                }
            }
        }
        rw?;
        i += 1;
    }
    proof {
        lemma_wires_ok_no_refusal(c.data(), p0, n as nat);
    }
    Ok(())
}

/// One silhouette, stepped: `BL viewport, 3BD × 3, B perspective`,
/// then a counted wire list.
#[verifier::opaque]
pub open spec fn spec_silhouette(b: Seq<u8>, p: int) -> core::result::Result<((), int), Error> {
    match spec_read_bl(b, p) {
        Err(e) => Err(e),
        Ok((_, p1)) => match spec_skip_bd3(b, p1, 3) {
            Err(e) => Err(e),
            Ok((_, p2)) => match spec_read_b(b, p2) {
                Err(e) => Err(e),
                Ok((_, p3)) => match spec_read_count(b, p3) {
                    Err(e) => Err(e),
                    Ok((w, p4)) => spec_wires(b, p4, w as nat),
                },
            },
        },
    }
}

/// The count refusal that ends one silhouette at `p`, if any.
pub open spec fn spec_silhouette_refusal(b: Seq<u8>, p: int) -> Option<Seq<char>> {
    match spec_read_bl(b, p) {
        Err(_) => None,
        Ok((_, p1)) => match spec_skip_bd3(b, p1, 3) {
            Err(_) => None,
            Ok((_, p2)) => match spec_read_b(b, p2) {
                Err(_) => None,
                Ok((_, p3)) => match spec_read_count(b, p3) {
                    Err(_) => spec_count_refusal(b, p3, "silhouette wire count"@),
                    Ok((w, p4)) => spec_wires_refusal(b, p4, w as nat),
                },
            },
        },
    }
}

proof fn lemma_silhouette_ok_no_refusal(b: Seq<u8>, p: int)
    ensures
        spec_silhouette(b, p) is Ok ==> spec_silhouette_refusal(b, p) is None,
        spec_silhouette_refusal(b, p) is Some ==> spec_silhouette(b, p) is Err,
{
    reveal(spec_silhouette);
    if let Ok((_, p1)) = spec_read_bl(b, p) {
        if let Ok((_, p2)) = spec_skip_bd3(b, p1, 3) {
            if let Ok((_, p3)) = spec_read_b(b, p2) {
                if let Ok((w, p4)) = spec_read_count(b, p3) {
                    lemma_wires_ok_no_refusal(b, p4, w as nat);
                }
            }
        }
    }
}

fn step_silhouette(c: &mut BitCursor<'_>) -> (r: Result<()>)
    requires
        old(c).wf(),
    ensures
        final(c).wf(),
        final(c).data() == old(c).data(),
        spec_outcome(r, final(c).pos(), spec_silhouette(old(c).data(), old(c).pos())),
        spec_silhouette_refusal(old(c).data(), old(c).pos()) matches Some(t) ==> (r matches Err(
            Error::SectionMap(m),
        ) && m@ == t),
{
    proof {
        reveal(spec_silhouette);
    }
    let _viewport_id = c.read_bl()?;
    skip_bd3(c, 3)?;
    let _perspective = c.read_b()?;
    let wires = read_count(c, "silhouette wire count")?;
    step_wires(c, wires)
}

/// `n` silhouettes, stepped.
pub open spec fn spec_silhouettes(b: Seq<u8>, p: int, n: nat) -> core::result::Result<((), int), Error>
    decreases n,
{
    if n == 0 {
        Ok(((), p))
    } else {
        match spec_silhouettes(b, p, (n - 1) as nat) {
            Err(e) => Err(e),
            Ok((_, p1)) => spec_silhouette(b, p1),
        }
    }
}

proof fn lemma_silhouettes_error(b: Seq<u8>, p: int, i: nat, n: nat, e: Error)
    requires
        i < n,
        spec_silhouettes(b, p, (i + 1) as nat) == Err::<((), int), Error>(e),
    ensures
        spec_silhouettes(b, p, n) == Err::<((), int), Error>(e),
    decreases n,
{
    if n > i + 1 {
        lemma_silhouettes_error(b, p, i, (n - 1) as nat, e);
    }
}

/// The count refusal that ends a list of `n` silhouettes at `p`, if any.
pub open spec fn spec_silhouettes_refusal(b: Seq<u8>, p: int, n: nat) -> Option<Seq<char>>
    decreases n,
{
    if n == 0 {
        None
    } else {
        match spec_silhouettes(b, p, (n - 1) as nat) {
            Err(_) => spec_silhouettes_refusal(b, p, (n - 1) as nat),
            Ok((_, p1)) => spec_silhouette_refusal(b, p1),
        }
    }
}

proof fn lemma_silhouettes_ok_no_refusal(b: Seq<u8>, p: int, n: nat)
    ensures
        spec_silhouettes(b, p, n) is Ok ==> spec_silhouettes_refusal(b, p, n) is None,
    decreases n,
{
    if n > 0 {
        lemma_silhouettes_ok_no_refusal(b, p, (n - 1) as nat);
        if let Ok((_, p1)) = spec_silhouettes(b, p, (n - 1) as nat) {
            lemma_silhouette_ok_no_refusal(b, p1);
        }
    }
}

/// When silhouette `i` is the first to fail, the list's refusal is that
/// silhouette's.
proof fn lemma_silhouettes_refusal_at(b: Seq<u8>, p: int, i: nat, n: nat, pi: int)
    requires
        i < n,
        spec_silhouettes(b, p, i) == Ok::<((), int), Error>(((), pi)),
        spec_silhouette(b, pi) is Err,
    ensures
        spec_silhouettes_refusal(b, p, n) == spec_silhouette_refusal(b, pi),
    decreases n,
{
    if n > i + 1 {
        lemma_silhouettes_error(b, p, i, (n - 1) as nat, spec_silhouette(b, pi)->Err_0);
        lemma_silhouettes_refusal_at(b, p, i, (n - 1) as nat, pi);
    }
}

fn step_silhouettes(c: &mut BitCursor<'_>, n: i32) -> (r: Result<()>)
    requires
        old(c).wf(),
        n >= 0,
    ensures
        final(c).wf(),
        final(c).data() == old(c).data(),
        spec_outcome(r, final(c).pos(), spec_silhouettes(old(c).data(), old(c).pos(), n as nat)),
        spec_silhouettes_refusal(old(c).data(), old(c).pos(), n as nat) matches Some(t) ==> (r matches Err(
            Error::SectionMap(m),
        ) && m@ == t),
{
    let ghost p0 = c.pos();
    let mut i: i32 = 0;
    while i < n
        invariant
            c.wf(),
            c.data() == old(c).data(),
            p0 == old(c).pos(),
            0 <= i <= n,
            spec_silhouettes(c.data(), p0, i as nat) == Ok::<((), int), Error>(((), c.pos())),
        decreases n - i,
    {
        let ghost data = c.data();
        let ghost pi = c.pos();
        let rs = step_silhouette(c);
        proof {
            if rs is Err {
                let o = spec_silhouette(data, pi);
                if o is Err {
                    lemma_silhouettes_error(data, p0, i as nat, n as nat, o->Err_0);
                    lemma_silhouettes_refusal_at(data, p0, i as nat, n as nat, pi);
                }
            }
        }
        rs?;
        i += 1;
    }
    proof {
        lemma_silhouettes_ok_no_refusal(c.data(), p0, n as nat);
    }
    Ok(())
}

/// What the wireframe block yields: presence, point, isoline count,
/// isolines present, wire count, silhouette count.
pub type Wireframe = (bool, Option<Point3D>, i32, bool, i32, i32);

/// The lists after `isolines present`: counted wires, then counted
/// silhouettes.
pub open spec fn spec_isolines(b: Seq<u8>, p: int) -> core::result::Result<((i32, i32), int), Error> {
    match spec_read_count(b, p) {
        Err(e) => Err(e),
        Ok((nw, p1)) => match spec_wires(b, p1, nw as nat) {
            Err(e) => Err(e),
            Ok((_, p2)) => match spec_read_count(b, p2) {
                Err(e) => Err(e),
                Ok((ns, p3)) => match spec_silhouettes(b, p3, ns as nat) {
                    Err(e) => Err(e),
                    Ok((_, p4)) => Ok(((nw, ns), p4)),
                },
            },
        },
    }
}

/// The wireframe block.
#[verifier::opaque]
pub open spec fn spec_wireframe(b: Seq<u8>, p: int) -> core::result::Result<(Wireframe, int), Error> {
    match spec_read_b(b, p) {
        Err(e) => Err(e),
        Ok((present, p1)) => if !present {
            Ok(((false, None, 0i32, false, 0i32, 0i32), p1))
        } else {
            let pt = match spec_read_b(b, p1) {
                Err(e) => Err(e),
                Ok((has_point, p2)) => if has_point {
                    match spec_read_bd3(b, p2) {
                        Err(e) => Err(e),
                        Ok((pt, p3)) => Ok((Some(pt), p3)),
                    }
                } else {
                    Ok((None, p2))
                },
            };
            match pt {
                Err(e) => Err(e),
                Ok((point, p3)) => match spec_read_count(b, p3) {
                    Err(e) => Err(e),
                    Ok((iso, p4)) => match spec_read_b(b, p4) {
                        Err(e) => Err(e),
                        Ok((iso_present, p5)) => if iso_present {
                            match spec_isolines(b, p5) {
                                Err(e) => Err(e),
                                Ok(((nw, ns), p6)) => Ok(((true, point, iso, true, nw, ns), p6)),
                            }
                        } else {
                            Ok(((true, point, iso, false, 0i32, 0i32), p5))
                        },
                    },
                },
            }
        },
    }
}

/// The count refusal that ends the lists after `isolines present`, if
/// any.
pub open spec fn spec_isolines_refusal(b: Seq<u8>, p: int) -> Option<Seq<char>> {
    match spec_read_count(b, p) {
        Err(_) => spec_count_refusal(b, p, "wire count"@),
        Ok((nw, p1)) => match spec_wires(b, p1, nw as nat) {
            Err(_) => spec_wires_refusal(b, p1, nw as nat),
            Ok((_, p2)) => match spec_read_count(b, p2) {
                Err(_) => spec_count_refusal(b, p2, "silhouette count"@),
                Ok((ns, p3)) => spec_silhouettes_refusal(b, p3, ns as nat),
            },
        },
    }
}

fn decode_isolines(c: &mut BitCursor<'_>) -> (r: Result<(i32, i32)>)
    requires
        old(c).wf(),
    ensures
        final(c).wf(),
        final(c).data() == old(c).data(),
        spec_outcome(r, final(c).pos(), spec_isolines(old(c).data(), old(c).pos())),
        spec_isolines_refusal(old(c).data(), old(c).pos()) matches Some(t) ==> (r matches Err(
            Error::SectionMap(m),
        ) && m@ == t),
{
    let num_wires = read_count(c, "wire count")?;
    step_wires(c, num_wires)?;
    let num_silhouettes = read_count(c, "silhouette count")?;
    step_silhouettes(c, num_silhouettes)?;
    Ok((num_wires, num_silhouettes))
}

/// The count refusal that ends the wireframe block, if any.
pub open spec fn spec_wireframe_refusal(b: Seq<u8>, p: int) -> Option<Seq<char>> {
    match spec_read_b(b, p) {
        Err(_) => None,
        Ok((present, p1)) => if !present {
            None
        } else {
            let pt = match spec_read_b(b, p1) {
                Err(e) => Err(e),
                Ok((has_point, p2)) => if has_point {
                    match spec_read_bd3(b, p2) {
                        Err(e) => Err(e),
                        Ok((_, p3)) => Ok(p3),
                    }
                } else {
                    Ok(p2)
                },
            };
            match pt {
                Err(_) => None,
                Ok(p3) => match spec_read_count(b, p3) {
                    Err(_) => spec_count_refusal(b, p3, "isoline count"@),
                    Ok((_, p4)) => match spec_read_b(b, p4) {
                        Err(_) => None,
                        Ok((iso_present, p5)) => if iso_present {
                            spec_isolines_refusal(b, p5)
                        } else {
                            None
                        },
                    },
                },
            }
        },
    }
}

fn decode_wireframe(c: &mut BitCursor<'_>) -> (r: Result<Wireframe>)
    requires
        old(c).wf(),
    ensures
        final(c).wf(),
        final(c).data() == old(c).data(),
        spec_outcome(r, final(c).pos(), spec_wireframe(old(c).data(), old(c).pos())),
        spec_wireframe_refusal(old(c).data(), old(c).pos()) matches Some(t) ==> (r matches Err(
            Error::SectionMap(m),
        ) && m@ == t),
{
    proof {
        reveal(spec_wireframe);
    }
    let wireframe_present = c.read_b()?;
    if !wireframe_present {
        return Ok((false, None, 0, false, 0, 0));
    }
    let point = if c.read_b()? {
        let pt = read_bd3(c)?;
        Some(pt)
    } else {
        None
    };
    let num_isolines = read_count(c, "isoline count")?;
    let isolines_present = c.read_b()?;
    if isolines_present {
        let (num_wires, num_silhouettes) = decode_isolines(c)?;
        Ok((true, point, num_isolines, true, num_wires, num_silhouettes))
    } else {
        Ok((true, point, num_isolines, false, 0, 0))
    }
}

/// After the wireframe block: `B ACIS empty (2)` (if clear, `B`, `BS
/// version` and the block loop again), then from R2007 a `BL`.
#[verifier::opaque]
pub open spec fn spec_after_wireframe(b: Seq<u8>, p: int, version: Version) -> core::result::Result<(bool, int), Error> {
    let second = match spec_read_b(b, p) {
        Err(e) => Err(e),
        Ok((empty2, p1)) => if empty2 {
            Ok((true, p1))
        } else {
            match spec_read_b(b, p1) {
                Err(e) => Err(e),
                Ok((_, p2)) => match spec_read_bs_u(b, p2) {
                    Err(e) => Err(e),
                    Ok((v2, p3)) => match spec_read_sat_blocks(b, p3, v2) {
                        Err(e) => Err(e),
                        Ok((_, p4)) => Ok((false, p4)),
                    },
                },
            }
        },
    };
    match second {
        Err(e) => Err(e),
        Ok((empty2, p4)) => if version.spec_is_r2007_plus() {
            match spec_read_bl(b, p4) {
                Err(e) => Err(e),
                Ok((_, p5)) => Ok((empty2, p5)),
            }
        } else {
            Ok((empty2, p4))
        },
    }
}

/// The message of the refusal that ends the second envelope, if one
/// does.
pub open spec fn spec_after_wireframe_refusal(b: Seq<u8>, p: int) -> Option<Seq<char>> {
    match spec_read_b(b, p) {
        Err(_) => None,
        Ok((empty2, p1)) => if empty2 {
            None
        } else {
            match spec_read_b(b, p1) {
                Err(_) => None,
                Ok((_, p2)) => match spec_read_bs_u(b, p2) {
                    Err(_) => None,
                    Ok((v2, p3)) => spec_blocks_refusal(b, p3, v2),
                },
            }
        },
    }
}

fn decode_after_wireframe(c: &mut BitCursor<'_>, version: Version) -> (r: Result<bool>)
    requires
        old(c).wf(),
    ensures
        final(c).wf(),
        final(c).data() == old(c).data(),
        spec_outcome(r, final(c).pos(), spec_after_wireframe(old(c).data(), old(c).pos(), version)),
        spec_after_wireframe_refusal(old(c).data(), old(c).pos()) matches Some(t) ==> (r matches Err(
            Error::SectionMap(m),
        ) && m@ == t),
{
    proof {
        reveal(spec_after_wireframe);
    }
    let acis_empty_2 = c.read_b()?;
    if !acis_empty_2 {
        let _unknown = c.read_b()?;
        let version_2 = c.read_bs_u()?;
        let _blob = read_sat_blocks(c, version_2)?;
    }
    if version.is_r2007_plus() {
        let _unknown = c.read_bl()?;
    }
    Ok(acis_empty_2)
}

/// The data-store block: `B, BB, BB, BB`, the 16-byte GUID, `BL`.
#[verifier::opaque]
pub open spec fn spec_guid_block(b: Seq<u8>, p: int) -> core::result::Result<(Seq<u8>, int), Error> {
    match spec_read_b(b, p) {
        Err(e) => Err(e),
        Ok((_, p1)) => match spec_read_bb(b, p1) {
            Err(e) => Err(e),
            Ok((_, p2)) => match spec_read_bb(b, p2) {
                Err(e) => Err(e),
                Ok((_, p3)) => match spec_read_bb(b, p3) {
                    Err(e) => Err(e),
                    Ok((_, p4)) => match spec_read_rc_seq(b, p4, 16) {
                        Err(e) => Err(e),
                        Ok((guid, p5)) => match spec_read_bl(b, p5) {
                            Err(e) => Err(e),
                            Ok((_, p6)) => Ok((guid, p6)),
                        },
                    },
                },
            },
        },
    }
}

fn decode_guid_block(c: &mut BitCursor<'_>) -> (r: Result<[u8; 16]>)
    requires
        old(c).wf(),
    ensures
        final(c).wf(),
        final(c).data() == old(c).data(),
        match spec_guid_block(old(c).data(), old(c).pos()) {
            Ok((g, p)) => r matches Ok(a) && a@ == g && final(c).pos() == p,
            Err(e) => r == Err::<[u8; 16], Error>(e),
        },
{
    proof {
        reveal(spec_guid_block);
    }
    let _unknown_a = c.read_b()?;
    let _unknown_b = c.read_bb()?;
    let _unknown_c = c.read_bb()?;
    let _unknown_d = c.read_bb()?;
    let ghost p4 = c.pos();
    let bytes = read_rc_vec(c, 16)?;
    proof {
        crate::entities::three_d_solid::lemma_rc_seq_advances(c.data(), p4, 16);
    }
    let mut guid = [0u8; 16];
    let mut i: usize = 0;
    while i < 16
        invariant
            0 <= i <= 16,
            bytes@.len() == 16,
            forall|j: int| 0 <= j < i ==> guid@[j] == bytes@[j],
        decreases 16 - i,
    {
        guid[i] = bytes[i];
        i += 1;
    }
    assert(guid@ =~= bytes@);
    let _unknown_e = c.read_bl()?;
    Ok(guid)
}

/// The whole record: the envelope (none on a data-store record), the
/// wireframe block, the rest of the tail, and on a data-store record
/// the GUID block.
pub open spec fn spec_decode_record(b: Seq<u8>, p: int, version: Version, in_data_store: bool) -> core::result::Result<(ModelerRecordView, int), Error> {
    let blob = if in_data_store {
        Ok((SatBlobView { empty: true, version: 0, bytes: Seq::empty() }, p))
    } else {
        spec_decode_sat_blob(b, p)
    };
    match blob {
        Err(e) => Err(e),
        Ok((blob, p1)) => match spec_wireframe(b, p1) {
            Err(e) => Err(e),
            Ok(((present, point, iso, iso_present, nw, ns), p2)) => match spec_after_wireframe(
                b,
                p2,
                version,
            ) {
                Err(e) => Err(e),
                Ok((empty2, p3)) => {
                    let guid = if in_data_store {
                        match spec_guid_block(b, p3) {
                            Err(e) => Err(e),
                            Ok((g, p4)) => Ok((Some(g), p4)),
                        }
                    } else {
                        Ok((None, p3))
                    };
                    match guid {
                        Err(e) => Err(e),
                        Ok((revision_guid, p4)) => Ok(
                            (
                                ModelerRecordView {
                                    blob,
                                    in_data_store,
                                    tail: ModelerTailView {
                                        wireframe_present: present,
                                        point,
                                        num_isolines: iso,
                                        isolines_present: iso_present,
                                        num_wires: nw,
                                        num_silhouettes: ns,
                                        acis_empty_2: empty2,
                                        revision_guid,
                                    },
                                },
                                p4,
                            ),
                        ),
                    }
                },
            },
        },
    }
}

/// The message of the refusal that ends a whole record, if one does:
/// that of an envelope, or of a count outside `0..=65536`, which names
/// the count and the value read.
pub open spec fn spec_record_refusal(b: Seq<u8>, p: int, in_data_store: bool) -> Option<Seq<char>> {
    let blob = if in_data_store {
        Ok((SatBlobView { empty: true, version: 0, bytes: Seq::empty() }, p))
    } else {
        spec_decode_sat_blob(b, p)
    };
    match blob {
        Err(_) => spec_sat_blob_refusal(b, p),
        Ok((_, p1)) => match spec_wireframe(b, p1) {
            Err(_) => spec_wireframe_refusal(b, p1),
            Ok((_, p2)) => spec_after_wireframe_refusal(b, p2),
        },
    }
}

/// Read a whole ACIS record. A refused envelope or a count outside
/// `0..=65536` gives a message that names what was refused.
#[verifier::rlimit(30)]
pub fn decode_record(c: &mut BitCursor<'_>, version: Version, in_data_store: bool) -> (r: Result<ModelerRecord>)
    requires
        old(c).wf(),
    ensures
        final(c).wf(),
        final(c).data() == old(c).data(),
        spec_outcome_view(r, final(c).pos(), spec_decode_record(old(c).data(), old(c).pos(), version, in_data_store)),
        spec_record_refusal(old(c).data(), old(c).pos(), in_data_store) matches Some(t) ==> (r matches Err(
            Error::SectionMap(m),
        ) && m@ == t),
{
    let blob = if in_data_store {
        SatBlob { empty: true, version: 0, bytes: Vec::new() }
    } else {
        decode_sat_blob(c)?
    };
    let (wireframe_present, point, num_isolines, isolines_present, num_wires, num_silhouettes) =
        decode_wireframe(c)?;
    let acis_empty_2 = decode_after_wireframe(c, version)?;
    let revision_guid = if in_data_store {
        let g = decode_guid_block(c)?;
        Some(g)
    } else {
        None
    };
    Ok(ModelerRecord {
        blob,
        in_data_store,
        tail: ModelerTail {
            wireframe_present,
            point,
            num_isolines,
            isolines_present,
            num_wires,
            num_silhouettes,
            acis_empty_2,
            revision_guid,
        },
    })
}

} // verus!
