//! MLINE entity: a multiline, several parallel lines along one vertex
//! path, each line carrying its own segment and area-fill parameters
//! at each vertex.
//!
//! ```text
//! BD    scale_factor
//! RC    justification
//! BD3   scale_point
//! BD3   extrusion
//! BS    open_closed_flags
//! BS    num_lines
//! BS    num_verts
//! per vertex:
//!   BD3 vertex_point, BD3 segment_direction, BD3 miter_direction
//!   per line:
//!     BS count, BD × count    -- segment parameters
//!     BS count, BD × count    -- area-fill parameters
//! ```
//!
//! Negative counts are refused, and so are counts past the caps or
//! past what the bits left could hold.
use vstd::prelude::*;

use crate::bitcursor::{spec_read_bd, spec_read_bs, spec_read_rc, BitCursor};
use crate::entities::spline::{read_bd_vec, spec_read_bd_seq};
use crate::entities::{read_bd3, spec_outcome_view, spec_read_bd3, spec_rejected, Point3D, Vec3D};
use crate::error::{Error, Result};
use crate::header::concat_text;
use crate::text::{push_decimal, push_signed_decimal, spec_decimal_digits, spec_signed_decimal, with_decimal};

verus! {

/// Cap on the number of parallel lines.
pub const CAP_LINES: usize = 1024;

/// Cap on the number of vertices.
pub const CAP_VERTS: usize = 100000;

/// Cap on the segment parameters of one sub-record.
pub const CAP_SEGMENT_PARAMS: usize = 1024;

/// Cap on the area-fill parameters of one sub-record.
pub const CAP_AREA_FILL_PARAMS: usize = 1024;

/// Justification type; codes past 2 pass through as `Unknown`.
#[derive(Debug, Clone, Copy, PartialEq, Eq, Structural)]
pub enum Justification {
    Top,
    Zero,
    Bottom,
    Unknown(u8),
}

/// The justification a code names.
pub open spec fn spec_justification(code: u8) -> Justification {
    if code == 0 {
        Justification::Top
    } else if code == 1 {
        Justification::Zero
    } else if code == 2 {
        Justification::Bottom
    } else {
        Justification::Unknown(code)
    }
}

impl Justification {
    pub fn from_code(code: u8) -> (j: Justification)
        ensures
            j == spec_justification(code),
    {
        match code {
            0 => Justification::Top,
            1 => Justification::Zero,
            2 => Justification::Bottom,
            other => Justification::Unknown(other),
        }
    }
}

/// Per-line sub-record at one vertex; doubles are bit patterns.
#[derive(Debug, Clone, PartialEq, Eq)]
pub struct MlineVertexSubrecord {
    pub segment_parameters: Vec<u64>,
    pub area_fill_parameters: Vec<u64>,
}

/// One vertex along the MLINE path.
#[derive(Debug, Clone, PartialEq, Eq)]
pub struct MlineVertex {
    pub vertex_point: Point3D,
    pub segment_direction: Vec3D,
    pub miter_direction: Vec3D,
    /// One sub-record per line.
    pub sub_records: Vec<MlineVertexSubrecord>,
}

/// Fully-decoded MLINE entity.
#[derive(Debug, Clone, PartialEq, Eq)]
pub struct MLine {
    pub scale_factor: u64,
    pub justification: Justification,
    pub scale_point: Point3D,
    pub extrusion: Vec3D,
    pub open_closed_flags: i16,
    pub num_lines: u16,
    pub vertices: Vec<MlineVertex>,
}

pub struct MlineVertexSubrecordView {
    pub segment_parameters: Seq<u64>,
    pub area_fill_parameters: Seq<u64>,
}

pub struct MlineVertexView {
    pub vertex_point: Point3D,
    pub segment_direction: Vec3D,
    pub miter_direction: Vec3D,
    pub sub_records: Seq<MlineVertexSubrecordView>,
}

pub struct MLineView {
    pub scale_factor: u64,
    pub justification: Justification,
    pub scale_point: Point3D,
    pub extrusion: Vec3D,
    pub open_closed_flags: i16,
    pub num_lines: u16,
    pub vertices: Seq<MlineVertexView>,
}

impl View for MlineVertexSubrecord {
    type V = MlineVertexSubrecordView;

    open spec fn view(&self) -> MlineVertexSubrecordView {
        MlineVertexSubrecordView {
            segment_parameters: self.segment_parameters@,
            area_fill_parameters: self.area_fill_parameters@,
        }
    }
}

impl View for MlineVertex {
    type V = MlineVertexView;

    open spec fn view(&self) -> MlineVertexView {
        MlineVertexView {
            vertex_point: self.vertex_point,
            segment_direction: self.segment_direction,
            miter_direction: self.miter_direction,
            sub_records: self.sub_records@.map_values(|s: MlineVertexSubrecord| s@),
        }
    }
}

impl View for MLine {
    type V = MLineView;

    open spec fn view(&self) -> MLineView {
        MLineView {
            scale_factor: self.scale_factor,
            justification: self.justification,
            scale_point: self.scale_point,
            extrusion: self.extrusion,
            open_closed_flags: self.open_closed_flags,
            num_lines: self.num_lines,
            vertices: self.vertices@.map_values(|v: MlineVertex| v@),
        }
    }
}

/// A `BS` count and that many `BD`s; the count is refused when
/// negative, over `cap`, or when twice it exceeds the bits left.
pub open spec fn spec_param_list(b: Seq<u8>, p: int, cap: usize) -> core::result::Result<(Seq<u64>, int), Error> {
    match spec_read_bs(b, p) {
        Err(e) => Err(e),
        Ok((n, p1)) => if n < 0 || n > cap || n * 2 > b.len() * 8 - p1 {
            Err(spec_rejected())
        } else {
            spec_read_bd_seq(b, p1, n as nat)
        },
    }
}

/// The message of the refusal of the `kind` parameter count read at
/// `p`, when it is refused: the count, and the cap and the bits left
/// when it is not negative.
pub open spec fn spec_param_refusal(b: Seq<u8>, p: int, cap: usize, kind: Seq<char>) -> Option<Seq<char>> {
    match spec_read_bs(b, p) {
        Err(_) => None,
        Ok((n, p1)) => if n < 0 {
            Some("MLINE negative "@ + kind + " parameter count "@ + spec_signed_decimal(n as int))
        } else if n > cap || n * 2 > b.len() * 8 - p1 {
            Some(
                "MLINE "@ + kind + " param count "@ + spec_decimal_digits(n as nat) + " exceeds cap ("@
                    + spec_decimal_digits(cap as nat) + " or remaining_bits "@ + spec_decimal_digits(
                    (b.len() * 8 - p1) as nat,
                ) + ")"@,
            )
        } else {
            None
        },
    }
}

fn read_param_list(c: &mut BitCursor<'_>, cap: usize, kind: &str) -> (r: Result<Vec<u64>>)
    requires
        old(c).wf(),
        cap <= 1024,
    ensures
        final(c).wf(),
        final(c).data() == old(c).data(),
        spec_outcome_view(r, final(c).pos(), spec_param_list(old(c).data(), old(c).pos(), cap)),
        spec_param_refusal(old(c).data(), old(c).pos(), cap, kind@) matches Some(t) ==> (r matches Err(
            Error::SectionMap(m),
        ) && m@ == t),
{
    let n = c.read_bs()?;
    if n < 0 {
        let head = concat_text("MLINE negative ", kind);
        let mut m = concat_text(head.as_str(), " parameter count ");
        push_signed_decimal(&mut m, n as i64);
        return Err(Error::SectionMap(m));
    }
    let count = n as usize;
    let remaining = c.remaining_bits();
    if count > cap || count * 2 > remaining {
        let head = concat_text("MLINE ", kind);
        let mut m = concat_text(head.as_str(), " param count ");
        push_decimal(&mut m, count as u64);
        let mut m = concat_text(m.as_str(), " exceeds cap (");
        push_decimal(&mut m, cap as u64);
        let mut m = concat_text(m.as_str(), " or remaining_bits ");
        push_decimal(&mut m, remaining as u64);
        return Err(Error::SectionMap(concat_text(m.as_str(), ")")));
    }
    read_bd_vec(c, count)
}

/// One per-line sub-record.
#[verifier::opaque]
pub open spec fn spec_subrecord(b: Seq<u8>, p: int) -> core::result::Result<(MlineVertexSubrecordView, int), Error> {
    match spec_param_list(b, p, CAP_SEGMENT_PARAMS) {
        Err(e) => Err(e),
        Ok((seg, p1)) => match spec_param_list(b, p1, CAP_AREA_FILL_PARAMS) {
            Err(e) => Err(e),
            Ok((af, p2)) => Ok(
                (MlineVertexSubrecordView { segment_parameters: seg, area_fill_parameters: af }, p2),
            ),
        },
    }
}

fn read_subrecord(c: &mut BitCursor<'_>) -> (r: Result<MlineVertexSubrecord>)
    requires
        old(c).wf(),
    ensures
        final(c).wf(),
        final(c).data() == old(c).data(),
        spec_outcome_view(r, final(c).pos(), spec_subrecord(old(c).data(), old(c).pos())),
{
    proof {
        reveal(spec_subrecord);
    }
    let segment_parameters = read_param_list(c, CAP_SEGMENT_PARAMS, "segment")?;
    let area_fill_parameters = read_param_list(c, CAP_AREA_FILL_PARAMS, "area-fill")?;
    Ok(MlineVertexSubrecord { segment_parameters, area_fill_parameters })
}

/// `n` sub-records.
pub open spec fn spec_subrecords(b: Seq<u8>, p: int, n: nat) -> core::result::Result<(Seq<MlineVertexSubrecordView>, int), Error>
    decreases n,
{
    if n == 0 {
        Ok((Seq::empty(), p))
    } else {
        match spec_subrecords(b, p, (n - 1) as nat) {
            Err(e) => Err(e),
            Ok((s, p1)) => match spec_subrecord(b, p1) {
                Err(e) => Err(e),
                Ok((x, p2)) => Ok((s.push(x), p2)),
            },
        }
    }
}

proof fn lemma_subrecords_error(b: Seq<u8>, p: int, i: nat, n: nat, e: Error)
    requires
        i < n,
        spec_subrecords(b, p, (i + 1) as nat) == Err::<(Seq<MlineVertexSubrecordView>, int), Error>(e),
    ensures
        spec_subrecords(b, p, n) == Err::<(Seq<MlineVertexSubrecordView>, int), Error>(e),
    decreases n,
{
    if n > i + 1 {
        lemma_subrecords_error(b, p, i, (n - 1) as nat, e);
    }
}

fn read_subrecords(c: &mut BitCursor<'_>, n: usize) -> (r: Result<Vec<MlineVertexSubrecord>>)
    requires
        old(c).wf(),
    ensures
        final(c).wf(),
        final(c).data() == old(c).data(),
        match spec_subrecords(old(c).data(), old(c).pos(), n as nat) {
            Ok((s, p)) => r matches Ok(v) && v@.map_values(|x: MlineVertexSubrecord| x@) == s
                && final(c).pos() == p,
            Err(Error::SectionMap(_)) => r matches Err(Error::SectionMap(_)),
            Err(Error::Unsupported { .. }) => r matches Err(Error::Unsupported { .. }),
            Err(e) => r matches Err(x) && x == e,
        },
{
    let ghost p0 = c.pos();
    let mut out: Vec<MlineVertexSubrecord> = Vec::new();
    assert(out@.map_values(|x: MlineVertexSubrecord| x@) =~= Seq::<MlineVertexSubrecordView>::empty());
    let mut i: usize = 0;
    while i < n
        invariant
            c.wf(),
            c.data() == old(c).data(),
            p0 == old(c).pos(),
            0 <= i <= n,
            spec_subrecords(c.data(), p0, i as nat) == Ok::<(Seq<MlineVertexSubrecordView>, int), Error>(
                (out@.map_values(|x: MlineVertexSubrecord| x@), c.pos()),
            ),
        decreases n - i,
    {
        let ghost data = c.data();
        let ghost before = out@;
        let rs = read_subrecord(c);
        proof {
            if rs is Err {
                let o = spec_subrecord(data, spec_subrecords(data, p0, i as nat)->Ok_0.1);
                lemma_subrecords_error(data, p0, i as nat, n as nat, o->Err_0);
            }
        }
        let s = rs?;
        out.push(s);
        proof {
            assert(out@.map_values(|x: MlineVertexSubrecord| x@) =~= before.map_values(
                |x: MlineVertexSubrecord| x@,
            ).push(s@));
        }
        i += 1;
    }
    Ok(out)
}

/// One vertex: three `3BD`s and `num_lines` sub-records.
#[verifier::opaque]
pub open spec fn spec_vertex(b: Seq<u8>, p: int, num_lines: nat) -> core::result::Result<(MlineVertexView, int), Error> {
    match spec_read_bd3(b, p) {
        Err(e) => Err(e),
        Ok((vp, p1)) => match spec_read_bd3(b, p1) {
            Err(e) => Err(e),
            Ok((sd, p2)) => match spec_read_bd3(b, p2) {
                Err(e) => Err(e),
                Ok((md, p3)) => match spec_subrecords(b, p3, num_lines) {
                    Err(e) => Err(e),
                    Ok((subs, p4)) => Ok(
                        (
                            MlineVertexView {
                                vertex_point: vp,
                                segment_direction: sd,
                                miter_direction: md,
                                sub_records: subs,
                            },
                            p4,
                        ),
                    ),
                },
            },
        },
    }
}

fn read_vertex(c: &mut BitCursor<'_>, num_lines: usize) -> (r: Result<MlineVertex>)
    requires
        old(c).wf(),
    ensures
        final(c).wf(),
        final(c).data() == old(c).data(),
        spec_outcome_view(r, final(c).pos(), spec_vertex(old(c).data(), old(c).pos(), num_lines as nat)),
{
    proof {
        reveal(spec_vertex);
    }
    let vertex_point = read_bd3(c)?;
    let segment_direction = read_bd3(c)?;
    let miter_direction = read_bd3(c)?;
    let sub_records = read_subrecords(c, num_lines)?;
    Ok(MlineVertex { vertex_point, segment_direction, miter_direction, sub_records })
}

/// `n` vertices of `num_lines` sub-records each.
pub open spec fn spec_vertices(b: Seq<u8>, p: int, n: nat, num_lines: nat) -> core::result::Result<(Seq<MlineVertexView>, int), Error>
    decreases n,
{
    if n == 0 {
        Ok((Seq::empty(), p))
    } else {
        match spec_vertices(b, p, (n - 1) as nat, num_lines) {
            Err(e) => Err(e),
            Ok((s, p1)) => match spec_vertex(b, p1, num_lines) {
                Err(e) => Err(e),
                Ok((x, p2)) => Ok((s.push(x), p2)),
            },
        }
    }
}

proof fn lemma_vertices_error(b: Seq<u8>, p: int, i: nat, n: nat, num_lines: nat, e: Error)
    requires
        i < n,
        spec_vertices(b, p, (i + 1) as nat, num_lines) == Err::<(Seq<MlineVertexView>, int), Error>(e),
    ensures
        spec_vertices(b, p, n, num_lines) == Err::<(Seq<MlineVertexView>, int), Error>(e),
    decreases n,
{
    if n > i + 1 {
        lemma_vertices_error(b, p, i, (n - 1) as nat, num_lines, e);
    }
}

fn read_vertices(c: &mut BitCursor<'_>, n: usize, num_lines: usize) -> (r: Result<Vec<MlineVertex>>)
    requires
        old(c).wf(),
    ensures
        final(c).wf(),
        final(c).data() == old(c).data(),
        match spec_vertices(old(c).data(), old(c).pos(), n as nat, num_lines as nat) {
            Ok((s, p)) => r matches Ok(v) && v@.map_values(|x: MlineVertex| x@) == s && final(c).pos()
                == p,
            Err(Error::SectionMap(_)) => r matches Err(Error::SectionMap(_)),
            Err(Error::Unsupported { .. }) => r matches Err(Error::Unsupported { .. }),
            Err(e) => r matches Err(x) && x == e,
        },
{
    let ghost p0 = c.pos();
    let mut out: Vec<MlineVertex> = Vec::new();
    assert(out@.map_values(|x: MlineVertex| x@) =~= Seq::<MlineVertexView>::empty());
    let mut i: usize = 0;
    while i < n
        invariant
            c.wf(),
            c.data() == old(c).data(),
            p0 == old(c).pos(),
            0 <= i <= n,
            spec_vertices(c.data(), p0, i as nat, num_lines as nat) == Ok::<(Seq<MlineVertexView>, int), Error>(
                (out@.map_values(|x: MlineVertex| x@), c.pos()),
            ),
        decreases n - i,
    {
        let ghost data = c.data();
        let ghost before = out@;
        let rv = read_vertex(c, num_lines);
        proof {
            if rv is Err {
                let o = spec_vertex(data, spec_vertices(data, p0, i as nat, num_lines as nat)->Ok_0.1, num_lines as nat);
                lemma_vertices_error(data, p0, i as nat, n as nat, num_lines as nat, o->Err_0);
            }
        }
        let v = rv?;
        out.push(v);
        proof {
            assert(out@.map_values(|x: MlineVertex| x@) =~= before.map_values(|x: MlineVertex| x@).push(v@));
        }
        i += 1;
    }
    Ok(out)
}

/// The placement: scale factor, justification, scale point, extrusion.
pub open spec fn spec_placement(b: Seq<u8>, p: int) -> core::result::Result<((u64, Justification, Point3D, Vec3D), int), Error> {
    match spec_read_bd(b, p) {
        Err(e) => Err(e),
        Ok((scale, p1)) => match spec_read_rc(b, p1) {
            Err(e) => Err(e),
            Ok((just, p2)) => match spec_read_bd3(b, p2) {
                Err(e) => Err(e),
                Ok((sp, p3)) => match spec_read_bd3(b, p3) {
                    Err(e) => Err(e),
                    Ok((ext, p4)) => Ok(((scale, spec_justification(just), sp, ext), p4)),
                },
            },
        },
    }
}

/// The three `BS`: flags, line count, vertex count.
pub open spec fn spec_counts(b: Seq<u8>, p: int) -> core::result::Result<((i16, i16, i16), int), Error> {
    match spec_read_bs(b, p) {
        Err(e) => Err(e),
        Ok((flags, p1)) => match spec_read_bs(b, p1) {
            Err(e) => Err(e),
            Ok((nl, p2)) => match spec_read_bs(b, p2) {
                Err(e) => Err(e),
                Ok((nv, p3)) => Ok(((flags, nl, nv), p3)),
            },
        },
    }
}

#[verifier::rlimit(40)]
fn read_placement(c: &mut BitCursor<'_>) -> (r: Result<(u64, Justification, Point3D, Vec3D)>)
    requires
        old(c).wf(),
    ensures
        final(c).wf(),
        final(c).data() == old(c).data(),
        match spec_placement(old(c).data(), old(c).pos()) {
            Ok((v, p)) => r == Ok::<(u64, Justification, Point3D, Vec3D), Error>(v) && final(c).pos() == p,
            Err(e) => r == Err::<(u64, Justification, Point3D, Vec3D), Error>(e),
        },
{
    let scale_factor = c.read_bd()?;
    let code = c.read_rc()?;
    let justification = Justification::from_code(code);
    let scale_point = read_bd3(c)?;
    let extrusion = read_bd3(c)?;
    Ok((scale_factor, justification, scale_point, extrusion))
}

fn read_counts(c: &mut BitCursor<'_>) -> (r: Result<(i16, i16, i16)>)
    requires
        old(c).wf(),
    ensures
        final(c).wf(),
        final(c).data() == old(c).data(),
        match spec_counts(old(c).data(), old(c).pos()) {
            Ok((v, p)) => r == Ok::<(i16, i16, i16), Error>(v) && final(c).pos() == p,
            Err(e) => r == Err::<(i16, i16, i16), Error>(e),
        },
{
    let open_closed_flags = c.read_bs()?;
    let num_lines = c.read_bs()?;
    let num_verts = c.read_bs()?;
    Ok((open_closed_flags, num_lines, num_verts))
}

/// The whole MLINE payload.
pub open spec fn spec_decode(b: Seq<u8>, p: int) -> core::result::Result<(MLineView, int), Error> {
    match spec_placement(b, p) {
        Err(e) => Err(e),
        Ok(((scale, just, sp, ext), p0)) => match spec_counts(b, p0) {
        Err(e) => Err(e),
        Ok(((flags, nl, nv), p1)) => if nl < 0 || nv < 0 {
            Err(spec_rejected())
        } else if nl > CAP_LINES || nv > CAP_VERTS || nv * 18 > b.len() * 8 - p1 {
            Err(spec_rejected())
        } else {
            match spec_vertices(b, p1, nv as nat, nl as nat) {
                Err(e) => Err(e),
                Ok((vertices, p2)) => Ok(
                    (
                        MLineView {
                            scale_factor: scale,
                            justification: just,
                            scale_point: sp,
                            extrusion: ext,
                            open_closed_flags: flags,
                            num_lines: nl as u16,
                            vertices,
                        },
                        p2,
                    ),
                ),
            }
        },
        },
    }
}

/// The message of the refusal of the line and vertex counts, when the
/// payload is refused for them: both counts, and the bits left when
/// neither is negative.
pub open spec fn spec_counts_refusal(b: Seq<u8>, p: int) -> Option<Seq<char>> {
    match spec_placement(b, p) {
        Err(_) => None,
        Ok((_, p0)) => match spec_counts(b, p0) {
            Err(_) => None,
            Ok(((_, nl, nv), p1)) => if nl < 0 || nv < 0 {
                Some(
                    "MLINE negative counts (lines="@ + spec_signed_decimal(nl as int) + ", verts="@
                        + spec_signed_decimal(nv as int) + ")"@,
                )
            } else if nl > CAP_LINES || nv > CAP_VERTS || nv * 18 > b.len() * 8 - p1 {
                Some(
                    "MLINE implausible counts (lines="@ + spec_decimal_digits(nl as nat) + ", verts="@
                        + spec_decimal_digits(nv as nat) + "; remaining_bits="@ + spec_decimal_digits(
                        (b.len() * 8 - p1) as nat,
                    ) + ")"@,
                )
            } else {
                None
            },
        },
    }
}

/// Decode an MLINE payload.
pub fn decode(c: &mut BitCursor<'_>) -> (r: Result<MLine>)
    requires
        old(c).wf(),
    ensures
        final(c).wf(),
        final(c).data() == old(c).data(),
        spec_outcome_view(r, final(c).pos(), spec_decode(old(c).data(), old(c).pos())),
        spec_counts_refusal(old(c).data(), old(c).pos()) matches Some(t) ==> (r matches Err(
            Error::SectionMap(m),
        ) && m@ == t),
{
    let (scale_factor, justification, scale_point, extrusion) = read_placement(c)?;
    let (open_closed_flags, nl, nv) = read_counts(c)?;
    if nl < 0 || nv < 0 {
        let mut m = "MLINE negative counts (lines=".to_string();
        push_signed_decimal(&mut m, nl as i64);
        let mut m = concat_text(m.as_str(), ", verts=");
        push_signed_decimal(&mut m, nv as i64);
        return Err(Error::SectionMap(concat_text(m.as_str(), ")")));
    }
    let num_lines = nl as usize;
    let num_verts = nv as usize;
    let remaining = c.remaining_bits();
    if num_lines > CAP_LINES || num_verts > CAP_VERTS || num_verts * 18 > remaining {
        let m = with_decimal("MLINE implausible counts (lines=", num_lines as u64);
        let mut m = concat_text(m.as_str(), ", verts=");
        push_decimal(&mut m, num_verts as u64);
        let mut m = concat_text(m.as_str(), "; remaining_bits=");
        push_decimal(&mut m, remaining as u64);
        return Err(Error::SectionMap(concat_text(m.as_str(), ")")));
    }
    let vertices = read_vertices(c, num_verts, num_lines)?;
    Ok(MLine {
        scale_factor,
        justification,
        scale_point,
        extrusion,
        open_closed_flags,
        num_lines: num_lines as u16,
        vertices,
    })
}

} // verus!
