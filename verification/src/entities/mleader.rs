//! MULTILEADER entity body (R2010+): the embedded annotation context
//! with its leader roots, leader lines and text or block content, then
//! the style block.
//!
//! ```text
//! BS   class_version
//! BL   root count, then per root:
//!        B content_valid, B unknown, 3BD connection, 3BD direction,
//!        BL pair count, (3BD, 3BD) × count, BL index, BD landing,
//!        BL line count, then per line:
//!          BL point count, 3BD × count,
//!          BL break count, per break: BL segment, BL pair count,
//!            (3BD, 3BD) × count (passed over),
//!          BL index, BS type, CMC colour, BL weight, BD arrow size,
//!          BL override flags
//!        BS attachment direction
//! BD scale, 3BD base point, BD text height, BD arrow size, BD gap,
//! BS × 4 attachments and alignment,
//! B has_text: TV label (string stream), 3BD normal, 3BD location,
//!   3BD direction, BD × 4, BS, CMC, BS, BS, CMC, BD, BL, B, B, BS, B,
//!   BD, BD, B, BL size count, BD × count, B, B
//! else B has_block: 3BD × 3, BD, CMC, BD × 16
//! 3BD × 3, B, BS, BS
//! BL overrides, BS type, CMC, BL weight, B, B, BD, BD, BS content,
//! BS × 4, CMC, B, CMC, 3BD scale, BD rotation, BS attachment,
//! B annotative, MC, B, BS × 3, and from R2013 B
//! ```
//!
//! Object references (`H`) live in the record's handle stream and take
//! no data bits; each is a null handle here. Text (`TV`) comes from
//! the string stream, read through a second cursor. A list count is
//! refused over its cap or over the data bits left.
use vstd::prelude::*;

use crate::bitcursor::{
    spec_read_b, spec_read_bd, spec_read_bl, spec_read_bl_u, spec_read_bs, spec_read_mc, spec_read_rc, BitCursor, Handle,
};
use crate::entities::spline::{read_bd_vec, spec_read_bd_seq};
use crate::entities::{read_bd3, read_tv, spec_outcome_view, spec_read_bd3, spec_read_tv, spec_rejected, Point3D, Vec3D};
use crate::error::{Error, Result};
use crate::header::concat_text;
use crate::text::{push_decimal, spec_decimal_digits};
use crate::version::Version;

verus! {

/// Cap on the leader roots of one context.
pub const MAX_LEADER_ROOTS: usize = 256;

/// Cap on the leader lines of one root.
pub const MAX_LEADER_LINES: usize = 1024;

/// Cap on the points of one leader line.
pub const MAX_LEADER_POINTS: usize = 10000;

/// Cap on break groups and break point pairs.
pub const MAX_BREAK_PAIRS: usize = 1024;

/// Cap on the column sizes of the text content.
pub const MAX_COLUMN_SIZES: usize = 256;

/// Two cursors that read the same bytes as before and are well formed.
pub open spec fn spec_cursors(c0: BitCursor, c1: BitCursor, s0: BitCursor, s1: BitCursor) -> bool {
    &&& c1.wf()
    &&& s1.wf()
    &&& c1.data() == c0.data()
    &&& s1.data() == s0.data()
}

/// `r`, with the data cursor at `p` and the string cursor at `q`, is
/// what `o` says: the value by view and both end positions, or the
/// error (compared by variant where it carries free text).
pub open spec fn spec_outcome2<T: View>(r: Result<T>, p: int, q: int, o: core::result::Result<(T::V, int, int), Error>) -> bool {
    match o {
        Ok((v, a, b)) => r matches Ok(x) && x@ == v && p == a && q == b,
        Err(Error::SectionMap(_)) => r matches Err(Error::SectionMap(_)),
        Err(Error::Unsupported { .. }) => r matches Err(Error::Unsupported { .. }),
        Err(e) => r matches Err(x) && x == e,
    }
}

/// A null handle: what an `H` slot holds, its reference being in the
/// handle stream.
pub open spec fn spec_null_handle() -> Handle {
    Handle { code: 0, counter: 0, value: 0 }
}

fn null_handle() -> (h: Handle)
    ensures
        h == spec_null_handle(),
{
    Handle { code: 0, counter: 0, value: 0 }
}

/// A count is accepted at most `cap` and at most the bits left after
/// it.
pub open spec fn spec_count_ok(n: u32, cap: usize, b: Seq<u8>, p: int) -> bool {
    n <= cap && n <= b.len() * 8 - p
}

/// The message of the refusal of `n` as the count of `field`.
pub open spec fn spec_count_text(field: Seq<char>, n: usize, cap: usize, remaining_bits: usize) -> Seq<char> {
    "MLEADER "@ + field + " count "@ + spec_decimal_digits(n as nat) + " exceeds cap ("@ + spec_decimal_digits(
        cap as nat,
    ) + ") or remaining_bits ("@ + spec_decimal_digits(remaining_bits as nat) + ")"@
}

/// Refuse a count over `cap` or over `remaining_bits`, naming the
/// field, the count and both bounds.
fn bounds_check(n: usize, field: &str, cap: usize, remaining_bits: usize) -> (r: Result<()>)
    ensures
        r is Ok <==> (n <= cap && n <= remaining_bits),
        r is Err ==> (r matches Err(Error::SectionMap(m)) && m@ == spec_count_text(field@, n, cap, remaining_bits)),
{
    if n > cap || n > remaining_bits {
        let head = concat_text("MLEADER ", field);
        let mut m = concat_text(head.as_str(), " count ");
        push_decimal(&mut m, n as u64);
        let mut m = concat_text(m.as_str(), " exceeds cap (");
        push_decimal(&mut m, cap as u64);
        let mut m = concat_text(m.as_str(), ") or remaining_bits (");
        push_decimal(&mut m, remaining_bits as u64);
        Err(Error::SectionMap(concat_text(m.as_str(), ")")))
    } else {
        Ok(())
    }
}

// ---------------------------------------------------------------- CMC

/// A `CMC` colour: index, RGB word, colour byte, and the colour and
/// book names the byte's low bits ask for.
#[derive(Debug, Clone, PartialEq, Eq)]
pub struct Cmc {
    pub index: i16,
    pub rgb: u32,
    pub color_byte: u8,
    pub name: String,
    pub book_name: String,
}

/// [`Cmc`] with its names as sequences.
pub struct CmcView {
    pub index: i16,
    pub rgb: u32,
    pub color_byte: u8,
    pub name: Seq<char>,
    pub book_name: Seq<char>,
}

impl View for Cmc {
    type V = CmcView;

    open spec fn view(&self) -> CmcView {
        CmcView { index: self.index, rgb: self.rgb, color_byte: self.color_byte, name: self.name@, book_name: self.book_name@ }
    }
}

/// A `TV` from the string stream when `present`, else empty.
pub open spec fn spec_opt_tv(s: Seq<u8>, q: int, present: bool, version: Version) -> core::result::Result<(Seq<char>, int), Error> {
    if present {
        spec_read_tv(s, q, version)
    } else {
        Ok((Seq::empty(), q))
    }
}

/// `BS` index, `BL` RGB, `RC` byte from the data; the names from the
/// strings when bits 0x01 and 0x02 of the byte are set.
pub open spec fn spec_cmc(b: Seq<u8>, p: int, s: Seq<u8>, q: int, version: Version) -> core::result::Result<(CmcView, int, int), Error> {
    match spec_read_bs(b, p) {
        Err(e) => Err(e),
        Ok((index, p1)) => match spec_read_bl_u(b, p1) {
            Err(e) => Err(e),
            Ok((rgb, p2)) => match spec_read_rc(b, p2) {
                Err(e) => Err(e),
                Ok((cb, p3)) => match spec_opt_tv(s, q, cb & 1 != 0, version) {
                    Err(e) => Err(e),
                    Ok((name, q1)) => match spec_opt_tv(s, q1, cb & 2 != 0, version) {
                        Err(e) => Err(e),
                        Ok((book, q2)) => Ok((CmcView { index, rgb, color_byte: cb, name, book_name: book }, p3, q2)),
                    },
                },
            },
        },
    }
}

fn read_opt_tv(strings: &mut BitCursor<'_>, present: bool, version: Version) -> (r: Result<String>)
    requires
        old(strings).wf(),
    ensures
        final(strings).wf(),
        final(strings).data() == old(strings).data(),
        spec_outcome_view(r, final(strings).pos(), spec_opt_tv(old(strings).data(), old(strings).pos(), present, version)),
{
    if present {
        read_tv(strings, version, "MLEADER text is not valid UTF-16")
    } else {
        Ok(String::new())
    }
}

/// Read a `CMC`.
fn read_cmc(c: &mut BitCursor<'_>, strings: &mut BitCursor<'_>, version: Version) -> (r: Result<Cmc>)
    requires
        old(c).wf(),
        old(strings).wf(),
    ensures
        spec_cursors(*old(c), *final(c), *old(strings), *final(strings)),
        spec_outcome2(r, final(c).pos(), final(strings).pos(), spec_cmc(old(c).data(), old(c).pos(), old(strings).data(), old(strings).pos(), version)),
{
    let index = c.read_bs()?;
    let rgb = c.read_bl_u()?;
    let color_byte = c.read_rc()?;
    let name = read_opt_tv(strings, color_byte & 1 != 0, version)?;
    let book_name = read_opt_tv(strings, color_byte & 2 != 0, version)?;
    Ok(Cmc { index, rgb, color_byte, name, book_name })
}

// ---------------------------------------------------------------- point lists

/// `n` `3BD`s in a row.
pub open spec fn spec_read_bd3_seq(b: Seq<u8>, p: int, n: nat) -> core::result::Result<(Seq<Point3D>, int), Error>
    decreases n,
{
    if n == 0 {
        Ok((Seq::empty(), p))
    } else {
        match spec_read_bd3_seq(b, p, (n - 1) as nat) {
            Err(e) => Err(e),
            Ok((s, p1)) => match spec_read_bd3(b, p1) {
                Err(e) => Err(e),
                Ok((x, p2)) => Ok((s.push(x), p2)),
            },
        }
    }
}

/// `n` pairs of `3BD`s in a row.
pub open spec fn spec_read_pairs(b: Seq<u8>, p: int, n: nat) -> core::result::Result<(Seq<(Point3D, Point3D)>, int), Error>
    decreases n,
{
    if n == 0 {
        Ok((Seq::empty(), p))
    } else {
        match spec_read_pairs(b, p, (n - 1) as nat) {
            Err(e) => Err(e),
            Ok((s, p1)) => match spec_read_bd3(b, p1) {
                Err(e) => Err(e),
                Ok((x, p2)) => match spec_read_bd3(b, p2) {
                    Err(e) => Err(e),
                    Ok((y, p3)) => Ok((s.push((x, y)), p3)),
                },
            },
        }
    }
}

proof fn lemma_bd3_seq_error(b: Seq<u8>, p: int, i: nat, n: nat, e: Error)
    requires
        i < n,
        spec_read_bd3_seq(b, p, (i + 1) as nat) == Err::<(Seq<Point3D>, int), Error>(e),
    ensures
        spec_read_bd3_seq(b, p, n) == Err::<(Seq<Point3D>, int), Error>(e),
    decreases n,
{
    if n > i + 1 {
        lemma_bd3_seq_error(b, p, i, (n - 1) as nat, e);
    }
}

proof fn lemma_pairs_error(b: Seq<u8>, p: int, i: nat, n: nat, e: Error)
    requires
        i < n,
        spec_read_pairs(b, p, (i + 1) as nat) == Err::<(Seq<(Point3D, Point3D)>, int), Error>(e),
    ensures
        spec_read_pairs(b, p, n) == Err::<(Seq<(Point3D, Point3D)>, int), Error>(e),
    decreases n,
{
    if n > i + 1 {
        lemma_pairs_error(b, p, i, (n - 1) as nat, e);
    }
}

fn read_bd3_vec(c: &mut BitCursor<'_>, n: usize) -> (r: Result<Vec<Point3D>>)
    requires
        old(c).wf(),
    ensures
        final(c).wf(),
        final(c).data() == old(c).data(),
        match spec_read_bd3_seq(old(c).data(), old(c).pos(), n as nat) {
            Ok((s, p)) => r matches Ok(v) && v@ == s && final(c).pos() == p,
            Err(e) => r == Err::<Vec<Point3D>, Error>(e),
        },
{
    let ghost p0 = c.pos();
    let mut out: Vec<Point3D> = Vec::new();
    let mut i: usize = 0;
    while i < n
        invariant
            c.wf(),
            c.data() == old(c).data(),
            p0 == old(c).pos(),
            0 <= i <= n,
            spec_read_bd3_seq(c.data(), p0, i as nat) == Ok::<(Seq<Point3D>, int), Error>((out@, c.pos())),
        decreases n - i,
    {
        let ghost data = c.data();
        let rp = read_bd3(c);
        proof {
            if rp is Err {
                lemma_bd3_seq_error(data, p0, i as nat, n as nat, rp->Err_0);
            }
        }
        let pt = rp?;
        out.push(pt);
        i += 1;
    }
    Ok(out)
}

fn read_pairs_vec(c: &mut BitCursor<'_>, n: usize) -> (r: Result<Vec<(Point3D, Point3D)>>)
    requires
        old(c).wf(),
    ensures
        final(c).wf(),
        final(c).data() == old(c).data(),
        match spec_read_pairs(old(c).data(), old(c).pos(), n as nat) {
            Ok((s, p)) => r matches Ok(v) && v@ == s && final(c).pos() == p,
            Err(e) => r == Err::<Vec<(Point3D, Point3D)>, Error>(e),
        },
{
    let ghost p0 = c.pos();
    let mut out: Vec<(Point3D, Point3D)> = Vec::new();
    let mut i: usize = 0;
    while i < n
        invariant
            c.wf(),
            c.data() == old(c).data(),
            p0 == old(c).pos(),
            0 <= i <= n,
            spec_read_pairs(c.data(), p0, i as nat) == Ok::<(Seq<(Point3D, Point3D)>, int), Error>((out@, c.pos())),
        decreases n - i,
    {
        let ghost data = c.data();
        let ghost mid = c.pos();
        let rx = read_bd3(c);
        proof {
            if rx is Err {
                lemma_pairs_error(data, p0, i as nat, n as nat, rx->Err_0);
            }
        }
        let x = rx?;
        let ry = read_bd3(c);
        proof {
            if ry is Err {
                lemma_pairs_error(data, p0, i as nat, n as nat, ry->Err_0);
            }
        }
        let y = ry?;
        out.push((x, y));
        i += 1;
    }
    Ok(out)
}

// ---------------------------------------------------------------- leader lines

/// One break group of a leader line, passed over: segment index, pair
/// count (checked), the pairs.
#[verifier::opaque]
pub open spec fn spec_break_group(b: Seq<u8>, p: int) -> core::result::Result<int, Error> {
    match spec_read_bl(b, p) {
        Err(e) => Err(e),
        Ok((_segment, p1)) => match spec_read_bl_u(b, p1) {
            Err(e) => Err(e),
            Ok((n, p2)) => if !spec_count_ok(n, MAX_BREAK_PAIRS, b, p2) {
                Err(spec_rejected())
            } else {
                match spec_read_pairs(b, p2, n as nat) {
                    Err(e) => Err(e),
                    Ok((_, p3)) => Ok(p3),
                }
            },
        },
    }
}

/// `n` break groups in a row.
pub open spec fn spec_break_groups(b: Seq<u8>, p: int, n: nat) -> core::result::Result<int, Error>
    decreases n,
{
    if n == 0 {
        Ok(p)
    } else {
        match spec_break_groups(b, p, (n - 1) as nat) {
            Err(e) => Err(e),
            Ok(p1) => spec_break_group(b, p1),
        }
    }
}

proof fn lemma_break_groups_error(b: Seq<u8>, p: int, i: nat, n: nat, e: Error)
    requires
        i < n,
        spec_break_groups(b, p, (i + 1) as nat) == Err::<int, Error>(e),
    ensures
        spec_break_groups(b, p, n) == Err::<int, Error>(e),
    decreases n,
{
    if n > i + 1 {
        lemma_break_groups_error(b, p, i, (n - 1) as nat, e);
    }
}

fn skip_break_group(c: &mut BitCursor<'_>) -> (r: Result<()>)
    requires
        old(c).wf(),
    ensures
        final(c).wf(),
        final(c).data() == old(c).data(),
        match spec_break_group(old(c).data(), old(c).pos()) {
            Ok(p) => r is Ok && final(c).pos() == p,
            Err(Error::SectionMap(_)) => r matches Err(Error::SectionMap(_)),
            Err(e) => r == Err::<(), Error>(e),
        },
{
    reveal(spec_break_group);
    let _segment = c.read_bl()?;
    let n = c.read_bl_u()? as usize;
    bounds_check(n, "leader-line break pairs", MAX_BREAK_PAIRS, c.remaining_bits())?;
    let _pairs = read_pairs_vec(c, n)?;
    Ok(())
}

/// The points, then the break groups, of a leader line.
pub open spec fn spec_line_geometry(b: Seq<u8>, p: int) -> core::result::Result<(Seq<Point3D>, int), Error> {
    match spec_read_bl_u(b, p) {
        Err(e) => Err(e),
        Ok((n, p1)) => if !spec_count_ok(n, MAX_LEADER_POINTS, b, p1) {
            Err(spec_rejected())
        } else {
            match spec_read_bd3_seq(b, p1, n as nat) {
                Err(e) => Err(e),
                Ok((points, p2)) => match spec_read_bl_u(b, p2) {
                    Err(e) => Err(e),
                    Ok((nb, p3)) => if !spec_count_ok(nb, MAX_BREAK_PAIRS, b, p3) {
                        Err(spec_rejected())
                    } else {
                        match spec_break_groups(b, p3, nb as nat) {
                            Err(e) => Err(e),
                            Ok(p4) => Ok((points, p4)),
                        }
                    },
                },
            }
        },
    }
}

fn read_line_geometry(c: &mut BitCursor<'_>) -> (r: Result<Vec<Point3D>>)
    requires
        old(c).wf(),
    ensures
        final(c).wf(),
        final(c).data() == old(c).data(),
        match spec_line_geometry(old(c).data(), old(c).pos()) {
            Ok((s, p)) => r matches Ok(v) && v@ == s && final(c).pos() == p,
            Err(Error::SectionMap(_)) => r matches Err(Error::SectionMap(_)),
            Err(e) => r == Err::<Vec<Point3D>, Error>(e),
        },
{
    let n = c.read_bl_u()? as usize;
    bounds_check(n, "leader-line points", MAX_LEADER_POINTS, c.remaining_bits())?;
    let points = read_bd3_vec(c, n)?;
    let nb = c.read_bl_u()? as usize;
    bounds_check(nb, "leader-line break info", MAX_BREAK_PAIRS, c.remaining_bits())?;
    let ghost p0 = c.pos();
    let ghost expected = spec_line_geometry(old(c).data(), old(c).pos());
    assert(expected == match spec_break_groups(c.data(), p0, nb as nat) {
        Err(e) => Err(e),
        Ok(p4) => Ok::<(Seq<Point3D>, int), Error>((points@, p4)),
    });
    let mut k: usize = 0;
    while k < nb
        invariant
            c.wf(),
            c.data() == old(c).data(),
            0 <= k <= nb,
            expected == spec_line_geometry(old(c).data(), old(c).pos()),
            expected == match spec_break_groups(c.data(), p0, nb as nat) {
                Err(e) => Err(e),
                Ok(p4) => Ok::<(Seq<Point3D>, int), Error>((points@, p4)),
            },
            spec_break_groups(c.data(), p0, k as nat) == Ok::<int, Error>(c.pos()),
        decreases nb - k,
    {
        let ghost data = c.data();
        let ghost before = c.pos();
        let rg = skip_break_group(c);
        proof {
            assert(spec_break_groups(data, p0, (k + 1) as nat) == spec_break_group(data, before));
            if rg is Err {
                let e2 = spec_break_group(data, before)->Err_0;
                lemma_break_groups_error(data, p0, k as nat, nb as nat, e2);
            }
        }
        rg?;
        k += 1;
    }
    Ok(points)
}

/// One leader line of a root.
#[derive(Debug, Clone, PartialEq)]
pub struct LeaderLine {
    /// The line's vertices, in order.
    pub points: Vec<Point3D>,
    pub index: i32,
    /// 0 invisible, 1 straight, 2 spline.
    pub leader_type: i16,
    pub color: Cmc,
    /// Null: the reference is in the handle stream.
    pub line_type_handle: Handle,
    pub line_weight: i32,
    pub arrow_size: u64,
    /// Null: the reference is in the handle stream.
    pub arrow_symbol_handle: Handle,
    pub override_flags: u32,
}

/// [`LeaderLine`] by view.
pub struct LeaderLineView {
    pub points: Seq<Point3D>,
    pub index: i32,
    pub leader_type: i16,
    pub color: CmcView,
    pub line_type_handle: Handle,
    pub line_weight: i32,
    pub arrow_size: u64,
    pub arrow_symbol_handle: Handle,
    pub override_flags: u32,
}

impl View for LeaderLine {
    type V = LeaderLineView;

    open spec fn view(&self) -> LeaderLineView {
        LeaderLineView {
            points: self.points@,
            index: self.index,
            leader_type: self.leader_type,
            color: self.color@,
            line_type_handle: self.line_type_handle,
            line_weight: self.line_weight,
            arrow_size: self.arrow_size,
            arrow_symbol_handle: self.arrow_symbol_handle,
            override_flags: self.override_flags,
        }
    }
}

/// The style of a leader line: index, type, colour, weight, arrow
/// size, override flags.
pub open spec fn spec_line_style(b: Seq<u8>, p: int, s: Seq<u8>, q: int, version: Version) -> core::result::Result<((i32, i16, CmcView, i32, u64, u32), int, int), Error> {
    match spec_read_bl(b, p) {
        Err(e) => Err(e),
        Ok((index, p1)) => match spec_read_bs(b, p1) {
            Err(e) => Err(e),
            Ok((kind, p2)) => match spec_cmc(b, p2, s, q, version) {
                Err(e) => Err(e),
                Ok((color, p3, q1)) => match spec_read_bl(b, p3) {
                    Err(e) => Err(e),
                    Ok((weight, p4)) => match spec_read_bd(b, p4) {
                        Err(e) => Err(e),
                        Ok((arrow, p5)) => match spec_read_bl_u(b, p5) {
                            Err(e) => Err(e),
                            Ok((flags, p6)) => Ok(((index, kind, color, weight, arrow, flags), p6, q1)),
                        },
                    },
                },
            },
        },
    }
}

/// A leader line: geometry, then style.
#[verifier::opaque]
pub open spec fn spec_leader_line(b: Seq<u8>, p: int, s: Seq<u8>, q: int, version: Version) -> core::result::Result<(LeaderLineView, int, int), Error> {
    match spec_line_geometry(b, p) {
        Err(e) => Err(e),
        Ok((points, p1)) => match spec_line_style(b, p1, s, q, version) {
            Err(e) => Err(e),
            Ok(((index, kind, color, weight, arrow, flags), p2, q1)) => Ok((
                LeaderLineView {
                    points,
                    index,
                    leader_type: kind,
                    color,
                    line_type_handle: spec_null_handle(),
                    line_weight: weight,
                    arrow_size: arrow,
                    arrow_symbol_handle: spec_null_handle(),
                    override_flags: flags,
                },
                p2,
                q1,
            )),
        },
    }
}

fn read_leader_line(c: &mut BitCursor<'_>, strings: &mut BitCursor<'_>, version: Version) -> (r: Result<LeaderLine>)
    requires
        old(c).wf(),
        old(strings).wf(),
    ensures
        spec_cursors(*old(c), *final(c), *old(strings), *final(strings)),
        spec_outcome2(r, final(c).pos(), final(strings).pos(), spec_leader_line(old(c).data(), old(c).pos(), old(strings).data(), old(strings).pos(), version)),
{
    reveal(spec_leader_line);
    let points = read_line_geometry(c)?;
    let index = c.read_bl()?;
    let leader_type = c.read_bs()?;
    let color = read_cmc(c, strings, version)?;
    let line_type_handle = null_handle();
    let line_weight = c.read_bl()?;
    let arrow_size = c.read_bd()?;
    let arrow_symbol_handle = null_handle();
    let override_flags = c.read_bl_u()?;
    Ok(LeaderLine {
        points,
        index,
        leader_type,
        color,
        line_type_handle,
        line_weight,
        arrow_size,
        arrow_symbol_handle,
        override_flags,
    })
}

/// `r` is what `o` says of a list: the items by view and both end
/// positions, or the error (by variant where it carries free text).
pub open spec fn spec_outcome2_seq<T: View>(r: Result<Vec<T>>, p: int, q: int, o: core::result::Result<(Seq<T::V>, int, int), Error>) -> bool {
    match o {
        Ok((v, a, b)) => r matches Ok(x) && x@.map_values(|t: T| t@) == v && p == a && q == b,
        Err(Error::SectionMap(_)) => r matches Err(Error::SectionMap(_)),
        Err(Error::Unsupported { .. }) => r matches Err(Error::Unsupported { .. }),
        Err(e) => r matches Err(x) && x == e,
    }
}

/// `n` leader lines in a row.
pub open spec fn spec_lines(b: Seq<u8>, p: int, s: Seq<u8>, q: int, version: Version, n: nat) -> core::result::Result<(Seq<LeaderLineView>, int, int), Error>
    decreases n,
{
    if n == 0 {
        Ok((Seq::empty(), p, q))
    } else {
        match spec_lines(b, p, s, q, version, (n - 1) as nat) {
            Err(e) => Err(e),
            Ok((ls, p1, q1)) => match spec_leader_line(b, p1, s, q1, version) {
                Err(e) => Err(e),
                Ok((l, p2, q2)) => Ok((ls.push(l), p2, q2)),
            },
        }
    }
}

proof fn lemma_lines_error(b: Seq<u8>, p: int, s: Seq<u8>, q: int, version: Version, i: nat, n: nat, e: Error)
    requires
        i < n,
        spec_lines(b, p, s, q, version, (i + 1) as nat) == Err::<(Seq<LeaderLineView>, int, int), Error>(e),
    ensures
        spec_lines(b, p, s, q, version, n) == Err::<(Seq<LeaderLineView>, int, int), Error>(e),
    decreases n,
{
    if n > i + 1 {
        lemma_lines_error(b, p, s, q, version, i, (n - 1) as nat, e);
    }
}

fn read_lines(c: &mut BitCursor<'_>, strings: &mut BitCursor<'_>, version: Version, n: usize) -> (r: Result<Vec<LeaderLine>>)
    requires
        old(c).wf(),
        old(strings).wf(),
    ensures
        spec_cursors(*old(c), *final(c), *old(strings), *final(strings)),
        spec_outcome2_seq(r, final(c).pos(), final(strings).pos(), spec_lines(old(c).data(), old(c).pos(), old(strings).data(), old(strings).pos(), version, n as nat)),
{
    let ghost p0 = c.pos();
    let ghost q0 = strings.pos();
    let mut out: Vec<LeaderLine> = Vec::new();
    let mut i: usize = 0;
    proof {
        assert(out@.map_values(|t: LeaderLine| t@) =~= Seq::<LeaderLineView>::empty());
    }
    while i < n
        invariant
            c.wf(),
            strings.wf(),
            c.data() == old(c).data(),
            strings.data() == old(strings).data(),
            p0 == old(c).pos(),
            q0 == old(strings).pos(),
            0 <= i <= n,
            spec_lines(c.data(), p0, strings.data(), q0, version, i as nat) == Ok::<(Seq<LeaderLineView>, int, int), Error>(
                (out@.map_values(|t: LeaderLine| t@), c.pos(), strings.pos()),
            ),
        decreases n - i,
    {
        let ghost data = c.data();
        let ghost sdata = strings.data();
        let ghost pb = c.pos();
        let ghost qb = strings.pos();
        let rl = read_leader_line(c, strings, version);
        proof {
            if rl is Err {
                let e2 = spec_leader_line(data, pb, sdata, qb, version)->Err_0;
                lemma_lines_error(data, p0, sdata, q0, version, i as nat, n as nat, e2);
            }
        }
        let line = rl?;
        let ghost prev = out@;
        out.push(line);
        proof {
            assert(out@.map_values(|t: LeaderLine| t@) =~= prev.map_values(|t: LeaderLine| t@).push(line@));
        }
        i += 1;
    }
    Ok(out)
}

// ---------------------------------------------------------------- leader roots

/// One leader root: a connection point on the content and the lines
/// hanging off it.
#[derive(Debug, Clone, PartialEq)]
pub struct LeaderRoot {
    pub content_valid: bool,
    pub unknown_flag: bool,
    pub connection_point: Point3D,
    pub direction: Vec3D,
    /// Break start and end points.
    pub break_points: Vec<(Point3D, Point3D)>,
    pub index: i32,
    pub landing_distance: u64,
    pub lines: Vec<LeaderLine>,
    /// 0 horizontal, 1 vertical.
    pub attachment_direction: i16,
}

/// [`LeaderRoot`] by view.
pub struct LeaderRootView {
    pub content_valid: bool,
    pub unknown_flag: bool,
    pub connection_point: Point3D,
    pub direction: Vec3D,
    pub break_points: Seq<(Point3D, Point3D)>,
    pub index: i32,
    pub landing_distance: u64,
    pub lines: Seq<LeaderLineView>,
    pub attachment_direction: i16,
}

impl View for LeaderRoot {
    type V = LeaderRootView;

    open spec fn view(&self) -> LeaderRootView {
        LeaderRootView {
            content_valid: self.content_valid,
            unknown_flag: self.unknown_flag,
            connection_point: self.connection_point,
            direction: self.direction,
            break_points: self.break_points@,
            index: self.index,
            landing_distance: self.landing_distance,
            lines: self.lines@.map_values(|l: LeaderLine| l@),
            attachment_direction: self.attachment_direction,
        }
    }
}

/// The head of a root: two flags, connection point, direction, the
/// break pairs (count checked), index, landing distance.
pub open spec fn spec_root_head(b: Seq<u8>, p: int) -> core::result::Result<((bool, bool, Point3D, Vec3D, Seq<(Point3D, Point3D)>, i32, u64), int), Error> {
    match spec_read_b(b, p) {
        Err(e) => Err(e),
        Ok((valid, p1)) => match spec_read_b(b, p1) {
            Err(e) => Err(e),
            Ok((unknown, p2)) => match spec_read_bd3(b, p2) {
                Err(e) => Err(e),
                Ok((conn, p3)) => match spec_read_bd3(b, p3) {
                    Err(e) => Err(e),
                    Ok((dir, p4)) => match spec_read_bl_u(b, p4) {
                        Err(e) => Err(e),
                        Ok((n, p5)) => if !spec_count_ok(n, MAX_BREAK_PAIRS, b, p5) {
                            Err(spec_rejected())
                        } else {
                            match spec_read_pairs(b, p5, n as nat) {
                                Err(e) => Err(e),
                                Ok((pairs, p6)) => match spec_read_bl(b, p6) {
                                    Err(e) => Err(e),
                                    Ok((index, p7)) => match spec_read_bd(b, p7) {
                                        Err(e) => Err(e),
                                        Ok((landing, p8)) => Ok(((valid, unknown, conn, dir, pairs, index, landing), p8)),
                                    },
                                },
                            }
                        },
                    },
                },
            },
        },
    }
}

fn read_root_head(c: &mut BitCursor<'_>) -> (r: Result<(bool, bool, Point3D, Vec3D, Vec<(Point3D, Point3D)>, i32, u64)>)
    requires
        old(c).wf(),
    ensures
        final(c).wf(),
        final(c).data() == old(c).data(),
        match spec_root_head(old(c).data(), old(c).pos()) {
            Ok(((a, u, cp, d, pairs, idx, l), p)) => r matches Ok((a2, u2, cp2, d2, v, idx2, l2)) && a2 == a && u2 == u
                && cp2 == cp && d2 == d && v@ == pairs && idx2 == idx && l2 == l && final(c).pos() == p,
            Err(Error::SectionMap(_)) => r matches Err(Error::SectionMap(_)),
            Err(e) => r matches Err(x) && x == e,
        },
{
    let content_valid = c.read_b()?;
    let unknown_flag = c.read_b()?;
    let connection_point = read_bd3(c)?;
    let direction = read_bd3(c)?;
    let n = c.read_bl_u()? as usize;
    bounds_check(n, "leader-root break pairs", MAX_BREAK_PAIRS, c.remaining_bits())?;
    let break_points = read_pairs_vec(c, n)?;
    let index = c.read_bl()?;
    let landing_distance = c.read_bd()?;
    Ok((content_valid, unknown_flag, connection_point, direction, break_points, index, landing_distance))
}

/// A leader root: head, the line count (checked), the lines, the
/// attachment direction.
#[verifier::opaque]
pub open spec fn spec_leader_root(b: Seq<u8>, p: int, s: Seq<u8>, q: int, version: Version) -> core::result::Result<(LeaderRootView, int, int), Error> {
    match spec_root_head(b, p) {
        Err(e) => Err(e),
        Ok(((valid, unknown, conn, dir, pairs, index, landing), p1)) => match spec_read_bl_u(b, p1) {
            Err(e) => Err(e),
            Ok((n, p2)) => if !spec_count_ok(n, MAX_LEADER_LINES, b, p2) {
                Err(spec_rejected())
            } else {
                match spec_lines(b, p2, s, q, version, n as nat) {
                    Err(e) => Err(e),
                    Ok((lines, p3, q1)) => match spec_read_bs(b, p3) {
                        Err(e) => Err(e),
                        Ok((attach, p4)) => Ok((
                            LeaderRootView {
                                content_valid: valid,
                                unknown_flag: unknown,
                                connection_point: conn,
                                direction: dir,
                                break_points: pairs,
                                index,
                                landing_distance: landing,
                                lines,
                                attachment_direction: attach,
                            },
                            p4,
                            q1,
                        )),
                    },
                }
            },
        },
    }
}

fn read_leader_root(c: &mut BitCursor<'_>, strings: &mut BitCursor<'_>, version: Version) -> (r: Result<LeaderRoot>)
    requires
        old(c).wf(),
        old(strings).wf(),
    ensures
        spec_cursors(*old(c), *final(c), *old(strings), *final(strings)),
        spec_outcome2(r, final(c).pos(), final(strings).pos(), spec_leader_root(old(c).data(), old(c).pos(), old(strings).data(), old(strings).pos(), version)),
{
    reveal(spec_leader_root);
    let (content_valid, unknown_flag, connection_point, direction, break_points, index, landing_distance) = read_root_head(c)?;
    let n = c.read_bl_u()? as usize;
    bounds_check(n, "leader lines", MAX_LEADER_LINES, c.remaining_bits())?;
    let lines = read_lines(c, strings, version, n)?;
    let attachment_direction = c.read_bs()?;
    Ok(LeaderRoot {
        content_valid,
        unknown_flag,
        connection_point,
        direction,
        break_points,
        index,
        landing_distance,
        lines,
        attachment_direction,
    })
}

/// `n` leader roots in a row.
pub open spec fn spec_roots(b: Seq<u8>, p: int, s: Seq<u8>, q: int, version: Version, n: nat) -> core::result::Result<(Seq<LeaderRootView>, int, int), Error>
    decreases n,
{
    if n == 0 {
        Ok((Seq::empty(), p, q))
    } else {
        match spec_roots(b, p, s, q, version, (n - 1) as nat) {
            Err(e) => Err(e),
            Ok((rs, p1, q1)) => match spec_leader_root(b, p1, s, q1, version) {
                Err(e) => Err(e),
                Ok((r, p2, q2)) => Ok((rs.push(r), p2, q2)),
            },
        }
    }
}

proof fn lemma_roots_error(b: Seq<u8>, p: int, s: Seq<u8>, q: int, version: Version, i: nat, n: nat, e: Error)
    requires
        i < n,
        spec_roots(b, p, s, q, version, (i + 1) as nat) == Err::<(Seq<LeaderRootView>, int, int), Error>(e),
    ensures
        spec_roots(b, p, s, q, version, n) == Err::<(Seq<LeaderRootView>, int, int), Error>(e),
    decreases n,
{
    if n > i + 1 {
        lemma_roots_error(b, p, s, q, version, i, (n - 1) as nat, e);
    }
}

fn read_roots(c: &mut BitCursor<'_>, strings: &mut BitCursor<'_>, version: Version, n: usize) -> (r: Result<Vec<LeaderRoot>>)
    requires
        old(c).wf(),
        old(strings).wf(),
    ensures
        spec_cursors(*old(c), *final(c), *old(strings), *final(strings)),
        spec_outcome2_seq(r, final(c).pos(), final(strings).pos(), spec_roots(old(c).data(), old(c).pos(), old(strings).data(), old(strings).pos(), version, n as nat)),
{
    let ghost p0 = c.pos();
    let ghost q0 = strings.pos();
    let mut out: Vec<LeaderRoot> = Vec::new();
    let mut i: usize = 0;
    proof {
        assert(out@.map_values(|t: LeaderRoot| t@) =~= Seq::<LeaderRootView>::empty());
    }
    while i < n
        invariant
            c.wf(),
            strings.wf(),
            c.data() == old(c).data(),
            strings.data() == old(strings).data(),
            p0 == old(c).pos(),
            q0 == old(strings).pos(),
            0 <= i <= n,
            spec_roots(c.data(), p0, strings.data(), q0, version, i as nat) == Ok::<(Seq<LeaderRootView>, int, int), Error>(
                (out@.map_values(|t: LeaderRoot| t@), c.pos(), strings.pos()),
            ),
        decreases n - i,
    {
        let ghost data = c.data();
        let ghost sdata = strings.data();
        let ghost pb = c.pos();
        let ghost qb = strings.pos();
        let rr = read_leader_root(c, strings, version);
        proof {
            if rr is Err {
                let e2 = spec_leader_root(data, pb, sdata, qb, version)->Err_0;
                lemma_roots_error(data, p0, sdata, q0, version, i as nat, n as nat, e2);
            }
        }
        let root = rr?;
        let ghost prev = out@;
        out.push(root);
        proof {
            assert(out@.map_values(|t: LeaderRoot| t@) =~= prev.map_values(|t: LeaderRoot| t@).push(root@));
        }
        i += 1;
    }
    Ok(out)
}

// ---------------------------------------------------------------- text content

/// The text content of a multileader.
#[derive(Debug, Clone, PartialEq)]
pub struct MLeaderText {
    /// The label, from the string stream.
    pub label: String,
    pub normal: Vec3D,
    /// Null: the reference is in the handle stream.
    pub text_style_handle: Handle,
    pub location: Point3D,
    pub direction: Vec3D,
    pub rotation: u64,
    pub boundary_width: u64,
    pub boundary_height: u64,
    pub line_spacing_factor: u64,
    pub line_spacing_style: i16,
    pub color: Cmc,
    pub alignment: i16,
    pub flow_direction: i16,
    pub background_color: Cmc,
    pub background_scale: u64,
    pub background_transparency: i32,
    pub background_fill_enabled: bool,
    pub background_mask_fill_on: bool,
    pub column_type: i16,
    pub text_height_automatic: bool,
    pub column_width: u64,
    pub column_gutter: u64,
    pub column_flow_reversed: bool,
    pub column_sizes: Vec<u64>,
    pub word_break: bool,
    pub unknown_flag: bool,
}

/// [`MLeaderText`] by view.
pub struct MLeaderTextView {
    pub label: Seq<char>,
    pub normal: Vec3D,
    pub text_style_handle: Handle,
    pub location: Point3D,
    pub direction: Vec3D,
    pub rotation: u64,
    pub boundary_width: u64,
    pub boundary_height: u64,
    pub line_spacing_factor: u64,
    pub line_spacing_style: i16,
    pub color: CmcView,
    pub alignment: i16,
    pub flow_direction: i16,
    pub background_color: CmcView,
    pub background_scale: u64,
    pub background_transparency: i32,
    pub background_fill_enabled: bool,
    pub background_mask_fill_on: bool,
    pub column_type: i16,
    pub text_height_automatic: bool,
    pub column_width: u64,
    pub column_gutter: u64,
    pub column_flow_reversed: bool,
    pub column_sizes: Seq<u64>,
    pub word_break: bool,
    pub unknown_flag: bool,
}

impl View for MLeaderText {
    type V = MLeaderTextView;

    open spec fn view(&self) -> MLeaderTextView {
        MLeaderTextView {
            label: self.label@,
            normal: self.normal,
            text_style_handle: self.text_style_handle,
            location: self.location,
            direction: self.direction,
            rotation: self.rotation,
            boundary_width: self.boundary_width,
            boundary_height: self.boundary_height,
            line_spacing_factor: self.line_spacing_factor,
            line_spacing_style: self.line_spacing_style,
            color: self.color@,
            alignment: self.alignment,
            flow_direction: self.flow_direction,
            background_color: self.background_color@,
            background_scale: self.background_scale,
            background_transparency: self.background_transparency,
            background_fill_enabled: self.background_fill_enabled,
            background_mask_fill_on: self.background_mask_fill_on,
            column_type: self.column_type,
            text_height_automatic: self.text_height_automatic,
            column_width: self.column_width,
            column_gutter: self.column_gutter,
            column_flow_reversed: self.column_flow_reversed,
            column_sizes: self.column_sizes@,
            word_break: self.word_break,
            unknown_flag: self.unknown_flag,
        }
    }
}

/// Normal, location, direction, rotation, boundary width and height,
/// line spacing factor and style.
pub open spec fn spec_text_frame(b: Seq<u8>, p: int) -> core::result::Result<((Vec3D, Point3D, Vec3D, u64, u64, u64, u64, i16), int), Error> {
    match spec_read_bd3(b, p) {
        Err(e) => Err(e),
        Ok((normal, p1)) => match spec_read_bd3(b, p1) {
            Err(e) => Err(e),
            Ok((location, p2)) => match spec_read_bd3(b, p2) {
                Err(e) => Err(e),
                Ok((direction, p3)) => match spec_read_bd(b, p3) {
                    Err(e) => Err(e),
                    Ok((rotation, p4)) => match spec_read_bd(b, p4) {
                        Err(e) => Err(e),
                        Ok((bw, p5)) => match spec_read_bd(b, p5) {
                            Err(e) => Err(e),
                            Ok((bh, p6)) => match spec_read_bd(b, p6) {
                                Err(e) => Err(e),
                                Ok((lsf, p7)) => match spec_read_bs(b, p7) {
                                    Err(e) => Err(e),
                                    Ok((lss, p8)) => Ok(((normal, location, direction, rotation, bw, bh, lsf, lss), p8)),
                                },
                            },
                        },
                    },
                },
            },
        },
    }
}

fn read_text_frame(c: &mut BitCursor<'_>) -> (r: Result<(Vec3D, Point3D, Vec3D, u64, u64, u64, u64, i16)>)
    requires
        old(c).wf(),
    ensures
        final(c).wf(),
        final(c).data() == old(c).data(),
        match spec_text_frame(old(c).data(), old(c).pos()) {
            Ok((v, p)) => r == Ok::<(Vec3D, Point3D, Vec3D, u64, u64, u64, u64, i16), Error>(v) && final(c).pos() == p,
            Err(e) => r == Err::<(Vec3D, Point3D, Vec3D, u64, u64, u64, u64, i16), Error>(e),
        },
{
    let normal = read_bd3(c)?;
    let location = read_bd3(c)?;
    let direction = read_bd3(c)?;
    let rotation = c.read_bd()?;
    let bw = c.read_bd()?;
    let bh = c.read_bd()?;
    let lsf = c.read_bd()?;
    let lss = c.read_bs()?;
    Ok((normal, location, direction, rotation, bw, bh, lsf, lss))
}

/// Colour, alignment, flow direction, background colour, scale and
/// transparency, the fill and mask bits.
pub open spec fn spec_text_colors(b: Seq<u8>, p: int, s: Seq<u8>, q: int, version: Version) -> core::result::Result<((CmcView, i16, i16, CmcView, u64, i32, bool, bool), int, int), Error> {
    match spec_cmc(b, p, s, q, version) {
        Err(e) => Err(e),
        Ok((color, p1, q1)) => match spec_read_bs(b, p1) {
            Err(e) => Err(e),
            Ok((align, p2)) => match spec_read_bs(b, p2) {
                Err(e) => Err(e),
                Ok((flow, p3)) => match spec_cmc(b, p3, s, q1, version) {
                    Err(e) => Err(e),
                    Ok((bg, p4, q2)) => match spec_read_bd(b, p4) {
                        Err(e) => Err(e),
                        Ok((scale, p5)) => match spec_read_bl(b, p5) {
                            Err(e) => Err(e),
                            Ok((transparency, p6)) => match spec_read_b(b, p6) {
                                Err(e) => Err(e),
                                Ok((fill, p7)) => match spec_read_b(b, p7) {
                                    Err(e) => Err(e),
                                    Ok((mask, p8)) => Ok(((color, align, flow, bg, scale, transparency, fill, mask), p8, q2)),
                                },
                            },
                        },
                    },
                },
            },
        },
    }
}

fn read_text_colors(c: &mut BitCursor<'_>, strings: &mut BitCursor<'_>, version: Version) -> (r: Result<(Cmc, i16, i16, Cmc, u64, i32, bool, bool)>)
    requires
        old(c).wf(),
        old(strings).wf(),
    ensures
        spec_cursors(*old(c), *final(c), *old(strings), *final(strings)),
        match spec_text_colors(old(c).data(), old(c).pos(), old(strings).data(), old(strings).pos(), version) {
            Ok(((col, al, fl, bg, sc, tr, fi, ma), p, q)) => r matches Ok((col2, al2, fl2, bg2, sc2, tr2, fi2, ma2))
                && col2@ == col && al2 == al && fl2 == fl && bg2@ == bg && sc2 == sc && tr2 == tr && fi2 == fi && ma2 == ma
                && final(c).pos() == p && final(strings).pos() == q,
            Err(Error::SectionMap(_)) => r matches Err(Error::SectionMap(_)),
            Err(Error::Unsupported { .. }) => r matches Err(Error::Unsupported { .. }),
            Err(e) => r matches Err(x) && x == e,
        },
{
    let color = read_cmc(c, strings, version)?;
    let alignment = c.read_bs()?;
    let flow = c.read_bs()?;
    let background = read_cmc(c, strings, version)?;
    let scale = c.read_bd()?;
    let transparency = c.read_bl()?;
    let fill = c.read_b()?;
    let mask = c.read_b()?;
    Ok((color, alignment, flow, background, scale, transparency, fill, mask))
}

/// Column type, automatic height, column width and gutter, flow
/// reversal, the column sizes (count checked), word break, a last bit.
pub open spec fn spec_text_columns(b: Seq<u8>, p: int) -> core::result::Result<((i16, bool, u64, u64, bool, Seq<u64>, bool, bool), int), Error> {
    match spec_read_bs(b, p) {
        Err(e) => Err(e),
        Ok((kind, p1)) => match spec_read_b(b, p1) {
            Err(e) => Err(e),
            Ok((auto, p2)) => match spec_read_bd(b, p2) {
                Err(e) => Err(e),
                Ok((width, p3)) => match spec_read_bd(b, p3) {
                    Err(e) => Err(e),
                    Ok((gutter, p4)) => match spec_read_b(b, p4) {
                        Err(e) => Err(e),
                        Ok((reversed, p5)) => match spec_read_bl_u(b, p5) {
                            Err(e) => Err(e),
                            Ok((n, p6)) => if !spec_count_ok(n, MAX_COLUMN_SIZES, b, p6) {
                                Err(spec_rejected())
                            } else {
                                match spec_read_bd_seq(b, p6, n as nat) {
                                    Err(e) => Err(e),
                                    Ok((sizes, p7)) => match spec_read_b(b, p7) {
                                        Err(e) => Err(e),
                                        Ok((word_break, p8)) => match spec_read_b(b, p8) {
                                            Err(e) => Err(e),
                                            Ok((unknown, p9)) => Ok(((kind, auto, width, gutter, reversed, sizes, word_break, unknown), p9)),
                                        },
                                    },
                                }
                            },
                        },
                    },
                },
            },
        },
    }
}

fn read_text_columns(c: &mut BitCursor<'_>) -> (r: Result<(i16, bool, u64, u64, bool, Vec<u64>, bool, bool)>)
    requires
        old(c).wf(),
    ensures
        final(c).wf(),
        final(c).data() == old(c).data(),
        match spec_text_columns(old(c).data(), old(c).pos()) {
            Ok(((k, a, w, g, rv, sz, wb, u), p)) => r matches Ok((k2, a2, w2, g2, rv2, v, wb2, u2)) && k2 == k && a2 == a
                && w2 == w && g2 == g && rv2 == rv && v@ == sz && wb2 == wb && u2 == u && final(c).pos() == p,
            Err(Error::SectionMap(_)) => r matches Err(Error::SectionMap(_)),
            Err(e) => r matches Err(x) && x == e,
        },
{
    let kind = c.read_bs()?;
    let auto = c.read_b()?;
    let width = c.read_bd()?;
    let gutter = c.read_bd()?;
    let reversed = c.read_b()?;
    let n = c.read_bl_u()? as usize;
    bounds_check(n, "column sizes", MAX_COLUMN_SIZES, c.remaining_bits())?;
    let sizes = read_bd_vec(c, n)?;
    let word_break = c.read_b()?;
    let unknown = c.read_b()?;
    Ok((kind, auto, width, gutter, reversed, sizes, word_break, unknown))
}

/// The text content: the label from the string stream first, then the
/// frame, colours and columns from the data.
#[verifier::opaque]
pub open spec fn spec_text_content(b: Seq<u8>, p: int, s: Seq<u8>, q: int, version: Version) -> core::result::Result<(MLeaderTextView, int, int), Error> {
    match spec_read_tv(s, q, version) {
        Err(e) => Err(e),
        Ok((label, q1)) => match spec_text_frame(b, p) {
            Err(e) => Err(e),
            Ok(((normal, location, direction, rotation, bw, bh, lsf, lss), p1)) => match spec_text_colors(b, p1, s, q1, version) {
                Err(e) => Err(e),
                Ok(((color, align, flow, bg, scale, transparency, fill, mask), p2, q2)) => match spec_text_columns(b, p2) {
                    Err(e) => Err(e),
                    Ok(((kind, auto, width, gutter, reversed, sizes, word_break, unknown), p3)) => Ok((
                        MLeaderTextView {
                            label,
                            normal,
                            text_style_handle: spec_null_handle(),
                            location,
                            direction,
                            rotation,
                            boundary_width: bw,
                            boundary_height: bh,
                            line_spacing_factor: lsf,
                            line_spacing_style: lss,
                            color,
                            alignment: align,
                            flow_direction: flow,
                            background_color: bg,
                            background_scale: scale,
                            background_transparency: transparency,
                            background_fill_enabled: fill,
                            background_mask_fill_on: mask,
                            column_type: kind,
                            text_height_automatic: auto,
                            column_width: width,
                            column_gutter: gutter,
                            column_flow_reversed: reversed,
                            column_sizes: sizes,
                            word_break,
                            unknown_flag: unknown,
                        },
                        p3,
                        q2,
                    )),
                },
            },
        },
    }
}

fn read_text_content(c: &mut BitCursor<'_>, strings: &mut BitCursor<'_>, version: Version) -> (r: Result<MLeaderText>)
    requires
        old(c).wf(),
        old(strings).wf(),
    ensures
        spec_cursors(*old(c), *final(c), *old(strings), *final(strings)),
        spec_outcome2(r, final(c).pos(), final(strings).pos(), spec_text_content(old(c).data(), old(c).pos(), old(strings).data(), old(strings).pos(), version)),
{
    reveal(spec_text_content);
    let label = read_tv(strings, version, "MLEADER text is not valid UTF-16")?;
    let (normal, location, direction, rotation, boundary_width, boundary_height, line_spacing_factor, line_spacing_style) =
        read_text_frame(c)?;
    let (color, alignment, flow_direction, background_color, background_scale, background_transparency, background_fill_enabled, background_mask_fill_on) =
        read_text_colors(c, strings, version)?;
    let (column_type, text_height_automatic, column_width, column_gutter, column_flow_reversed, column_sizes, word_break, unknown_flag) =
        read_text_columns(c)?;
    Ok(MLeaderText {
        label,
        normal,
        text_style_handle: null_handle(),
        location,
        direction,
        rotation,
        boundary_width,
        boundary_height,
        line_spacing_factor,
        line_spacing_style,
        color,
        alignment,
        flow_direction,
        background_color,
        background_scale,
        background_transparency,
        background_fill_enabled,
        background_mask_fill_on,
        column_type,
        text_height_automatic,
        column_width,
        column_gutter,
        column_flow_reversed,
        column_sizes,
        word_break,
        unknown_flag,
    })
}

// ---------------------------------------------------------------- block content

/// The block content of a multileader.
#[derive(Debug, Clone, PartialEq)]
pub struct MLeaderBlock {
    /// Null: the reference is in the handle stream.
    pub block_handle: Handle,
    pub normal: Vec3D,
    pub location: Point3D,
    pub scale: Point3D,
    pub rotation: u64,
    pub color: Cmc,
    /// The sixteen doubles of the block's transformation matrix.
    pub transform: [u64; 16],
}

/// [`MLeaderBlock`] by view.
pub struct MLeaderBlockView {
    pub block_handle: Handle,
    pub normal: Vec3D,
    pub location: Point3D,
    pub scale: Point3D,
    pub rotation: u64,
    pub color: CmcView,
    pub transform: Seq<u64>,
}

impl View for MLeaderBlock {
    type V = MLeaderBlockView;

    open spec fn view(&self) -> MLeaderBlockView {
        MLeaderBlockView {
            block_handle: self.block_handle,
            normal: self.normal,
            location: self.location,
            scale: self.scale,
            rotation: self.rotation,
            color: self.color@,
            transform: self.transform@,
        }
    }
}

/// Normal, location, scale, rotation, colour, the sixteen matrix
/// entries.
#[verifier::opaque]
pub open spec fn spec_block_content(b: Seq<u8>, p: int, s: Seq<u8>, q: int, version: Version) -> core::result::Result<(MLeaderBlockView, int, int), Error> {
    match spec_read_bd3(b, p) {
        Err(e) => Err(e),
        Ok((normal, p1)) => match spec_read_bd3(b, p1) {
            Err(e) => Err(e),
            Ok((location, p2)) => match spec_read_bd3(b, p2) {
                Err(e) => Err(e),
                Ok((scale, p3)) => match spec_read_bd(b, p3) {
                    Err(e) => Err(e),
                    Ok((rotation, p4)) => match spec_cmc(b, p4, s, q, version) {
                        Err(e) => Err(e),
                        Ok((color, p5, q1)) => match spec_read_bd_seq(b, p5, 16) {
                            Err(e) => Err(e),
                            Ok((m, p6)) => Ok((
                                MLeaderBlockView {
                                    block_handle: spec_null_handle(),
                                    normal,
                                    location,
                                    scale,
                                    rotation,
                                    color,
                                    transform: m,
                                },
                                p6,
                                q1,
                            )),
                        },
                    },
                },
            },
        },
    }
}

proof fn lemma_bd_seq_len(b: Seq<u8>, p: int, n: nat)
    ensures
        spec_read_bd_seq(b, p, n) matches Ok((s, _)) ==> s.len() == n,
    decreases n,
{
    if n > 0 {
        lemma_bd_seq_len(b, p, (n - 1) as nat);
    }
}

fn read_block_content(c: &mut BitCursor<'_>, strings: &mut BitCursor<'_>, version: Version) -> (r: Result<MLeaderBlock>)
    requires
        old(c).wf(),
        old(strings).wf(),
    ensures
        spec_cursors(*old(c), *final(c), *old(strings), *final(strings)),
        spec_outcome2(r, final(c).pos(), final(strings).pos(), spec_block_content(old(c).data(), old(c).pos(), old(strings).data(), old(strings).pos(), version)),
{
    reveal(spec_block_content);
    let normal = read_bd3(c)?;
    let location = read_bd3(c)?;
    let scale = read_bd3(c)?;
    let rotation = c.read_bd()?;
    let color = read_cmc(c, strings, version)?;
    proof {
        lemma_bd_seq_len(c.data(), c.pos(), 16);
    }
    let entries = read_bd_vec(c, 16)?;
    let mut transform = [0u64; 16];
    let mut k: usize = 0;
    while k < 16
        invariant
            entries@.len() == 16,
            k <= 16,
            transform@.len() == 16,
            forall|j: int| 0 <= j < k ==> transform@[j] == entries@[j],
        decreases 16 - k,
    {
        transform[k] = entries[k];
        k += 1;
    }
    proof {
        assert(transform@ =~= entries@);
    }
    Ok(MLeaderBlock { block_handle: null_handle(), normal, location, scale, rotation, color, transform })
}

// ---------------------------------------------------------------- context

/// The embedded annotation context.
#[derive(Debug, Clone, PartialEq)]
pub struct MLeaderContext {
    pub leader_roots: Vec<LeaderRoot>,
    pub overall_scale: u64,
    pub content_base_point: Point3D,
    pub text_height: u64,
    pub arrow_head_size: u64,
    pub landing_gap: u64,
    pub left_attachment: i16,
    pub right_attachment: i16,
    pub text_align_type: i16,
    pub attachment_type: i16,
    /// The text content, when the record has one.
    pub text: Option<MLeaderText>,
    /// The block content, when the record has no text but a block.
    pub block: Option<MLeaderBlock>,
    pub base_point: Point3D,
    pub base_direction: Vec3D,
    pub base_vertical: Vec3D,
    pub normal_reversed: bool,
    pub top_attachment: i16,
    pub bottom_attachment: i16,
}

/// [`MLeaderContext`] by view.
pub struct MLeaderContextView {
    pub leader_roots: Seq<LeaderRootView>,
    pub overall_scale: u64,
    pub content_base_point: Point3D,
    pub text_height: u64,
    pub arrow_head_size: u64,
    pub landing_gap: u64,
    pub left_attachment: i16,
    pub right_attachment: i16,
    pub text_align_type: i16,
    pub attachment_type: i16,
    pub text: Option<MLeaderTextView>,
    pub block: Option<MLeaderBlockView>,
    pub base_point: Point3D,
    pub base_direction: Vec3D,
    pub base_vertical: Vec3D,
    pub normal_reversed: bool,
    pub top_attachment: i16,
    pub bottom_attachment: i16,
}

/// An optional content by view.
pub open spec fn spec_opt_view<T: View>(o: Option<T>) -> Option<T::V> {
    match o {
        Some(x) => Some(x@),
        None => None,
    }
}

impl View for MLeaderContext {
    type V = MLeaderContextView;

    open spec fn view(&self) -> MLeaderContextView {
        MLeaderContextView {
            leader_roots: self.leader_roots@.map_values(|r: LeaderRoot| r@),
            overall_scale: self.overall_scale,
            content_base_point: self.content_base_point,
            text_height: self.text_height,
            arrow_head_size: self.arrow_head_size,
            landing_gap: self.landing_gap,
            left_attachment: self.left_attachment,
            right_attachment: self.right_attachment,
            text_align_type: self.text_align_type,
            attachment_type: self.attachment_type,
            text: spec_opt_view(self.text),
            block: spec_opt_view(self.block),
            base_point: self.base_point,
            base_direction: self.base_direction,
            base_vertical: self.base_vertical,
            normal_reversed: self.normal_reversed,
            top_attachment: self.top_attachment,
            bottom_attachment: self.bottom_attachment,
        }
    }
}

/// The root count (checked) and the roots.
pub open spec fn spec_context_roots(b: Seq<u8>, p: int, s: Seq<u8>, q: int, version: Version) -> core::result::Result<(Seq<LeaderRootView>, int, int), Error> {
    match spec_read_bl_u(b, p) {
        Err(e) => Err(e),
        Ok((n, p1)) => if !spec_count_ok(n, MAX_LEADER_ROOTS, b, p1) {
            Err(spec_rejected())
        } else {
            spec_roots(b, p1, s, q, version, n as nat)
        },
    }
}

fn read_context_roots(c: &mut BitCursor<'_>, strings: &mut BitCursor<'_>, version: Version) -> (r: Result<Vec<LeaderRoot>>)
    requires
        old(c).wf(),
        old(strings).wf(),
    ensures
        spec_cursors(*old(c), *final(c), *old(strings), *final(strings)),
        spec_outcome2_seq(r, final(c).pos(), final(strings).pos(), spec_context_roots(old(c).data(), old(c).pos(), old(strings).data(), old(strings).pos(), version)),
{
    let n = c.read_bl_u()? as usize;
    bounds_check(n, "leader roots", MAX_LEADER_ROOTS, c.remaining_bits())?;
    read_roots(c, strings, version, n)
}

/// Scale, content base point, text height, arrow head size, landing
/// gap, and four attachment and alignment codes.
pub open spec fn spec_context_frame(b: Seq<u8>, p: int) -> core::result::Result<((u64, Point3D, u64, u64, u64, i16, i16, i16, i16), int), Error> {
    match spec_read_bd(b, p) {
        Err(e) => Err(e),
        Ok((scale, p1)) => match spec_read_bd3(b, p1) {
            Err(e) => Err(e),
            Ok((base, p2)) => match spec_read_bd(b, p2) {
                Err(e) => Err(e),
                Ok((th, p3)) => match spec_read_bd(b, p3) {
                    Err(e) => Err(e),
                    Ok((ahs, p4)) => match spec_read_bd(b, p4) {
                        Err(e) => Err(e),
                        Ok((gap, p5)) => match spec_read_bs(b, p5) {
                            Err(e) => Err(e),
                            Ok((la, p6)) => match spec_read_bs(b, p6) {
                                Err(e) => Err(e),
                                Ok((ra, p7)) => match spec_read_bs(b, p7) {
                                    Err(e) => Err(e),
                                    Ok((tat, p8)) => match spec_read_bs(b, p8) {
                                        Err(e) => Err(e),
                                        Ok((at, p9)) => Ok(((scale, base, th, ahs, gap, la, ra, tat, at), p9)),
                                    },
                                },
                            },
                        },
                    },
                },
            },
        },
    }
}

fn read_context_frame(c: &mut BitCursor<'_>) -> (r: Result<(u64, Point3D, u64, u64, u64, i16, i16, i16, i16)>)
    requires
        old(c).wf(),
    ensures
        final(c).wf(),
        final(c).data() == old(c).data(),
        match spec_context_frame(old(c).data(), old(c).pos()) {
            Ok((v, p)) => r == Ok::<(u64, Point3D, u64, u64, u64, i16, i16, i16, i16), Error>(v) && final(c).pos() == p,
            Err(e) => r == Err::<(u64, Point3D, u64, u64, u64, i16, i16, i16, i16), Error>(e),
        },
{
    let scale = c.read_bd()?;
    let base = read_bd3(c)?;
    let th = c.read_bd()?;
    let ahs = c.read_bd()?;
    let gap = c.read_bd()?;
    let la = c.read_bs()?;
    let ra = c.read_bs()?;
    let tat = c.read_bs()?;
    let at = c.read_bs()?;
    Ok((scale, base, th, ahs, gap, la, ra, tat, at))
}

/// The content: text when the first bit is set, else a block when the
/// second is, else none.
pub open spec fn spec_context_content(b: Seq<u8>, p: int, s: Seq<u8>, q: int, version: Version) -> core::result::Result<((Option<MLeaderTextView>, Option<MLeaderBlockView>), int, int), Error> {
    match spec_read_b(b, p) {
        Err(e) => Err(e),
        Ok((has_text, p1)) => if has_text {
            match spec_text_content(b, p1, s, q, version) {
                Err(e) => Err(e),
                Ok((t, p2, q1)) => Ok(((Some(t), None), p2, q1)),
            }
        } else {
            match spec_read_b(b, p1) {
                Err(e) => Err(e),
                Ok((has_block, p2)) => if has_block {
                    match spec_block_content(b, p2, s, q, version) {
                        Err(e) => Err(e),
                        Ok((k, p3, q1)) => Ok(((None, Some(k)), p3, q1)),
                    }
                } else {
                    Ok(((None, None), p2, q))
                },
            }
        },
    }
}

fn read_context_content(c: &mut BitCursor<'_>, strings: &mut BitCursor<'_>, version: Version) -> (r: Result<(Option<MLeaderText>, Option<MLeaderBlock>)>)
    requires
        old(c).wf(),
        old(strings).wf(),
    ensures
        spec_cursors(*old(c), *final(c), *old(strings), *final(strings)),
        match spec_context_content(old(c).data(), old(c).pos(), old(strings).data(), old(strings).pos(), version) {
            Ok(((t, k), p, q)) => r matches Ok((t2, k2)) && spec_opt_view(t2) == t && spec_opt_view(k2) == k
                && final(c).pos() == p && final(strings).pos() == q,
            Err(Error::SectionMap(_)) => r matches Err(Error::SectionMap(_)),
            Err(Error::Unsupported { .. }) => r matches Err(Error::Unsupported { .. }),
            Err(e) => r matches Err(x) && x == e,
        },
{
    if c.read_b()? {
        let t = read_text_content(c, strings, version)?;
        Ok((Some(t), None))
    } else if c.read_b()? {
        let k = read_block_content(c, strings, version)?;
        Ok((None, Some(k)))
    } else {
        Ok((None, None))
    }
}

/// Base point, direction and vertical, the normal-reversed bit, top
/// and bottom attachment.
pub open spec fn spec_context_tail(b: Seq<u8>, p: int) -> core::result::Result<((Point3D, Vec3D, Vec3D, bool, i16, i16), int), Error> {
    match spec_read_bd3(b, p) {
        Err(e) => Err(e),
        Ok((bp, p1)) => match spec_read_bd3(b, p1) {
            Err(e) => Err(e),
            Ok((bd, p2)) => match spec_read_bd3(b, p2) {
                Err(e) => Err(e),
                Ok((bv, p3)) => match spec_read_b(b, p3) {
                    Err(e) => Err(e),
                    Ok((rev, p4)) => match spec_read_bs(b, p4) {
                        Err(e) => Err(e),
                        Ok((top, p5)) => match spec_read_bs(b, p5) {
                            Err(e) => Err(e),
                            Ok((bottom, p6)) => Ok(((bp, bd, bv, rev, top, bottom), p6)),
                        },
                    },
                },
            },
        },
    }
}

fn read_context_tail(c: &mut BitCursor<'_>) -> (r: Result<(Point3D, Vec3D, Vec3D, bool, i16, i16)>)
    requires
        old(c).wf(),
    ensures
        final(c).wf(),
        final(c).data() == old(c).data(),
        match spec_context_tail(old(c).data(), old(c).pos()) {
            Ok((v, p)) => r == Ok::<(Point3D, Vec3D, Vec3D, bool, i16, i16), Error>(v) && final(c).pos() == p,
            Err(e) => r == Err::<(Point3D, Vec3D, Vec3D, bool, i16, i16), Error>(e),
        },
{
    let bp = read_bd3(c)?;
    let bd = read_bd3(c)?;
    let bv = read_bd3(c)?;
    let rev = c.read_b()?;
    let top = c.read_bs()?;
    let bottom = c.read_bs()?;
    Ok((bp, bd, bv, rev, top, bottom))
}

/// The context: roots, frame, content, tail.
#[verifier::opaque]
pub open spec fn spec_context(b: Seq<u8>, p: int, s: Seq<u8>, q: int, version: Version) -> core::result::Result<(MLeaderContextView, int, int), Error> {
    match spec_context_roots(b, p, s, q, version) {
        Err(e) => Err(e),
        Ok((roots, p1, q1)) => match spec_context_frame(b, p1) {
            Err(e) => Err(e),
            Ok(((scale, base, th, ahs, gap, la, ra, tat, at), p2)) => match spec_context_content(b, p2, s, q1, version) {
                Err(e) => Err(e),
                Ok(((text, block), p3, q2)) => match spec_context_tail(b, p3) {
                    Err(e) => Err(e),
                    Ok(((bp, bd, bv, rev, top, bottom), p4)) => Ok((
                        MLeaderContextView {
                            leader_roots: roots,
                            overall_scale: scale,
                            content_base_point: base,
                            text_height: th,
                            arrow_head_size: ahs,
                            landing_gap: gap,
                            left_attachment: la,
                            right_attachment: ra,
                            text_align_type: tat,
                            attachment_type: at,
                            text,
                            block,
                            base_point: bp,
                            base_direction: bd,
                            base_vertical: bv,
                            normal_reversed: rev,
                            top_attachment: top,
                            bottom_attachment: bottom,
                        },
                        p4,
                        q2,
                    )),
                },
            },
        },
    }
}

fn read_context(c: &mut BitCursor<'_>, strings: &mut BitCursor<'_>, version: Version) -> (r: Result<MLeaderContext>)
    requires
        old(c).wf(),
        old(strings).wf(),
    ensures
        spec_cursors(*old(c), *final(c), *old(strings), *final(strings)),
        spec_outcome2(r, final(c).pos(), final(strings).pos(), spec_context(old(c).data(), old(c).pos(), old(strings).data(), old(strings).pos(), version)),
{
    reveal(spec_context);
    let leader_roots = read_context_roots(c, strings, version)?;
    let (overall_scale, content_base_point, text_height, arrow_head_size, landing_gap, left_attachment, right_attachment, text_align_type, attachment_type) =
        read_context_frame(c)?;
    let (text, block) = read_context_content(c, strings, version)?;
    let (base_point, base_direction, base_vertical, normal_reversed, top_attachment, bottom_attachment) = read_context_tail(c)?;
    Ok(MLeaderContext {
        leader_roots,
        overall_scale,
        content_base_point,
        text_height,
        arrow_head_size,
        landing_gap,
        left_attachment,
        right_attachment,
        text_align_type,
        attachment_type,
        text,
        block,
        base_point,
        base_direction,
        base_vertical,
        normal_reversed,
        top_attachment,
        bottom_attachment,
    })
}

// ---------------------------------------------------------------- the record

/// A decoded MULTILEADER; doubles are bit patterns, object references
/// null handles.
#[derive(Debug, Clone, PartialEq)]
pub struct MLeader {
    pub class_version: i16,
    pub context: MLeaderContext,
    pub leader_style_handle: Handle,
    pub override_flags: u32,
    /// 0 invisible, 1 straight, 2 spline.
    pub leader_type: i16,
    pub leader_color: Cmc,
    pub line_type_handle: Handle,
    pub line_weight: i32,
    pub landing_enabled: bool,
    pub dogleg_enabled: bool,
    pub landing_distance: u64,
    pub arrow_head_handle: Handle,
    pub arrow_head_size: u64,
    /// 0 none, 1 block, 2 mtext, 3 tolerance.
    pub content_type: i16,
    pub text_style_handle: Handle,
    pub left_attachment: i16,
    pub right_attachment: i16,
    pub text_angle_type: i16,
    pub unknown_175: i16,
    pub text_color: Cmc,
    pub text_frame_enabled: bool,
    pub block_handle: Handle,
    pub block_color: Cmc,
    pub block_scale: Point3D,
    pub block_rotation: u64,
    pub block_attachment_type: i16,
    pub is_annotative: bool,
    /// An `MC` after the annotative bit whose meaning is not known.
    pub undocumented_mc: i64,
    /// The bit after it, also of unknown meaning.
    pub undocumented_flag: bool,
    pub attachment_direction: i16,
    pub top_attachment: i16,
    pub bottom_attachment: i16,
    /// Read from R2013; `false` before.
    pub leader_extended_to_text: bool,
}

/// [`MLeader`] by view.
pub struct MLeaderView {
    pub class_version: i16,
    pub context: MLeaderContextView,
    pub leader_style_handle: Handle,
    pub override_flags: u32,
    pub leader_type: i16,
    pub leader_color: CmcView,
    pub line_type_handle: Handle,
    pub line_weight: i32,
    pub landing_enabled: bool,
    pub dogleg_enabled: bool,
    pub landing_distance: u64,
    pub arrow_head_handle: Handle,
    pub arrow_head_size: u64,
    pub content_type: i16,
    pub text_style_handle: Handle,
    pub left_attachment: i16,
    pub right_attachment: i16,
    pub text_angle_type: i16,
    pub unknown_175: i16,
    pub text_color: CmcView,
    pub text_frame_enabled: bool,
    pub block_handle: Handle,
    pub block_color: CmcView,
    pub block_scale: Point3D,
    pub block_rotation: u64,
    pub block_attachment_type: i16,
    pub is_annotative: bool,
    pub undocumented_mc: i64,
    pub undocumented_flag: bool,
    pub attachment_direction: i16,
    pub top_attachment: i16,
    pub bottom_attachment: i16,
    pub leader_extended_to_text: bool,
}

impl View for MLeader {
    type V = MLeaderView;

    open spec fn view(&self) -> MLeaderView {
        MLeaderView {
            class_version: self.class_version,
            context: self.context@,
            leader_style_handle: self.leader_style_handle,
            override_flags: self.override_flags,
            leader_type: self.leader_type,
            leader_color: self.leader_color@,
            line_type_handle: self.line_type_handle,
            line_weight: self.line_weight,
            landing_enabled: self.landing_enabled,
            dogleg_enabled: self.dogleg_enabled,
            landing_distance: self.landing_distance,
            arrow_head_handle: self.arrow_head_handle,
            arrow_head_size: self.arrow_head_size,
            content_type: self.content_type,
            text_style_handle: self.text_style_handle,
            left_attachment: self.left_attachment,
            right_attachment: self.right_attachment,
            text_angle_type: self.text_angle_type,
            unknown_175: self.unknown_175,
            text_color: self.text_color@,
            text_frame_enabled: self.text_frame_enabled,
            block_handle: self.block_handle,
            block_color: self.block_color@,
            block_scale: self.block_scale,
            block_rotation: self.block_rotation,
            block_attachment_type: self.block_attachment_type,
            is_annotative: self.is_annotative,
            undocumented_mc: self.undocumented_mc,
            undocumented_flag: self.undocumented_flag,
            attachment_direction: self.attachment_direction,
            top_attachment: self.top_attachment,
            bottom_attachment: self.bottom_attachment,
            leader_extended_to_text: self.leader_extended_to_text,
        }
    }
}

/// The leader style: override flags, type, colour, weight, landing and
/// dog-leg bits, landing distance, arrow head size, content type.
pub open spec fn spec_style_leader(b: Seq<u8>, p: int, s: Seq<u8>, q: int, version: Version) -> core::result::Result<((u32, i16, CmcView, i32, bool, bool, u64, u64, i16), int, int), Error> {
    match spec_read_bl_u(b, p) {
        Err(e) => Err(e),
        Ok((flags, p1)) => match spec_read_bs(b, p1) {
            Err(e) => Err(e),
            Ok((kind, p2)) => match spec_cmc(b, p2, s, q, version) {
                Err(e) => Err(e),
                Ok((color, p3, q1)) => match spec_read_bl(b, p3) {
                    Err(e) => Err(e),
                    Ok((weight, p4)) => match spec_read_b(b, p4) {
                        Err(e) => Err(e),
                        Ok((landing, p5)) => match spec_read_b(b, p5) {
                            Err(e) => Err(e),
                            Ok((dogleg, p6)) => match spec_read_bd(b, p6) {
                                Err(e) => Err(e),
                                Ok((dist, p7)) => match spec_read_bd(b, p7) {
                                    Err(e) => Err(e),
                                    Ok((arrow, p8)) => match spec_read_bs(b, p8) {
                                        Err(e) => Err(e),
                                        Ok((content, p9)) => Ok(((flags, kind, color, weight, landing, dogleg, dist, arrow, content), p9, q1)),
                                    },
                                },
                            },
                        },
                    },
                },
            },
        },
    }
}

fn read_style_leader(c: &mut BitCursor<'_>, strings: &mut BitCursor<'_>, version: Version) -> (r: Result<(u32, i16, Cmc, i32, bool, bool, u64, u64, i16)>)
    requires
        old(c).wf(),
        old(strings).wf(),
    ensures
        spec_cursors(*old(c), *final(c), *old(strings), *final(strings)),
        match spec_style_leader(old(c).data(), old(c).pos(), old(strings).data(), old(strings).pos(), version) {
            Ok(((f, k, col, w, l, d, dist, a, ct), p, q)) => r matches Ok((f2, k2, col2, w2, l2, d2, dist2, a2, ct2))
                && f2 == f && k2 == k && col2@ == col && w2 == w && l2 == l && d2 == d && dist2 == dist && a2 == a && ct2 == ct
                && final(c).pos() == p && final(strings).pos() == q,
            Err(Error::SectionMap(_)) => r matches Err(Error::SectionMap(_)),
            Err(Error::Unsupported { .. }) => r matches Err(Error::Unsupported { .. }),
            Err(e) => r matches Err(x) && x == e,
        },
{
    let flags = c.read_bl_u()?;
    let kind = c.read_bs()?;
    let color = read_cmc(c, strings, version)?;
    let weight = c.read_bl()?;
    let landing = c.read_b()?;
    let dogleg = c.read_b()?;
    let dist = c.read_bd()?;
    let arrow = c.read_bd()?;
    let content = c.read_bs()?;
    Ok((flags, kind, color, weight, landing, dogleg, dist, arrow, content))
}

/// The text and block style: attachments, text angle type, an unknown
/// code, text colour, frame bit, block colour, scale, rotation and
/// attachment type.
pub open spec fn spec_style_content(b: Seq<u8>, p: int, s: Seq<u8>, q: int, version: Version) -> core::result::Result<((i16, i16, i16, i16, CmcView, bool, CmcView, Point3D, u64, i16), int, int), Error> {
    match spec_read_bs(b, p) {
        Err(e) => Err(e),
        Ok((la, p1)) => match spec_read_bs(b, p1) {
            Err(e) => Err(e),
            Ok((ra, p2)) => match spec_read_bs(b, p2) {
                Err(e) => Err(e),
                Ok((angle, p3)) => match spec_read_bs(b, p3) {
                    Err(e) => Err(e),
                    Ok((unknown, p4)) => match spec_cmc(b, p4, s, q, version) {
                        Err(e) => Err(e),
                        Ok((text_color, p5, q1)) => match spec_read_b(b, p5) {
                            Err(e) => Err(e),
                            Ok((frame, p6)) => match spec_cmc(b, p6, s, q1, version) {
                                Err(e) => Err(e),
                                Ok((block_color, p7, q2)) => match spec_read_bd3(b, p7) {
                                    Err(e) => Err(e),
                                    Ok((scale, p8)) => match spec_read_bd(b, p8) {
                                        Err(e) => Err(e),
                                        Ok((rotation, p9)) => match spec_read_bs(b, p9) {
                                            Err(e) => Err(e),
                                            Ok((attach, p10)) => Ok((
                                                (la, ra, angle, unknown, text_color, frame, block_color, scale, rotation, attach),
                                                p10,
                                                q2,
                                            )),
                                        },
                                    },
                                },
                            },
                        },
                    },
                },
            },
        },
    }
}

fn read_style_content(c: &mut BitCursor<'_>, strings: &mut BitCursor<'_>, version: Version) -> (r: Result<(i16, i16, i16, i16, Cmc, bool, Cmc, Point3D, u64, i16)>)
    requires
        old(c).wf(),
        old(strings).wf(),
    ensures
        spec_cursors(*old(c), *final(c), *old(strings), *final(strings)),
        match spec_style_content(old(c).data(), old(c).pos(), old(strings).data(), old(strings).pos(), version) {
            Ok(((la, ra, an, un, tc, fr, bc, sc, ro, at), p, q)) => r matches Ok((la2, ra2, an2, un2, tc2, fr2, bc2, sc2, ro2, at2))
                && la2 == la && ra2 == ra && an2 == an && un2 == un && tc2@ == tc && fr2 == fr && bc2@ == bc && sc2 == sc
                && ro2 == ro && at2 == at && final(c).pos() == p && final(strings).pos() == q,
            Err(Error::SectionMap(_)) => r matches Err(Error::SectionMap(_)),
            Err(Error::Unsupported { .. }) => r matches Err(Error::Unsupported { .. }),
            Err(e) => r matches Err(x) && x == e,
        },
{
    let la = c.read_bs()?;
    let ra = c.read_bs()?;
    let angle = c.read_bs()?;
    let unknown = c.read_bs()?;
    let text_color = read_cmc(c, strings, version)?;
    let frame = c.read_b()?;
    let block_color = read_cmc(c, strings, version)?;
    let scale = read_bd3(c)?;
    let rotation = c.read_bd()?;
    let attach = c.read_bs()?;
    Ok((la, ra, angle, unknown, text_color, frame, block_color, scale, rotation, attach))
}

/// The trailer: the annotative bit, the undocumented `MC` and bit, the
/// attachment direction, top and bottom attachment, and from R2013 the
/// leader-extended bit.
pub open spec fn spec_style_tail(b: Seq<u8>, p: int, version: Version) -> core::result::Result<((bool, i64, bool, i16, i16, i16, bool), int), Error> {
    match spec_read_b(b, p) {
        Err(e) => Err(e),
        Ok((annotative, p1)) => match spec_read_mc(b, p1) {
            Err(e) => Err(e),
            Ok((mc, p2)) => match spec_read_b(b, p2) {
                Err(e) => Err(e),
                Ok((flag, p3)) => match spec_read_bs(b, p3) {
                    Err(e) => Err(e),
                    Ok((dir, p4)) => match spec_read_bs(b, p4) {
                        Err(e) => Err(e),
                        Ok((top, p5)) => match spec_read_bs(b, p5) {
                            Err(e) => Err(e),
                            Ok((bottom, p6)) => if version.spec_is_r2013_plus() {
                                match spec_read_b(b, p6) {
                                    Err(e) => Err(e),
                                    Ok((ext, p7)) => Ok(((annotative, mc, flag, dir, top, bottom, ext), p7)),
                                }
                            } else {
                                Ok(((annotative, mc, flag, dir, top, bottom, false), p6))
                            },
                        },
                    },
                },
            },
        },
    }
}

fn read_style_tail(c: &mut BitCursor<'_>, version: Version) -> (r: Result<(bool, i64, bool, i16, i16, i16, bool)>)
    requires
        old(c).wf(),
    ensures
        final(c).wf(),
        final(c).data() == old(c).data(),
        match spec_style_tail(old(c).data(), old(c).pos(), version) {
            Ok((v, p)) => r == Ok::<(bool, i64, bool, i16, i16, i16, bool), Error>(v) && final(c).pos() == p,
            Err(Error::SectionMap(_)) => r matches Err(Error::SectionMap(_)),
            Err(e) => r == Err::<(bool, i64, bool, i16, i16, i16, bool), Error>(e),
        },
{
    let annotative = c.read_b()?;
    let mc = c.read_mc()?;
    let flag = c.read_b()?;
    let dir = c.read_bs()?;
    let top = c.read_bs()?;
    let bottom = c.read_bs()?;
    let ext = if version.is_r2013_plus() { c.read_b()? } else { false };
    Ok((annotative, mc, flag, dir, top, bottom, ext))
}

/// The whole body: class version, context, leader style, content style,
/// trailer.
pub open spec fn spec_body(b: Seq<u8>, p: int, s: Seq<u8>, q: int, version: Version) -> core::result::Result<(MLeaderView, int, int), Error> {
    match spec_read_bs(b, p) {
        Err(e) => Err(e),
        Ok((cv, p1)) => match spec_context(b, p1, s, q, version) {
            Err(e) => Err(e),
            Ok((context, p2, q1)) => match spec_style_leader(b, p2, s, q1, version) {
                Err(e) => Err(e),
                Ok(((flags, kind, color, weight, landing, dogleg, dist, arrow, content), p3, q2)) => match spec_style_content(
                    b,
                    p3,
                    s,
                    q2,
                    version,
                ) {
                    Err(e) => Err(e),
                    Ok(((la, ra, angle, unknown, text_color, frame, block_color, scale, rotation, attach), p4, q3)) => match spec_style_tail(
                        b,
                        p4,
                        version,
                    ) {
                        Err(e) => Err(e),
                        Ok(((annotative, mc, flag, dir, top, bottom, ext), p5)) => Ok((
                            MLeaderView {
                                class_version: cv,
                                context,
                                leader_style_handle: spec_null_handle(),
                                override_flags: flags,
                                leader_type: kind,
                                leader_color: color,
                                line_type_handle: spec_null_handle(),
                                line_weight: weight,
                                landing_enabled: landing,
                                dogleg_enabled: dogleg,
                                landing_distance: dist,
                                arrow_head_handle: spec_null_handle(),
                                arrow_head_size: arrow,
                                content_type: content,
                                text_style_handle: spec_null_handle(),
                                left_attachment: la,
                                right_attachment: ra,
                                text_angle_type: angle,
                                unknown_175: unknown,
                                text_color,
                                text_frame_enabled: frame,
                                block_handle: spec_null_handle(),
                                block_color,
                                block_scale: scale,
                                block_rotation: rotation,
                                block_attachment_type: attach,
                                is_annotative: annotative,
                                undocumented_mc: mc,
                                undocumented_flag: flag,
                                attachment_direction: dir,
                                top_attachment: top,
                                bottom_attachment: bottom,
                                leader_extended_to_text: ext,
                            },
                            p5,
                            q3,
                        )),
                    },
                },
            },
        },
    }
}

/// Read a MULTILEADER body from a data cursor past the common entity
/// preamble, taking its text from `strings`, a cursor on the record's
/// string stream.
pub fn read_body(c: &mut BitCursor<'_>, strings: &mut BitCursor<'_>, version: Version) -> (r: Result<MLeader>)
    requires
        old(c).wf(),
        old(strings).wf(),
    ensures
        spec_cursors(*old(c), *final(c), *old(strings), *final(strings)),
        spec_outcome2(r, final(c).pos(), final(strings).pos(), spec_body(old(c).data(), old(c).pos(), old(strings).data(), old(strings).pos(), version)),
{
    let class_version = c.read_bs()?;
    let context = read_context(c, strings, version)?;
    let (override_flags, leader_type, leader_color, line_weight, landing_enabled, dogleg_enabled, landing_distance, arrow_head_size, content_type) =
        read_style_leader(c, strings, version)?;
    let (left_attachment, right_attachment, text_angle_type, unknown_175, text_color, text_frame_enabled, block_color, block_scale, block_rotation, block_attachment_type) =
        read_style_content(c, strings, version)?;
    let (is_annotative, undocumented_mc, undocumented_flag, attachment_direction, top_attachment, bottom_attachment, leader_extended_to_text) =
        read_style_tail(c, version)?;
    Ok(MLeader {
        class_version,
        context,
        leader_style_handle: null_handle(),
        override_flags,
        leader_type,
        leader_color,
        line_type_handle: null_handle(),
        line_weight,
        landing_enabled,
        dogleg_enabled,
        landing_distance,
        arrow_head_handle: null_handle(),
        arrow_head_size,
        content_type,
        text_style_handle: null_handle(),
        left_attachment,
        right_attachment,
        text_angle_type,
        unknown_175,
        text_color,
        text_frame_enabled,
        block_handle: null_handle(),
        block_color,
        block_scale,
        block_rotation,
        block_attachment_type,
        is_annotative,
        undocumented_mc,
        undocumented_flag,
        attachment_direction,
        top_attachment,
        bottom_attachment,
        leader_extended_to_text,
    })
}

} // verus!
