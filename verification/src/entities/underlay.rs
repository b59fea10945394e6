//! PDF / DWF / DGN UNDERLAY entities: a reference to an external
//! document shown beneath the drawing, with its placement and an
//! optional clip polygon. The three share one stream shape.
use vstd::prelude::*;

use crate::bitcursor::{spec_read_bd, spec_read_bs, spec_read_handle, spec_read_rc, BitCursor, Handle};
use crate::entities::{read_bd2, read_bd3, spec_outcome_view, spec_read_bd2, spec_read_bd3, spec_rejected, Point2D, Point3D, Vec3D};
use crate::error::{Error, Result};
use crate::header::concat_text;
use crate::text::{push_decimal, push_signed_decimal, spec_decimal_digits, spec_signed_decimal};
use crate::version::Version;

verus! {

/// Which underlay family a record came from.
#[derive(Debug, Clone, Copy, PartialEq, Eq, Hash, Structural)]
pub enum UnderlayKind {
    Pdf,
    Dwf,
    Dgn,
}

/// Decoded UNDERLAY payload; doubles are bit patterns.
#[derive(Debug, Clone, PartialEq, Eq)]
pub struct Underlay {
    pub kind: UnderlayKind,
    pub insertion_point: Point3D,
    pub scale: Vec3D,
    pub rotation: u64,
    pub normal: Vec3D,
    pub flags: u8,
    pub contrast: u8,
    pub fade: u8,
    pub clip_polygon: Vec<Point2D>,
    /// Handle to the underlay definition; all zero from R2007, where
    /// it lives in the handle stream.
    pub definition_handle: Handle,
}

/// [`Underlay`] with its clip polygon as a sequence.
pub struct UnderlayView {
    pub kind: UnderlayKind,
    pub insertion_point: Point3D,
    pub scale: Vec3D,
    pub rotation: u64,
    pub normal: Vec3D,
    pub flags: u8,
    pub contrast: u8,
    pub fade: u8,
    pub clip_polygon: Seq<Point2D>,
    pub definition_handle: Handle,
}

impl View for Underlay {
    type V = UnderlayView;

    open spec fn view(&self) -> UnderlayView {
        UnderlayView {
            kind: self.kind,
            insertion_point: self.insertion_point,
            scale: self.scale,
            rotation: self.rotation,
            normal: self.normal,
            flags: self.flags,
            contrast: self.contrast,
            fade: self.fade,
            clip_polygon: self.clip_polygon@,
            definition_handle: self.definition_handle,
        }
    }
}

impl Underlay {
    /// Bit 0x01 of `flags`: clipping is enabled.
    pub fn is_clip_on(&self) -> (b: bool)
        ensures
            b == (self.flags & 0x01 != 0),
    {
        self.flags & 0x01 != 0
    }

    /// Bit 0x02 of `flags`: the underlay is displayed.
    pub fn is_underlay_on(&self) -> (b: bool)
        ensures
            b == (self.flags & 0x02 != 0),
    {
        self.flags & 0x02 != 0
    }

    /// Bit 0x04 of `flags`: the underlay is drawn monochrome.
    pub fn is_monochrome(&self) -> (b: bool)
        ensures
            b == (self.flags & 0x04 != 0),
    {
        self.flags & 0x04 != 0
    }

    /// Bit 0x08 of `flags`: colours are adjusted for the background.
    pub fn is_adjust_for_background(&self) -> (b: bool)
        ensures
            b == (self.flags & 0x08 != 0),
    {
        self.flags & 0x08 != 0
    }
}

/// Cap on the clip polygon's vertex count.
pub const UNDERLAY_MAX_CLIP_VERTS: usize = 100000;

/// `n` `2BD` points in a row.
pub open spec fn spec_read_bd2_seq(b: Seq<u8>, p: int, n: nat) -> core::result::Result<(Seq<Point2D>, int), Error>
    decreases n,
{
    if n == 0 {
        Ok((Seq::empty(), p))
    } else {
        match spec_read_bd2_seq(b, p, (n - 1) as nat) {
            Err(e) => Err(e),
            Ok((s, p1)) => match spec_read_bd2(b, p1) {
                Err(e) => Err(e),
                Ok((x, p2)) => Ok((s.push(x), p2)),
            },
        }
    }
}

proof fn lemma_bd2_seq_error(b: Seq<u8>, p: int, i: nat, n: nat, e: Error)
    requires
        i < n,
        spec_read_bd2_seq(b, p, (i + 1) as nat) == Err::<(Seq<Point2D>, int), Error>(e),
    ensures
        spec_read_bd2_seq(b, p, n) == Err::<(Seq<Point2D>, int), Error>(e),
    decreases n,
{
    if n > i + 1 {
        lemma_bd2_seq_error(b, p, i, (n - 1) as nat, e);
    }
}

fn read_bd2_vec(c: &mut BitCursor<'_>, n: usize) -> (r: Result<Vec<Point2D>>)
    requires
        old(c).wf(),
    ensures
        final(c).wf(),
        final(c).data() == old(c).data(),
        match spec_read_bd2_seq(old(c).data(), old(c).pos(), n as nat) {
            Ok((s, p)) => r matches Ok(v) && v@ == s && final(c).pos() == p,
            Err(e) => r == Err::<Vec<Point2D>, Error>(e),
        },
{
    let ghost p0 = c.pos();
    let mut out: Vec<Point2D> = Vec::new();
    let mut i: usize = 0;
    while i < n
        invariant
            c.wf(),
            c.data() == old(c).data(),
            p0 == old(c).pos(),
            0 <= i <= n,
            spec_read_bd2_seq(c.data(), p0, i as nat) == Ok::<(Seq<Point2D>, int), Error>((out@, c.pos())),
        decreases n - i,
    {
        let ghost data = c.data();
        let rp = read_bd2(c);
        proof {
            if rp is Err {
                lemma_bd2_seq_error(data, p0, i as nat, n as nat, rp->Err_0);
            }
        }
        let pt = rp?;
        out.push(pt);
        i += 1;
    }
    Ok(out)
}

/// The placement: normal, insertion point, rotation, scale.
pub open spec fn spec_placement(b: Seq<u8>, p: int) -> core::result::Result<((Vec3D, Point3D, u64, Vec3D), int), Error> {
    match spec_read_bd3(b, p) {
        Err(e) => Err(e),
        Ok((normal, p1)) => match spec_read_bd3(b, p1) {
            Err(e) => Err(e),
            Ok((ins, p2)) => match spec_read_bd(b, p2) {
                Err(e) => Err(e),
                Ok((rot, p3)) => match spec_read_bd3(b, p3) {
                    Err(e) => Err(e),
                    Ok((scale, p4)) => Ok(((normal, ins, rot, scale), p4)),
                },
            },
        },
    }
}

/// `RC flags, RC contrast, RC fade`.
pub open spec fn spec_display(b: Seq<u8>, p: int) -> core::result::Result<((u8, u8, u8), int), Error> {
    match spec_read_rc(b, p) {
        Err(e) => Err(e),
        Ok((flags, p1)) => match spec_read_rc(b, p1) {
            Err(e) => Err(e),
            Ok((contrast, p2)) => match spec_read_rc(b, p2) {
                Err(e) => Err(e),
                Ok((fade, p3)) => Ok(((flags, contrast, fade), p3)),
            },
        },
    }
}

/// `BS count` (refused when negative, over the cap, or over the bits
/// left), the clip vertices as `2BD`s, and before R2007 the definition
/// handle.
pub open spec fn spec_clip_and_handle(b: Seq<u8>, p: int, version: Version) -> core::result::Result<((Seq<Point2D>, Handle), int), Error> {
    match spec_read_bs(b, p) {
        Err(e) => Err(e),
        Ok((n, p1)) => if n < 0 || n > UNDERLAY_MAX_CLIP_VERTS || n > b.len() * 8 - p1 {
            Err(spec_rejected())
        } else {
            match spec_read_bd2_seq(b, p1, n as nat) {
                Err(e) => Err(e),
                Ok((clip, p2)) => if version.spec_is_r2007_plus() {
                    Ok(((clip, Handle { code: 0, counter: 0, value: 0 }), p2))
                } else {
                    match spec_read_handle(b, p2) {
                        Err(e) => Err(e),
                        Ok((h, p3)) => Ok(((clip, h), p3)),
                    }
                },
            }
        },
    }
}

/// The placement, the display bytes, then the clip polygon and handle.
pub open spec fn spec_decode(b: Seq<u8>, p: int, kind: UnderlayKind, version: Version) -> core::result::Result<(UnderlayView, int), Error> {
    match spec_placement(b, p) {
        Err(e) => Err(e),
        Ok(((normal, ins, rot, scale), p1)) => match spec_display(b, p1) {
            Err(e) => Err(e),
            Ok(((flags, contrast, fade), p2)) => match spec_clip_and_handle(b, p2, version) {
                Err(e) => Err(e),
                Ok(((clip, h), p3)) => Ok(
                    (
                        UnderlayView {
                            kind,
                            insertion_point: ins,
                            scale,
                            rotation: rot,
                            normal,
                            flags,
                            contrast,
                            fade,
                            clip_polygon: clip,
                            definition_handle: h,
                        },
                        p3,
                    ),
                ),
            },
        },
    }
}

/// The message of the refusal of a clip-vertex count read at `p`:
/// the count, the cap and the bits left.
pub open spec fn spec_clip_refusal(b: Seq<u8>, p: int) -> Option<Seq<char>> {
    match spec_read_bs(b, p) {
        Err(_) => None,
        Ok((n, p1)) => if n < 0 || n > UNDERLAY_MAX_CLIP_VERTS || n > b.len() * 8 - p1 {
            Some(
                "UNDERLAY clip verts "@ + spec_signed_decimal(n as int) + " exceeds cap ("@
                    + spec_decimal_digits(UNDERLAY_MAX_CLIP_VERTS as nat) + " or remaining_bits "@
                    + spec_decimal_digits((b.len() * 8 - p1) as nat) + ")"@,
            )
        } else {
            None
        },
    }
}

/// The message of the refusal of the clip-vertex count, when the
/// payload is refused for it.
pub open spec fn spec_refusal_text(b: Seq<u8>, p: int) -> Option<Seq<char>> {
    match spec_placement(b, p) {
        Err(_) => None,
        Ok((_, p1)) => match spec_display(b, p1) {
            Err(_) => None,
            Ok((_, p2)) => spec_clip_refusal(b, p2),
        },
    }
}

fn decode_clip_and_handle(c: &mut BitCursor<'_>, version: Version) -> (r: Result<(Vec<Point2D>, Handle)>)
    requires
        old(c).wf(),
    ensures
        final(c).wf(),
        final(c).data() == old(c).data(),
        match spec_clip_and_handle(old(c).data(), old(c).pos(), version) {
            Ok(((clip, h), p)) => r matches Ok((v, h2)) && v@ == clip && h2 == h && final(c).pos() == p,
            Err(Error::SectionMap(_)) => r matches Err(Error::SectionMap(_)),
            Err(e) => r matches Err(x) && x == e,
        },
        spec_clip_refusal(old(c).data(), old(c).pos()) matches Some(t) ==> (r matches Err(
            Error::SectionMap(m),
        ) && m@ == t),
{
    let n = c.read_bs()?;
    let remaining = c.remaining_bits();
    if n < 0 || n as usize > UNDERLAY_MAX_CLIP_VERTS || n as usize > remaining {
        let mut m = "UNDERLAY clip verts ".to_string();
        push_signed_decimal(&mut m, n as i64);
        let mut m = concat_text(m.as_str(), " exceeds cap (");
        push_decimal(&mut m, UNDERLAY_MAX_CLIP_VERTS as u64);
        let mut m = concat_text(m.as_str(), " or remaining_bits ");
        push_decimal(&mut m, remaining as u64);
        return Err(Error::SectionMap(concat_text(m.as_str(), ")")));
    }
    let clip = read_bd2_vec(c, n as usize)?;
    let h = if version.is_r2007_plus() {
        Handle { code: 0, counter: 0, value: 0 }
    } else {
        c.read_handle()?
    };
    Ok((clip, h))
}

/// Decode an UNDERLAY payload of the given family.
pub fn decode(c: &mut BitCursor<'_>, kind: UnderlayKind, version: Version) -> (r: Result<Underlay>)
    requires
        old(c).wf(),
    ensures
        final(c).wf(),
        final(c).data() == old(c).data(),
        spec_outcome_view(r, final(c).pos(), spec_decode(old(c).data(), old(c).pos(), kind, version)),
        spec_refusal_text(old(c).data(), old(c).pos()) matches Some(t) ==> (r matches Err(
            Error::SectionMap(m),
        ) && m@ == t),
{
    let normal = read_bd3(c)?;
    let insertion_point = read_bd3(c)?;
    let rotation = c.read_bd()?;
    let scale = read_bd3(c)?;
    let flags = c.read_rc()?;
    let contrast = c.read_rc()?;
    let fade = c.read_rc()?;
    let (clip_polygon, definition_handle) = decode_clip_and_handle(c, version)?;
    Ok(Underlay {
        kind,
        insertion_point,
        scale,
        rotation,
        normal,
        flags,
        contrast,
        fade,
        clip_polygon,
        definition_handle,
    })
}

} // verus!
