//! IMAGE entity: a raster image placed by an insertion point and two
//! pixel vectors, with an optional clip boundary.
//!
//! ```text
//! BL   class_version
//! 3BD  insertion_point
//! 3BD  u_vector             -- one pixel along the image's x
//! 3BD  v_vector             -- one pixel along the image's y
//! 2RD  size                 -- in pixels
//! BS   display_flags
//! B    clipping
//! RC   brightness
//! RC   contrast
//! RC   fade
//! B    clip_mode            -- R2010+ only
//! BS   clip_boundary_type   -- 1: rectangle, otherwise polygon
//! 2RD  × 2                  -- rectangle: two opposite corners
//! BL   count, 2RD × count   -- polygon
//! ```
use vstd::prelude::*;

use crate::bitcursor::{spec_read_b, spec_read_bl, spec_read_bs, spec_read_rc, BitCursor};
use crate::entities::{read_bd3, read_rd2, spec_outcome_view, spec_read_bd3, spec_read_rd2, spec_rejected, Point2D, Point3D, Vec3D};
use crate::error::{Error, Result};
use crate::version::Version;

verus! {

/// The clip boundary of an image, in pixel coordinates.
#[derive(Debug, Clone, PartialEq)]
pub enum ClipBoundary {
    /// Two opposite corners.
    Rectangle(Point2D, Point2D),
    /// The vertices of a closed polygon.
    Polygon(Vec<Point2D>),
}

/// [`ClipBoundary`] with the polygon as a sequence.
pub enum ClipBoundaryView {
    Rectangle(Point2D, Point2D),
    Polygon(Seq<Point2D>),
}

impl View for ClipBoundary {
    type V = ClipBoundaryView;

    open spec fn view(&self) -> ClipBoundaryView {
        match self {
            ClipBoundary::Rectangle(a, b) => ClipBoundaryView::Rectangle(*a, *b),
            ClipBoundary::Polygon(v) => ClipBoundaryView::Polygon(v@),
        }
    }
}

/// Decoded IMAGE payload; doubles are bit patterns.
#[derive(Debug, Clone, PartialEq)]
pub struct Image {
    pub class_version: i32,
    pub insertion_point: Point3D,
    pub u_vector: Vec3D,
    pub v_vector: Vec3D,
    pub size: Point2D,
    pub display_flags: i16,
    pub clipping: bool,
    pub brightness: u8,
    pub contrast: u8,
    pub fade: u8,
    /// Clip inside (`false`) or outside the boundary; `false` before
    /// R2010, which does not store it.
    pub clip_mode: bool,
    pub clip_boundary_type: i16,
    pub clip_boundary: ClipBoundary,
}

/// [`Image`] with its boundary by view.
pub struct ImageView {
    pub class_version: i32,
    pub insertion_point: Point3D,
    pub u_vector: Vec3D,
    pub v_vector: Vec3D,
    pub size: Point2D,
    pub display_flags: i16,
    pub clipping: bool,
    pub brightness: u8,
    pub contrast: u8,
    pub fade: u8,
    pub clip_mode: bool,
    pub clip_boundary_type: i16,
    pub clip_boundary: ClipBoundaryView,
}

impl View for Image {
    type V = ImageView;

    open spec fn view(&self) -> ImageView {
        ImageView {
            class_version: self.class_version,
            insertion_point: self.insertion_point,
            u_vector: self.u_vector,
            v_vector: self.v_vector,
            size: self.size,
            display_flags: self.display_flags,
            clipping: self.clipping,
            brightness: self.brightness,
            contrast: self.contrast,
            fade: self.fade,
            clip_mode: self.clip_mode,
            clip_boundary_type: self.clip_boundary_type,
            clip_boundary: self.clip_boundary@,
        }
    }
}

/// The placement: class version, insertion point, the two pixel
/// vectors and the size.
pub open spec fn spec_placement(b: Seq<u8>, p: int) -> core::result::Result<((i32, Point3D, Vec3D, Vec3D, Point2D), int), Error> {
    match spec_read_bl(b, p) {
        Err(e) => Err(e),
        Ok((cv, p1)) => match spec_read_bd3(b, p1) {
            Err(e) => Err(e),
            Ok((ins, p2)) => match spec_read_bd3(b, p2) {
                Err(e) => Err(e),
                Ok((u, p3)) => match spec_read_bd3(b, p3) {
                    Err(e) => Err(e),
                    Ok((v, p4)) => match spec_read_rd2(b, p4) {
                        Err(e) => Err(e),
                        Ok((size, p5)) => Ok(((cv, ins, u, v, size), p5)),
                    },
                },
            },
        },
    }
}

/// Display flags, clipping, brightness, contrast, fade, and from R2010
/// the clip mode.
pub open spec fn spec_display(b: Seq<u8>, p: int, version: Version) -> core::result::Result<((i16, bool, u8, u8, u8, bool), int), Error> {
    match spec_read_bs(b, p) {
        Err(e) => Err(e),
        Ok((flags, p1)) => match spec_read_b(b, p1) {
            Err(e) => Err(e),
            Ok((clipping, p2)) => match spec_read_rc(b, p2) {
                Err(e) => Err(e),
                Ok((brightness, p3)) => match spec_read_rc(b, p3) {
                    Err(e) => Err(e),
                    Ok((contrast, p4)) => match spec_read_rc(b, p4) {
                        Err(e) => Err(e),
                        Ok((fade, p5)) => if version.spec_is_r2010_plus() {
                            match spec_read_b(b, p5) {
                                Err(e) => Err(e),
                                Ok((mode, p6)) => Ok(((flags, clipping, brightness, contrast, fade, mode), p6)),
                            }
                        } else {
                            Ok(((flags, clipping, brightness, contrast, fade, false), p5))
                        },
                    },
                },
            },
        },
    }
}

/// `n` `2RD` points in a row.
pub open spec fn spec_read_rd2_seq(b: Seq<u8>, p: int, n: nat) -> core::result::Result<(Seq<Point2D>, int), Error>
    decreases n,
{
    if n == 0 {
        Ok((Seq::empty(), p))
    } else {
        match spec_read_rd2_seq(b, p, (n - 1) as nat) {
            Err(e) => Err(e),
            Ok((s, p1)) => match spec_read_rd2(b, p1) {
                Err(e) => Err(e),
                Ok((x, p2)) => Ok((s.push(x), p2)),
            },
        }
    }
}

/// The boundary type, then two corners for a rectangle (type 1) or a
/// counted vertex list otherwise; a negative count is refused.
pub open spec fn spec_boundary(b: Seq<u8>, p: int) -> core::result::Result<((i16, ClipBoundaryView), int), Error> {
    match spec_read_bs(b, p) {
        Err(e) => Err(e),
        Ok((kind, p1)) => if kind == 1 {
            match spec_read_rd2(b, p1) {
                Err(e) => Err(e),
                Ok((a, p2)) => match spec_read_rd2(b, p2) {
                    Err(e) => Err(e),
                    Ok((c, p3)) => Ok(((kind, ClipBoundaryView::Rectangle(a, c)), p3)),
                },
            }
        } else {
            match spec_read_bl(b, p1) {
                Err(e) => Err(e),
                Ok((n, p2)) => if n < 0 {
                    Err(spec_rejected())
                } else {
                    match spec_read_rd2_seq(b, p2, n as nat) {
                        Err(e) => Err(e),
                        Ok((s, p3)) => Ok(((kind, ClipBoundaryView::Polygon(s)), p3)),
                    }
                },
            }
        },
    }
}

/// Placement, display settings, boundary.
pub open spec fn spec_decode(b: Seq<u8>, p: int, version: Version) -> core::result::Result<(ImageView, int), Error> {
    match spec_placement(b, p) {
        Err(e) => Err(e),
        Ok(((cv, ins, u, v, size), p1)) => match spec_display(b, p1, version) {
            Err(e) => Err(e),
            Ok(((flags, clipping, brightness, contrast, fade, mode), p2)) => match spec_boundary(b, p2) {
                Err(e) => Err(e),
                Ok(((kind, boundary), p3)) => Ok((
                    ImageView {
                        class_version: cv,
                        insertion_point: ins,
                        u_vector: u,
                        v_vector: v,
                        size,
                        display_flags: flags,
                        clipping,
                        brightness,
                        contrast,
                        fade,
                        clip_mode: mode,
                        clip_boundary_type: kind,
                        clip_boundary: boundary,
                    },
                    p3,
                )),
            },
        },
    }
}

proof fn lemma_rd2_seq_error(b: Seq<u8>, p: int, i: nat, n: nat, e: Error)
    requires
        i < n,
        spec_read_rd2_seq(b, p, (i + 1) as nat) == Err::<(Seq<Point2D>, int), Error>(e),
    ensures
        spec_read_rd2_seq(b, p, n) == Err::<(Seq<Point2D>, int), Error>(e),
    decreases n,
{
    if n > i + 1 {
        lemma_rd2_seq_error(b, p, i, (n - 1) as nat, e);
    }
}

fn read_rd2_vec(c: &mut BitCursor<'_>, n: usize) -> (r: Result<Vec<Point2D>>)
    requires
        old(c).wf(),
    ensures
        final(c).wf(),
        final(c).data() == old(c).data(),
        match spec_read_rd2_seq(old(c).data(), old(c).pos(), n as nat) {
            Ok((s, p)) => r matches Ok(v) && v@ == s && final(c).pos() == p,
            Err(e) => r == Err::<Vec<Point2D>, Error>(e),
        },
{
    let ghost p0 = c.pos();
    let mut out: Vec<Point2D> = Vec::new();
    let mut i: usize = 0;
    while i < n
        invariant
            c.wf(),
            c.data() == old(c).data(),
            p0 == old(c).pos(),
            0 <= i <= n,
            spec_read_rd2_seq(c.data(), p0, i as nat) == Ok::<(Seq<Point2D>, int), Error>((out@, c.pos())),
        decreases n - i,
    {
        let ghost data = c.data();
        let rp = read_rd2(c);
        proof {
            if rp is Err {
                lemma_rd2_seq_error(data, p0, i as nat, n as nat, rp->Err_0);
            }
        }
        let pt = rp?;
        out.push(pt);
        i += 1;
    }
    Ok(out)
}

fn read_boundary(c: &mut BitCursor<'_>) -> (r: Result<(i16, ClipBoundary)>)
    requires
        old(c).wf(),
    ensures
        final(c).wf(),
        final(c).data() == old(c).data(),
        match spec_boundary(old(c).data(), old(c).pos()) {
            Ok(((k, bv), p)) => r matches Ok((k2, bd)) && k2 == k && bd@ == bv && final(c).pos() == p,
            Err(Error::SectionMap(_)) => r matches Err(Error::SectionMap(_)),
            Err(e) => r == Err::<(i16, ClipBoundary), Error>(e),
        },
{
    let kind = c.read_bs()?;
    if kind == 1 {
        let a = read_rd2(c)?;
        let d = read_rd2(c)?;
        Ok((kind, ClipBoundary::Rectangle(a, d)))
    } else {
        let n = c.read_bl()?;
        if n < 0 {
            return Err(Error::SectionMap("IMAGE clip vertex count is negative".to_string()));
        }
        let pts = read_rd2_vec(c, n as usize)?;
        Ok((kind, ClipBoundary::Polygon(pts)))
    }
}

/// Decode an IMAGE payload.
pub fn decode(c: &mut BitCursor<'_>, version: Version) -> (r: Result<Image>)
    requires
        old(c).wf(),
    ensures
        final(c).wf(),
        final(c).data() == old(c).data(),
        spec_outcome_view(r, final(c).pos(), spec_decode(old(c).data(), old(c).pos(), version)),
{
    let class_version = c.read_bl()?;
    let insertion_point = read_bd3(c)?;
    let u_vector = read_bd3(c)?;
    let v_vector = read_bd3(c)?;
    let size = read_rd2(c)?;
    let display_flags = c.read_bs()?;
    let clipping = c.read_b()?;
    let brightness = c.read_rc()?;
    let contrast = c.read_rc()?;
    let fade = c.read_rc()?;
    let clip_mode = if version.is_r2010_plus() { c.read_b()? } else { false };
    let (clip_boundary_type, clip_boundary) = read_boundary(c)?;
    Ok(Image {
        class_version,
        insertion_point,
        u_vector,
        v_vector,
        size,
        display_flags,
        clipping,
        brightness,
        contrast,
        fade,
        clip_mode,
        clip_boundary_type,
        clip_boundary,
    })
}

} // verus!
