//! MTEXT entity: a formatted paragraph of text, wrapped to a column
//! width.
//!
//! ```text
//! 3BD  insertion_point
//! 3BD  extrusion
//! 3BD  x_axis_direction
//! BD   rect_width
//! BD   rect_height          -- R2007+ only
//! BD   nominal_text_height
//! BS   attachment_point
//! BS   drawing_direction
//! BD   extents_height
//! BD   extents_width
//! TV   text                 -- in the string stream from R2007
//! BS   linespace_style
//! BD   linespace_factor
//! B    unknown
//! BL   background_flags     -- R2004+; when bit 0x01 (R2018: 0x01 or
//!                              0x10) is set: BD scale, CMC colour as
//!                              BS index + BL rgb + RC byte, BL
//!                              transparency
//! B    is_not_annotative    -- R2018 only; when set: BS version, B
//!                              default, BL attachment, 3BD x axis, 3BD
//!                              insertion, BD × 4 (rect width/height,
//!                              extents width/height), BS column_type,
//!                              and for a column type other than 0:
//!                              BL count, BD column_width, BD
//!                              column_gutter, B auto_height, B
//!                              flow_reversed, and for dynamic columns
//!                              that are not auto-height, BD × count
//! ```
use vstd::prelude::*;

use crate::bitcursor::{
    spec_read_b, spec_read_bd, spec_read_bl, spec_read_bl_u, spec_read_bs, spec_read_bs_u, spec_read_rc, BitCursor,
};
use crate::entities::spline::{read_bd_vec, spec_read_bd_seq};
use crate::entities::{read_bd3, read_tv, spec_outcome, spec_outcome_view, spec_read_bd3, spec_read_tv, spec_rejected, Point3D, Vec3D};
use crate::error::{Error, Result};
use crate::header::concat_text;
use crate::text::{push_decimal, spec_decimal_digits, with_decimal};
use crate::version::Version;

verus! {

/// Cap on the R2018 per-column height list.
pub const MAX_COLUMN_HEIGHTS: usize = 4096;

/// Decoded MTEXT; doubles are bit patterns.
#[derive(Debug, Clone, PartialEq)]
pub struct MText {
    pub insertion_point: Point3D,
    pub extrusion: Vec3D,
    pub x_axis_direction: Vec3D,
    pub rect_width: u64,
    pub rect_height: Option<u64>,
    pub nominal_text_height: u64,
    pub attachment_point: i16,
    pub drawing_direction: i16,
    pub extents_height: u64,
    pub extents_width: u64,
    pub text: String,
    pub linespace_style: i16,
    pub linespace_factor: u64,
    /// The negation of R2018's stored "is not annotative" bit; `true`
    /// on records that do not carry it.
    pub is_annotative: bool,
    /// R2018 column type: 0 none, 1 static, 2 dynamic.
    pub column_type: i16,
    /// R2018 column width; 0 when there are no columns.
    pub column_width: u64,
    /// R2018 column gutter; 0 when there are no columns.
    pub column_gutter: u64,
    /// R2018 per-column heights, stored only for dynamic columns that
    /// are not auto-height.
    pub column_heights: Vec<u64>,
}

/// [`MText`] with its text and column heights as sequences.
pub struct MTextView {
    pub insertion_point: Point3D,
    pub extrusion: Vec3D,
    pub x_axis_direction: Vec3D,
    pub rect_width: u64,
    pub rect_height: Option<u64>,
    pub nominal_text_height: u64,
    pub attachment_point: i16,
    pub drawing_direction: i16,
    pub extents_height: u64,
    pub extents_width: u64,
    pub text: Seq<char>,
    pub linespace_style: i16,
    pub linespace_factor: u64,
    pub is_annotative: bool,
    pub column_type: i16,
    pub column_width: u64,
    pub column_gutter: u64,
    pub column_heights: Seq<u64>,
}

impl View for MText {
    type V = MTextView;

    open spec fn view(&self) -> MTextView {
        MTextView {
            insertion_point: self.insertion_point,
            extrusion: self.extrusion,
            x_axis_direction: self.x_axis_direction,
            rect_width: self.rect_width,
            rect_height: self.rect_height,
            nominal_text_height: self.nominal_text_height,
            attachment_point: self.attachment_point,
            drawing_direction: self.drawing_direction,
            extents_height: self.extents_height,
            extents_width: self.extents_width,
            text: self.text@,
            linespace_style: self.linespace_style,
            linespace_factor: self.linespace_factor,
            is_annotative: self.is_annotative,
            column_type: self.column_type,
            column_width: self.column_width,
            column_gutter: self.column_gutter,
            column_heights: self.column_heights@,
        }
    }
}

/// The frame: insertion point, extrusion, x direction, rectangle
/// width, and from R2007 the rectangle height.
pub open spec fn spec_frame(b: Seq<u8>, p: int, version: Version) -> core::result::Result<((Point3D, Vec3D, Vec3D, u64, Option<u64>), int), Error> {
    match spec_read_bd3(b, p) {
        Err(e) => Err(e),
        Ok((ins, p1)) => match spec_read_bd3(b, p1) {
            Err(e) => Err(e),
            Ok((ext, p2)) => match spec_read_bd3(b, p2) {
                Err(e) => Err(e),
                Ok((xdir, p3)) => match spec_read_bd(b, p3) {
                    Err(e) => Err(e),
                    Ok((rw, p4)) => if version.spec_is_r2007_plus() {
                        match spec_read_bd(b, p4) {
                            Err(e) => Err(e),
                            Ok((rh, p5)) => Ok(((ins, ext, xdir, rw, Some(rh)), p5)),
                        }
                    } else {
                        Ok(((ins, ext, xdir, rw, None), p4))
                    },
                },
            },
        },
    }
}

/// Nominal height, attachment point, drawing direction, extents height
/// and width.
pub open spec fn spec_metrics(b: Seq<u8>, p: int) -> core::result::Result<((u64, i16, i16, u64, u64), int), Error> {
    match spec_read_bd(b, p) {
        Err(e) => Err(e),
        Ok((nh, p1)) => match spec_read_bs(b, p1) {
            Err(e) => Err(e),
            Ok((ap, p2)) => match spec_read_bs(b, p2) {
                Err(e) => Err(e),
                Ok((dd, p3)) => match spec_read_bd(b, p3) {
                    Err(e) => Err(e),
                    Ok((eh, p4)) => match spec_read_bd(b, p4) {
                        Err(e) => Err(e),
                        Ok((ew, p5)) => Ok(((nh, ap, dd, eh, ew), p5)),
                    },
                },
            },
        },
    }
}

/// Line spacing style and factor, then a bit nobody reads.
pub open spec fn spec_linespace(b: Seq<u8>, p: int) -> core::result::Result<((i16, u64), int), Error> {
    match spec_read_bs(b, p) {
        Err(e) => Err(e),
        Ok((style, p1)) => match spec_read_bd(b, p1) {
            Err(e) => Err(e),
            Ok((factor, p2)) => match spec_read_b(b, p2) {
                Err(e) => Err(e),
                Ok((_unknown, p3)) => Ok(((style, factor), p3)),
            },
        },
    }
}

/// The background flag bits that announce a background block.
pub open spec fn spec_background_mask(version: Version) -> i32 {
    if version == Version::R2018 { 0x11 } else { 0x01 }
}

/// The background fill block: scale, colour, transparency; all of it
/// is passed over.
pub open spec fn spec_background_fill(b: Seq<u8>, p: int) -> core::result::Result<((), int), Error> {
    match spec_read_bd(b, p) {
        Err(e) => Err(e),
        Ok((_scale, p1)) => match spec_read_bs_u(b, p1) {
            Err(e) => Err(e),
            Ok((_index, p2)) => match spec_read_bl_u(b, p2) {
                Err(e) => Err(e),
                Ok((_rgb, p3)) => match spec_read_rc(b, p3) {
                    Err(e) => Err(e),
                    Ok((_byte, p4)) => match spec_read_bl(b, p4) {
                        Err(e) => Err(e),
                        Ok((_transparency, p5)) => Ok(((), p5)),
                    },
                },
            },
        },
    }
}

/// From R2004, the background flags and, when they announce it, the
/// fill block.
pub open spec fn spec_background(b: Seq<u8>, p: int, version: Version) -> core::result::Result<((), int), Error> {
    if !version.spec_is_r2004_plus() {
        Ok(((), p))
    } else {
        match spec_read_bl(b, p) {
            Err(e) => Err(e),
            Ok((flags, p1)) => if flags & spec_background_mask(version) != 0 {
                spec_background_fill(b, p1)
            } else {
                Ok(((), p1))
            },
        }
    }
}

/// The annotative context that restates the frame: version, default
/// flag, attachment, x axis, insertion point, four sizes; passed over.
#[verifier::opaque]
pub open spec fn spec_annotation_frame(b: Seq<u8>, p: int) -> core::result::Result<((), int), Error> {
    match spec_read_bs(b, p) {
        Err(e) => Err(e),
        Ok((_v, p1)) => match spec_read_b(b, p1) {
            Err(e) => Err(e),
            Ok((_d, p2)) => match spec_read_bl(b, p2) {
                Err(e) => Err(e),
                Ok((_a, p3)) => match spec_read_bd3(b, p3) {
                    Err(e) => Err(e),
                    Ok((_x, p4)) => match spec_read_bd3(b, p4) {
                        Err(e) => Err(e),
                        Ok((_i, p5)) => match spec_read_bd(b, p5) {
                            Err(e) => Err(e),
                            Ok((_rw, p6)) => match spec_read_bd(b, p6) {
                                Err(e) => Err(e),
                                Ok((_rh, p7)) => match spec_read_bd(b, p7) {
                                    Err(e) => Err(e),
                                    Ok((_ew, p8)) => match spec_read_bd(b, p8) {
                                        Err(e) => Err(e),
                                        Ok((_eh, p9)) => Ok(((), p9)),
                                    },
                                },
                            },
                        },
                    },
                },
            },
        },
    }
}

/// For a column type other than 0: the height count, width, gutter,
/// the auto-height and flow-reversed bits, and for dynamic columns
/// that are not auto-height the heights, whose count is refused over
/// [`MAX_COLUMN_HEIGHTS`] or over the bits left.
#[verifier::opaque]
pub open spec fn spec_columns(b: Seq<u8>, p: int, column_type: i16) -> core::result::Result<((u64, u64, Seq<u64>), int), Error> {
    if column_type == 0 {
        Ok(((0u64, 0u64, Seq::empty()), p))
    } else {
        match spec_read_bl_u(b, p) {
            Err(e) => Err(e),
            Ok((count, p1)) => match spec_read_bd(b, p1) {
                Err(e) => Err(e),
                Ok((width, p2)) => match spec_read_bd(b, p2) {
                    Err(e) => Err(e),
                    Ok((gutter, p3)) => match spec_read_b(b, p3) {
                        Err(e) => Err(e),
                        Ok((auto_height, p4)) => match spec_read_b(b, p4) {
                            Err(e) => Err(e),
                            Ok((_flow, p5)) => if !auto_height && column_type == 2 {
                                if count > MAX_COLUMN_HEIGHTS || count > b.len() * 8 - p5 {
                                    Err(spec_rejected())
                                } else {
                                    match spec_read_bd_seq(b, p5, count as nat) {
                                        Err(e) => Err(e),
                                        Ok((hs, p6)) => Ok(((width, gutter, hs), p6)),
                                    }
                                }
                            } else {
                                Ok(((width, gutter, Seq::empty()), p5))
                            },
                        },
                    },
                },
            },
        }
    }
}

/// The R2018 annotation block: whether the text is annotative, then for
/// a record that says it is not, the restated frame, the column type
/// and the columns.
pub open spec fn spec_annotation(b: Seq<u8>, p: int, version: Version) -> core::result::Result<((bool, i16, u64, u64, Seq<u64>), int), Error> {
    if version != Version::R2018 {
        Ok(((true, 0i16, 0u64, 0u64, Seq::empty()), p))
    } else {
        match spec_read_b(b, p) {
            Err(e) => Err(e),
            Ok((not_annotative, p1)) => if !not_annotative {
                Ok(((true, 0i16, 0u64, 0u64, Seq::empty()), p1))
            } else {
                match spec_annotation_frame(b, p1) {
                    Err(e) => Err(e),
                    Ok((_, p2)) => match spec_read_bs(b, p2) {
                        Err(e) => Err(e),
                        Ok((ct, p3)) => match spec_columns(b, p3, ct) {
                            Err(e) => Err(e),
                            Ok(((w, g, hs), p4)) => Ok(((false, ct, w, g, hs), p4)),
                        },
                    },
                }
            },
        }
    }
}

/// The record, given its parts.
pub open spec fn spec_mtext(
    frame: (Point3D, Vec3D, Vec3D, u64, Option<u64>),
    metrics: (u64, i16, i16, u64, u64),
    text: Seq<char>,
    linespace: (i16, u64),
    annotation: (bool, i16, u64, u64, Seq<u64>),
) -> MTextView {
    MTextView {
        insertion_point: frame.0,
        extrusion: frame.1,
        x_axis_direction: frame.2,
        rect_width: frame.3,
        rect_height: frame.4,
        nominal_text_height: metrics.0,
        attachment_point: metrics.1,
        drawing_direction: metrics.2,
        extents_height: metrics.3,
        extents_width: metrics.4,
        text,
        linespace_style: linespace.0,
        linespace_factor: linespace.1,
        is_annotative: annotation.0,
        column_type: annotation.1,
        column_width: annotation.2,
        column_gutter: annotation.3,
        column_heights: annotation.4,
    }
}

/// The inline-text record: frame, metrics, the text, line spacing.
pub open spec fn spec_decode(b: Seq<u8>, p: int, version: Version) -> core::result::Result<(MTextView, int), Error> {
    match spec_frame(b, p, version) {
        Err(e) => Err(e),
        Ok((frame, p1)) => match spec_metrics(b, p1) {
            Err(e) => Err(e),
            Ok((metrics, p2)) => match spec_read_tv(b, p2, version) {
                Err(e) => Err(e),
                Ok((text, p3)) => match spec_linespace(b, p3) {
                    Err(e) => Err(e),
                    Ok((ls, p4)) => Ok((spec_mtext(frame, metrics, text, ls, (true, 0i16, 0u64, 0u64, Seq::empty())), p4)),
                },
            },
        },
    }
}

/// The data-stream fields of an R2007+ record, whose text lives in the
/// string stream: frame, metrics, line spacing, background, and the
/// R2018 annotation block; the text is left empty.
pub open spec fn spec_modern_fields(b: Seq<u8>, p: int, version: Version) -> core::result::Result<(MTextView, int), Error> {
    match spec_frame(b, p, version) {
        Err(e) => Err(e),
        Ok((frame, p1)) => match spec_metrics(b, p1) {
            Err(e) => Err(e),
            Ok((metrics, p2)) => match spec_linespace(b, p2) {
                Err(e) => Err(e),
                Ok((ls, p3)) => match spec_background(b, p3, version) {
                    Err(e) => Err(e),
                    Ok((_, p4)) => match spec_annotation(b, p4, version) {
                        Err(e) => Err(e),
                        Ok((an, p5)) => Ok((spec_mtext(frame, metrics, Seq::empty(), ls, an), p5)),
                    },
                },
            },
        },
    }
}

fn read_frame(c: &mut BitCursor<'_>, version: Version) -> (r: Result<(Point3D, Vec3D, Vec3D, u64, Option<u64>)>)
    requires
        old(c).wf(),
    ensures
        final(c).wf(),
        final(c).data() == old(c).data(),
        spec_outcome(r, final(c).pos(), spec_frame(old(c).data(), old(c).pos(), version)),
{
    let ins = read_bd3(c)?;
    let ext = read_bd3(c)?;
    let xdir = read_bd3(c)?;
    let rw = c.read_bd()?;
    let rh = if version.is_r2007_plus() { Some(c.read_bd()?) } else { None };
    Ok((ins, ext, xdir, rw, rh))
}

fn read_metrics(c: &mut BitCursor<'_>) -> (r: Result<(u64, i16, i16, u64, u64)>)
    requires
        old(c).wf(),
    ensures
        final(c).wf(),
        final(c).data() == old(c).data(),
        spec_outcome(r, final(c).pos(), spec_metrics(old(c).data(), old(c).pos())),
{
    let nh = c.read_bd()?;
    let ap = c.read_bs()?;
    let dd = c.read_bs()?;
    let eh = c.read_bd()?;
    let ew = c.read_bd()?;
    Ok((nh, ap, dd, eh, ew))
}

fn read_linespace(c: &mut BitCursor<'_>) -> (r: Result<(i16, u64)>)
    requires
        old(c).wf(),
    ensures
        final(c).wf(),
        final(c).data() == old(c).data(),
        spec_outcome(r, final(c).pos(), spec_linespace(old(c).data(), old(c).pos())),
{
    let style = c.read_bs()?;
    let factor = c.read_bd()?;
    let _unknown = c.read_b()?;
    Ok((style, factor))
}

fn read_background(c: &mut BitCursor<'_>, version: Version) -> (r: Result<()>)
    requires
        old(c).wf(),
    ensures
        final(c).wf(),
        final(c).data() == old(c).data(),
        spec_outcome(r, final(c).pos(), spec_background(old(c).data(), old(c).pos(), version)),
{
    if !version.is_r2004_plus() {
        return Ok(());
    }
    let flags = c.read_bl()?;
    let mask: i32 = if version == Version::R2018 { 0x11 } else { 0x01 };
    if flags & mask != 0 {
        let _scale = c.read_bd()?;
        let _index = c.read_bs_u()?;
        let _rgb = c.read_bl_u()?;
        let _byte = c.read_rc()?;
        let _transparency = c.read_bl()?;
    }
    Ok(())
}

fn read_annotation_frame(c: &mut BitCursor<'_>) -> (r: Result<()>)
    requires
        old(c).wf(),
    ensures
        final(c).wf(),
        final(c).data() == old(c).data(),
        match spec_annotation_frame(old(c).data(), old(c).pos()) {
            Ok((v, p)) => r == Ok::<(), Error>(v) && final(c).pos() == p,
            Err(e) => r == Err::<(), Error>(e),
        },
{
    reveal(spec_annotation_frame);
    let _version = c.read_bs()?;
    let _default_flag = c.read_b()?;
    let _attachment = c.read_bl()?;
    let _x_axis = read_bd3(c)?;
    let _insertion = read_bd3(c)?;
    let _rect_width = c.read_bd()?;
    let _rect_height = c.read_bd()?;
    let _extents_width = c.read_bd()?;
    let _extents_height = c.read_bd()?;
    Ok(())
}

/// The message of the refusal of the column-height count, when the
/// column block is refused for it: the count, the cap and the bits
/// left.
pub open spec fn spec_columns_refusal(b: Seq<u8>, p: int, column_type: i16) -> Option<Seq<char>> {
    if column_type == 0 {
        None
    } else {
        match spec_read_bl_u(b, p) {
            Err(_) => None,
            Ok((count, p1)) => match spec_read_bd(b, p1) {
                Err(_) => None,
                Ok((_, p2)) => match spec_read_bd(b, p2) {
                    Err(_) => None,
                    Ok((_, p3)) => match spec_read_b(b, p3) {
                        Err(_) => None,
                        Ok((auto_height, p4)) => match spec_read_b(b, p4) {
                            Err(_) => None,
                            Ok((_, p5)) => if !auto_height && column_type == 2 && (count > MAX_COLUMN_HEIGHTS
                                || count > b.len() * 8 - p5) {
                                Some(
                                    "MTEXT column height count "@ + spec_decimal_digits(count as nat)
                                        + " exceeds cap ("@ + spec_decimal_digits(MAX_COLUMN_HEIGHTS as nat)
                                        + ") or remaining_bits ("@ + spec_decimal_digits((b.len() * 8 - p5) as nat)
                                        + ")"@,
                                )
                            } else {
                                None
                            },
                        },
                    },
                },
            },
        }
    }
}

fn read_columns(c: &mut BitCursor<'_>, column_type: i16) -> (r: Result<(u64, u64, Vec<u64>)>)
    requires
        old(c).wf(),
    ensures
        final(c).wf(),
        final(c).data() == old(c).data(),
        match spec_columns(old(c).data(), old(c).pos(), column_type) {
            Ok(((w, g, hs), p)) => r matches Ok((w2, g2, v)) && w2 == w && g2 == g && v@ == hs && final(c).pos() == p,
            Err(Error::SectionMap(_)) => r matches Err(Error::SectionMap(_)),
            Err(e) => r == Err::<(u64, u64, Vec<u64>), Error>(e),
        },
        spec_columns_refusal(old(c).data(), old(c).pos(), column_type) matches Some(t) ==> (r matches Err(
            Error::SectionMap(m),
        ) && m@ == t),
{
    reveal(spec_columns);
    if column_type == 0 {
        return Ok((0, 0, Vec::new()));
    }
    let count = c.read_bl_u()? as usize;
    let width = c.read_bd()?;
    let gutter = c.read_bd()?;
    let auto_height = c.read_b()?;
    let _flow_reversed = c.read_b()?;
    if !auto_height && column_type == 2 {
        let remaining = c.remaining_bits();
        if count > MAX_COLUMN_HEIGHTS || count > remaining {
            let m = with_decimal("MTEXT column height count ", count as u64);
            let mut m = concat_text(m.as_str(), " exceeds cap (");
            push_decimal(&mut m, MAX_COLUMN_HEIGHTS as u64);
            let mut m = concat_text(m.as_str(), ") or remaining_bits (");
            push_decimal(&mut m, remaining as u64);
            return Err(Error::SectionMap(concat_text(m.as_str(), ")")));
        }
        let heights = read_bd_vec(c, count)?;
        Ok((width, gutter, heights))
    } else {
        Ok((width, gutter, Vec::new()))
    }
}

fn read_annotation(c: &mut BitCursor<'_>, version: Version) -> (r: Result<(bool, i16, u64, u64, Vec<u64>)>)
    requires
        old(c).wf(),
    ensures
        final(c).wf(),
        final(c).data() == old(c).data(),
        match spec_annotation(old(c).data(), old(c).pos(), version) {
            Ok(((a, t, w, g, hs), p)) => r matches Ok((a2, t2, w2, g2, v))
                && a2 == a && t2 == t && w2 == w && g2 == g && v@ == hs && final(c).pos() == p,
            Err(Error::SectionMap(_)) => r matches Err(Error::SectionMap(_)),
            Err(e) => r == Err::<(bool, i16, u64, u64, Vec<u64>), Error>(e),
        },
{
    if version != Version::R2018 {
        return Ok((true, 0, 0, 0, Vec::new()));
    }
    let not_annotative = c.read_b()?;
    if !not_annotative {
        return Ok((true, 0, 0, 0, Vec::new()));
    }
    read_annotation_frame(c)?;
    let column_type = c.read_bs()?;
    let (width, gutter, heights) = read_columns(c, column_type)?;
    Ok((false, column_type, width, gutter, heights))
}

/// Decode an MTEXT payload whose text is inline (before R2007).
pub fn decode(c: &mut BitCursor<'_>, version: Version) -> (r: Result<MText>)
    requires
        old(c).wf(),
    ensures
        final(c).wf(),
        final(c).data() == old(c).data(),
        spec_outcome_view(r, final(c).pos(), spec_decode(old(c).data(), old(c).pos(), version)),
{
    let (insertion_point, extrusion, x_axis_direction, rect_width, rect_height) = read_frame(c, version)?;
    let (nominal_text_height, attachment_point, drawing_direction, extents_height, extents_width) = read_metrics(c)?;
    let text = read_tv(c, version, "MTEXT is not valid UTF-16")?;
    let (linespace_style, linespace_factor) = read_linespace(c)?;
    Ok(MText {
        insertion_point,
        extrusion,
        x_axis_direction,
        rect_width,
        rect_height,
        nominal_text_height,
        attachment_point,
        drawing_direction,
        extents_height,
        extents_width,
        text,
        linespace_style,
        linespace_factor,
        is_annotative: true,
        column_type: 0,
        column_width: 0,
        column_gutter: 0,
        column_heights: Vec::new(),
    })
}

/// Read the data-stream fields of an R2007+ MTEXT, leaving the text
/// empty for the caller to fill from the string stream.
pub fn read_modern_fields_probe(c: &mut BitCursor<'_>, version: Version) -> (r: Result<MText>)
    requires
        old(c).wf(),
    ensures
        final(c).wf(),
        final(c).data() == old(c).data(),
        spec_outcome_view(r, final(c).pos(), spec_modern_fields(old(c).data(), old(c).pos(), version)),
{
    let (insertion_point, extrusion, x_axis_direction, rect_width, rect_height) = read_frame(c, version)?;
    let (nominal_text_height, attachment_point, drawing_direction, extents_height, extents_width) = read_metrics(c)?;
    let (linespace_style, linespace_factor) = read_linespace(c)?;
    read_background(c, version)?;
    let (is_annotative, column_type, column_width, column_gutter, column_heights) = read_annotation(c, version)?;
    Ok(MText {
        insertion_point,
        extrusion,
        x_axis_direction,
        rect_width,
        rect_height,
        nominal_text_height,
        attachment_point,
        drawing_direction,
        extents_height,
        extents_width,
        text: String::new(),
        linespace_style,
        linespace_factor,
        is_annotative,
        column_type,
        column_width,
        column_gutter,
        column_heights,
    })
}

} // verus!
