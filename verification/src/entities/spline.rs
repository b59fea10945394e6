//! SPLINE entity: a NURBS curve, stored either in fit form (points the
//! curve interpolates) or in control form (knots, control points and
//! optional weights).
//!
//! ```text
//! BL   scenario         -- 1 = control-based, 2 = fit-based
//! (R2013+)
//!   BL    spline_flag1
//!   BL    knot_param
//! BL   degree
//! // fit form
//! BD   fit_tolerance
//! BD3  begin_tangent
//! BD3  end_tangent
//! BL   num_fit_pts
//! BD3 × num_fit_pts
//! // control form
//! B    rational
//! B    closed
//! B    periodic
//! BD   knot_tolerance
//! BD   control_tolerance
//! BL   num_knots
//! BL   num_control_points
//! B    weights present
//! BD × num_knots
//! (BD3, and BD when weighted) × num_control_points
//! ```
//!
//! From R2013 the form is derived from the flags and the knot
//! parameter rather than taken from the stored scenario: control when
//! the knot parameter is Custom (15) or the fit-points method bit is
//! clear, fit otherwise.
use vstd::prelude::*;

use crate::bitcursor::{spec_read_b, spec_read_bd, spec_read_bl, BitCursor};
use crate::entities::{read_bd3, spec_outcome_view, spec_read_bd3, spec_rejected, Point3D, Vec3D};
use crate::error::{Error, Result};
use crate::header::concat_text;
use crate::text::{push_decimal, spec_decimal_digits, with_decimal};
use crate::version::Version;

verus! {

/// Cap on any per-spline collection size.
pub const SPLINE_MAX_COUNT: usize = 100000;

/// The knot parameter value that means Custom.
pub const KNOT_PARAM_CUSTOM: u32 = 15;

/// The flag bit of the fit-points method.
pub const SPLINE_FLAG_METHOD_FIT_POINTS: u32 = 1;

#[derive(Debug, Clone, PartialEq, Eq)]
pub struct Spline {
    pub scenario: u32,
    pub flag1: Option<u32>,
    pub knot_param: Option<u32>,
    /// `BL` degree of the spline.
    pub degree: i32,
    pub fit: Option<FitForm>,
    pub control: Option<ControlForm>,
}

/// Fit form; doubles are bit patterns.
#[derive(Debug, Clone, PartialEq, Eq)]
pub struct FitForm {
    pub tolerance: u64,
    pub begin_tangent: Vec3D,
    pub end_tangent: Vec3D,
    pub fit_points: Vec<Point3D>,
}

/// Control form; doubles are bit patterns.
#[derive(Debug, Clone, PartialEq, Eq)]
pub struct ControlForm {
    pub rational: bool,
    pub closed: bool,
    pub periodic: bool,
    pub knot_tolerance: u64,
    pub control_tolerance: u64,
    pub knots: Vec<u64>,
    pub control_points: Vec<Point3D>,
    pub weights: Vec<u64>,
}

pub struct FitFormView {
    pub tolerance: u64,
    pub begin_tangent: Vec3D,
    pub end_tangent: Vec3D,
    pub fit_points: Seq<Point3D>,
}

pub struct ControlFormView {
    pub rational: bool,
    pub closed: bool,
    pub periodic: bool,
    pub knot_tolerance: u64,
    pub control_tolerance: u64,
    pub knots: Seq<u64>,
    pub control_points: Seq<Point3D>,
    pub weights: Seq<u64>,
}

pub struct SplineView {
    pub scenario: u32,
    pub flag1: Option<u32>,
    pub knot_param: Option<u32>,
    pub degree: i32,
    pub fit: Option<FitFormView>,
    pub control: Option<ControlFormView>,
}

impl View for FitForm {
    type V = FitFormView;

    open spec fn view(&self) -> FitFormView {
        FitFormView {
            tolerance: self.tolerance,
            begin_tangent: self.begin_tangent,
            end_tangent: self.end_tangent,
            fit_points: self.fit_points@,
        }
    }
}

impl View for ControlForm {
    type V = ControlFormView;

    open spec fn view(&self) -> ControlFormView {
        ControlFormView {
            rational: self.rational,
            closed: self.closed,
            periodic: self.periodic,
            knot_tolerance: self.knot_tolerance,
            control_tolerance: self.control_tolerance,
            knots: self.knots@,
            control_points: self.control_points@,
            weights: self.weights@,
        }
    }
}

impl View for Spline {
    type V = SplineView;

    open spec fn view(&self) -> SplineView {
        SplineView {
            scenario: self.scenario,
            flag1: self.flag1,
            knot_param: self.knot_param,
            degree: self.degree,
            fit: match self.fit {
                Some(f) => Some(f@),
                None => None,
            },
            control: match self.control {
                Some(c) => Some(c@),
                None => None,
            },
        }
    }
}

/// A `BL` count, refused when negative, over the cap, or over the
/// bits left after it.
pub open spec fn spec_read_spline_count(b: Seq<u8>, p: int) -> core::result::Result<(usize, int), Error> {
    match spec_read_bl(b, p) {
        Err(e) => Err(e),
        Ok((n, p1)) => if n < 0 || n > SPLINE_MAX_COUNT || n > b.len() * 8 - p1 {
            Err(spec_rejected())
        } else {
            Ok((n as usize, p1))
        },
    }
}

/// The message of the refusal of the count of `field` read at `p`,
/// when it is refused: the count (a negative one taken as the `usize`
/// it converts to), the cap and the bits left.
pub open spec fn spec_count_refusal(b: Seq<u8>, p: int, field: Seq<char>) -> Option<Seq<char>> {
    match spec_read_bl(b, p) {
        Err(_) => None,
        Ok((n, p1)) => if n < 0 || n > SPLINE_MAX_COUNT || n > b.len() * 8 - p1 {
            Some(
                "SPLINE "@ + field + " count "@ + spec_decimal_digits((n as usize) as nat) + " exceeds cap ("@
                    + spec_decimal_digits(SPLINE_MAX_COUNT as nat) + " or remaining_bits "@
                    + spec_decimal_digits((b.len() * 8 - p1) as nat) + ")"@,
            )
        } else {
            None
        },
    }
}

fn read_spline_count(c: &mut BitCursor<'_>, field: &str) -> (r: Result<usize>)
    requires
        old(c).wf(),
    ensures
        final(c).wf(),
        final(c).data() == old(c).data(),
        match spec_read_spline_count(old(c).data(), old(c).pos()) {
            Ok((n, p)) => r == Ok::<usize, Error>(n) && final(c).pos() == p,
            Err(Error::SectionMap(_)) => r matches Err(Error::SectionMap(_)),
            Err(e) => r == Err::<usize, Error>(e),
        },
        spec_count_refusal(old(c).data(), old(c).pos(), field@) matches Some(t) ==> (r matches Err(
            Error::SectionMap(m),
        ) && m@ == t),
{
    let n = c.read_bl()?;
    let remaining = c.remaining_bits();
    if n < 0 || n as usize > SPLINE_MAX_COUNT || n as usize > remaining {
        let head = concat_text("SPLINE ", field);
        let mut m = concat_text(head.as_str(), " count ");
        push_decimal(&mut m, n as usize as u64);
        let mut m = concat_text(m.as_str(), " exceeds cap (");
        push_decimal(&mut m, SPLINE_MAX_COUNT as u64);
        let mut m = concat_text(m.as_str(), " or remaining_bits ");
        push_decimal(&mut m, remaining as u64);
        return Err(Error::SectionMap(concat_text(m.as_str(), ")")));
    }
    Ok(n as usize)
}

/// `n` `BD`s.
pub open spec fn spec_read_bd_seq(b: Seq<u8>, p: int, n: nat) -> core::result::Result<(Seq<u64>, int), Error>
    decreases n,
{
    if n == 0 {
        Ok((Seq::empty(), p))
    } else {
        match spec_read_bd_seq(b, p, (n - 1) as nat) {
            Err(e) => Err(e),
            Ok((s, p1)) => match spec_read_bd(b, p1) {
                Err(e) => Err(e),
                Ok((x, p2)) => Ok((s.push(x), p2)),
            },
        }
    }
}

proof fn lemma_bd_seq_error(b: Seq<u8>, p: int, i: nat, n: nat, e: Error)
    requires
        i < n,
        spec_read_bd_seq(b, p, (i + 1) as nat) == Err::<(Seq<u64>, int), Error>(e),
    ensures
        spec_read_bd_seq(b, p, n) == Err::<(Seq<u64>, int), Error>(e),
    decreases n,
{
    if n > i + 1 {
        lemma_bd_seq_error(b, p, i, (n - 1) as nat, e);
    }
}

pub(crate) fn read_bd_vec(c: &mut BitCursor<'_>, n: usize) -> (r: Result<Vec<u64>>)
    requires
        old(c).wf(),
    ensures
        final(c).wf(),
        final(c).data() == old(c).data(),
        match spec_read_bd_seq(old(c).data(), old(c).pos(), n as nat) {
            Ok((s, p)) => r matches Ok(v) && v@ == s && final(c).pos() == p,
            Err(e) => r == Err::<Vec<u64>, Error>(e),
        },
{
    let ghost p0 = c.pos();
    let mut out: Vec<u64> = Vec::new();
    let mut i: usize = 0;
    while i < n
        invariant
            c.wf(),
            c.data() == old(c).data(),
            p0 == old(c).pos(),
            0 <= i <= n,
            spec_read_bd_seq(c.data(), p0, i as nat) == Ok::<(Seq<u64>, int), Error>((out@, c.pos())),
        decreases n - i,
    {
        let ghost data = c.data();
        let rx = c.read_bd();
        proof {
            if rx is Err {
                lemma_bd_seq_error(data, p0, i as nat, n as nat, rx->Err_0);
            }
        }
        let x = rx?;
        out.push(x);
        i += 1;
    }
    Ok(out)
}

/// One control point, and its weight when `weighted`.
pub open spec fn spec_control_step(b: Seq<u8>, p: int, weighted: bool) -> core::result::Result<((Point3D, Option<u64>), int), Error> {
    match spec_read_bd3(b, p) {
        Err(e) => Err(e),
        Ok((pt, p1)) => if weighted {
            match spec_read_bd(b, p1) {
                Err(e) => Err(e),
                Ok((w, p2)) => Ok(((pt, Some(w)), p2)),
            }
        } else {
            Ok(((pt, None), p1))
        },
    }
}

/// `n` control points, each followed by its weight when `weighted`.
pub open spec fn spec_read_control_seq(b: Seq<u8>, p: int, n: nat, weighted: bool) -> core::result::Result<((Seq<Point3D>, Seq<u64>), int), Error>
    decreases n,
{
    if n == 0 {
        Ok(((Seq::empty(), Seq::empty()), p))
    } else {
        match spec_read_control_seq(b, p, (n - 1) as nat, weighted) {
            Err(e) => Err(e),
            Ok(((pts, ws), p1)) => match spec_control_step(b, p1, weighted) {
                Err(e) => Err(e),
                Ok(((pt, w), p2)) => Ok(
                    (
                        (
                            pts.push(pt),
                            match w {
                                Some(x) => ws.push(x),
                                None => ws,
                            },
                        ),
                        p2,
                    ),
                ),
            },
        }
    }
}

proof fn lemma_control_seq_error(b: Seq<u8>, p: int, i: nat, n: nat, weighted: bool, e: Error)
    requires
        i < n,
        spec_read_control_seq(b, p, (i + 1) as nat, weighted) == Err::<((Seq<Point3D>, Seq<u64>), int), Error>(e),
    ensures
        spec_read_control_seq(b, p, n, weighted) == Err::<((Seq<Point3D>, Seq<u64>), int), Error>(e),
    decreases n,
{
    if n > i + 1 {
        lemma_control_seq_error(b, p, i, (n - 1) as nat, weighted, e);
    }
}

fn read_control_step(c: &mut BitCursor<'_>, weighted: bool) -> (r: Result<(Point3D, Option<u64>)>)
    requires
        old(c).wf(),
    ensures
        final(c).wf(),
        final(c).data() == old(c).data(),
        match spec_control_step(old(c).data(), old(c).pos(), weighted) {
            Ok((v, p)) => r == Ok::<(Point3D, Option<u64>), Error>(v) && final(c).pos() == p,
            Err(e) => r == Err::<(Point3D, Option<u64>), Error>(e),
        },
{
    let pt = read_bd3(c)?;
    if weighted {
        let w = c.read_bd()?;
        Ok((pt, Some(w)))
    } else {
        Ok((pt, None))
    }
}

fn read_control_points(c: &mut BitCursor<'_>, n: usize, weighted: bool) -> (r: Result<(Vec<Point3D>, Vec<u64>)>)
    requires
        old(c).wf(),
    ensures
        final(c).wf(),
        final(c).data() == old(c).data(),
        match spec_read_control_seq(old(c).data(), old(c).pos(), n as nat, weighted) {
            Ok(((pts, ws), p)) => r matches Ok((v, w)) && v@ == pts && w@ == ws && final(c).pos() == p,
            Err(e) => r == Err::<(Vec<Point3D>, Vec<u64>), Error>(e),
        },
{
    let ghost p0 = c.pos();
    let mut pts: Vec<Point3D> = Vec::new();
    let mut ws: Vec<u64> = Vec::new();
    let mut i: usize = 0;
    while i < n
        invariant
            c.wf(),
            c.data() == old(c).data(),
            p0 == old(c).pos(),
            0 <= i <= n,
            spec_read_control_seq(c.data(), p0, i as nat, weighted) == Ok::<((Seq<Point3D>, Seq<u64>), int), Error>(
                ((pts@, ws@), c.pos()),
            ),
        decreases n - i,
    {
        let ghost data = c.data();
        let rs = read_control_step(c, weighted);
        proof {
            if rs is Err {
                lemma_control_seq_error(data, p0, i as nat, n as nat, weighted, rs->Err_0);
            }
        }
        let (pt, w) = rs?;
        pts.push(pt);
        match w {
            Some(x) => ws.push(x),
            None => {},
        }
        i += 1;
    }
    Ok((pts, ws))
}

/// `n` `3BD`s.
pub open spec fn spec_read_bd3_seq(b: Seq<u8>, p: int, n: nat) -> core::result::Result<(Seq<Point3D>, int), Error> {
    match spec_read_control_seq(b, p, n, false) {
        Err(e) => Err(e),
        Ok(((pts, _), p1)) => Ok((pts, p1)),
    }
}

/// The fit form.
pub open spec fn spec_fit_form(b: Seq<u8>, p: int) -> core::result::Result<(FitFormView, int), Error> {
    match spec_read_bd(b, p) {
        Err(e) => Err(e),
        Ok((tolerance, p1)) => match spec_read_bd3(b, p1) {
            Err(e) => Err(e),
            Ok((begin_tangent, p2)) => match spec_read_bd3(b, p2) {
                Err(e) => Err(e),
                Ok((end_tangent, p3)) => match spec_read_spline_count(b, p3) {
                    Err(e) => Err(e),
                    Ok((n, p4)) => match spec_read_bd3_seq(b, p4, n as nat) {
                        Err(e) => Err(e),
                        Ok((fit_points, p5)) => Ok(
                            (FitFormView { tolerance, begin_tangent, end_tangent, fit_points }, p5),
                        ),
                    },
                },
            },
        },
    }
}

/// The message of the refusal of the fit-point count, when the fit
/// form is refused for it.
pub open spec fn spec_fit_form_refusal(b: Seq<u8>, p: int) -> Option<Seq<char>> {
    match spec_read_bd(b, p) {
        Err(_) => None,
        Ok((_, p1)) => match spec_read_bd3(b, p1) {
            Err(_) => None,
            Ok((_, p2)) => match spec_read_bd3(b, p2) {
                Err(_) => None,
                Ok((_, p3)) => spec_count_refusal(b, p3, "fit_points"@),
            },
        },
    }
}

fn decode_fit_form(c: &mut BitCursor<'_>) -> (r: Result<FitForm>)
    requires
        old(c).wf(),
    ensures
        final(c).wf(),
        final(c).data() == old(c).data(),
        spec_outcome_view(r, final(c).pos(), spec_fit_form(old(c).data(), old(c).pos())),
        spec_fit_form_refusal(old(c).data(), old(c).pos()) matches Some(t) ==> (r matches Err(
            Error::SectionMap(m),
        ) && m@ == t),
{
    let tolerance = c.read_bd()?;
    let begin_tangent = read_bd3(c)?;
    let end_tangent = read_bd3(c)?;
    let n = read_spline_count(c, "fit_points")?;
    let (fit_points, _) = read_control_points(c, n, false)?;
    Ok(FitForm { tolerance, begin_tangent, end_tangent, fit_points })
}

/// The flags of the control form: rational, closed, periodic, and the
/// two tolerances.
pub open spec fn spec_control_flags(b: Seq<u8>, p: int) -> core::result::Result<((bool, bool, bool, u64, u64), int), Error> {
    match spec_read_b(b, p) {
        Err(e) => Err(e),
        Ok((rational, p1)) => match spec_read_b(b, p1) {
            Err(e) => Err(e),
            Ok((closed, p2)) => match spec_read_b(b, p2) {
                Err(e) => Err(e),
                Ok((periodic, p3)) => match spec_read_bd(b, p3) {
                    Err(e) => Err(e),
                    Ok((kt, p4)) => match spec_read_bd(b, p4) {
                        Err(e) => Err(e),
                        Ok((ct, p5)) => Ok(((rational, closed, periodic, kt, ct), p5)),
                    },
                },
            },
        },
    }
}

/// The control form.
pub open spec fn spec_control_form(b: Seq<u8>, p: int) -> core::result::Result<(ControlFormView, int), Error> {
    match spec_control_flags(b, p) {
        Err(e) => Err(e),
        Ok(((rational, closed, periodic, kt, ct), p1)) => match spec_read_spline_count(b, p1) {
            Err(e) => Err(e),
            Ok((nk, p2)) => match spec_read_spline_count(b, p2) {
                Err(e) => Err(e),
                Ok((nc, p3)) => match spec_read_b(b, p3) {
                    Err(e) => Err(e),
                    Ok((weighted, p4)) => match spec_read_bd_seq(b, p4, nk as nat) {
                        Err(e) => Err(e),
                        Ok((knots, p5)) => match spec_read_control_seq(b, p5, nc as nat, weighted) {
                            Err(e) => Err(e),
                            Ok(((control_points, weights), p6)) => Ok(
                                (
                                    ControlFormView {
                                        rational,
                                        closed,
                                        periodic,
                                        knot_tolerance: kt,
                                        control_tolerance: ct,
                                        knots,
                                        control_points,
                                        weights,
                                    },
                                    p6,
                                ),
                            ),
                        },
                    },
                },
            },
        },
    }
}

fn decode_control_flags(c: &mut BitCursor<'_>) -> (r: Result<(bool, bool, bool, u64, u64)>)
    requires
        old(c).wf(),
    ensures
        final(c).wf(),
        final(c).data() == old(c).data(),
        match spec_control_flags(old(c).data(), old(c).pos()) {
            Ok((v, p)) => r == Ok::<(bool, bool, bool, u64, u64), Error>(v) && final(c).pos() == p,
            Err(e) => r == Err::<(bool, bool, bool, u64, u64), Error>(e),
        },
{
    let rational = c.read_b()?;
    let closed = c.read_b()?;
    let periodic = c.read_b()?;
    let knot_tolerance = c.read_bd()?;
    let control_tolerance = c.read_bd()?;
    Ok((rational, closed, periodic, knot_tolerance, control_tolerance))
}

/// The message of the refusal of the knot or control-point count,
/// when the control form is refused for it.
pub open spec fn spec_control_form_refusal(b: Seq<u8>, p: int) -> Option<Seq<char>> {
    match spec_control_flags(b, p) {
        Err(_) => None,
        Ok((_, p1)) => match spec_read_spline_count(b, p1) {
            Err(_) => spec_count_refusal(b, p1, "knots"@),
            Ok((_, p2)) => spec_count_refusal(b, p2, "control_points"@),
        },
    }
}

fn decode_control_form(c: &mut BitCursor<'_>) -> (r: Result<ControlForm>)
    requires
        old(c).wf(),
    ensures
        final(c).wf(),
        final(c).data() == old(c).data(),
        spec_outcome_view(r, final(c).pos(), spec_control_form(old(c).data(), old(c).pos())),
        spec_control_form_refusal(old(c).data(), old(c).pos()) matches Some(t) ==> (r matches Err(
            Error::SectionMap(m),
        ) && m@ == t),
{
    let (rational, closed, periodic, knot_tolerance, control_tolerance) = decode_control_flags(c)?;
    let num_knots = read_spline_count(c, "knots")?;
    let num_control = read_spline_count(c, "control_points")?;
    let has_weights = c.read_b()?;
    let knots = read_bd_vec(c, num_knots)?;
    let (control_points, weights) = read_control_points(c, num_control, has_weights)?;
    Ok(ControlForm {
        rational,
        closed,
        periodic,
        knot_tolerance,
        control_tolerance,
        knots,
        control_points,
        weights,
    })
}

/// The stored words before the form: scenario, from R2013 the flags
/// and the knot parameter, and the degree.
pub open spec fn spec_spline_head(b: Seq<u8>, p: int, version: Version) -> core::result::Result<((u32, Option<u32>, Option<u32>, i32), int), Error> {
    match spec_read_bl(b, p) {
        Err(e) => Err(e),
        Ok((scenario, p1)) => {
            let flags = if version.spec_is_r2013_plus() {
                match spec_read_bl(b, p1) {
                    Err(e) => Err(e),
                    Ok((f, p2)) => match spec_read_bl(b, p2) {
                        Err(e) => Err(e),
                        Ok((k, p3)) => Ok(((Some(f as u32), Some(k as u32)), p3)),
                    },
                }
            } else {
                Ok(((None, None), p1))
            };
            match flags {
                Err(e) => Err(e),
                Ok(((flag1, knot_param), p3)) => match spec_read_bl(b, p3) {
                    Err(e) => Err(e),
                    Ok((degree, p4)) => Ok(((scenario as u32, flag1, knot_param, degree), p4)),
                },
            }
        },
    }
}

/// The form a record takes: derived from the flags and the knot
/// parameter when both were read, the stored scenario otherwise.
pub open spec fn spec_effective_scenario(scenario: u32, flag1: Option<u32>, knot_param: Option<u32>) -> u32 {
    match (flag1, knot_param) {
        (Some(flags), Some(param)) => if param == KNOT_PARAM_CUSTOM || flags & SPLINE_FLAG_METHOD_FIT_POINTS == 0 {
            1
        } else {
            2
        },
        _ => scenario,
    }
}

/// The whole SPLINE payload; a form other than 1 or 2 is refused.
pub open spec fn spec_decode(b: Seq<u8>, p: int, version: Version) -> core::result::Result<(SplineView, int), Error> {
    match spec_spline_head(b, p, version) {
        Err(e) => Err(e),
        Ok(((scenario, flag1, knot_param, degree), p1)) => {
            let form = spec_effective_scenario(scenario, flag1, knot_param);
            if form == 2 {
                match spec_fit_form(b, p1) {
                    Err(e) => Err(e),
                    Ok((fit, p2)) => Ok(
                        (
                            SplineView { scenario, flag1, knot_param, degree, fit: Some(fit), control: None },
                            p2,
                        ),
                    ),
                }
            } else if form == 1 {
                match spec_control_form(b, p1) {
                    Err(e) => Err(e),
                    Ok((control, p2)) => Ok(
                        (
                            SplineView {
                                scenario,
                                flag1,
                                knot_param,
                                degree,
                                fit: None,
                                control: Some(control),
                            },
                            p2,
                        ),
                    ),
                }
            } else {
                Err(spec_rejected())
            }
        },
    }
}

fn decode_head(c: &mut BitCursor<'_>, version: Version) -> (r: Result<(u32, Option<u32>, Option<u32>, i32)>)
    requires
        old(c).wf(),
    ensures
        final(c).wf(),
        final(c).data() == old(c).data(),
        match spec_spline_head(old(c).data(), old(c).pos(), version) {
            Ok((v, p)) => r == Ok::<(u32, Option<u32>, Option<u32>, i32), Error>(v) && final(c).pos() == p,
            Err(e) => r == Err::<(u32, Option<u32>, Option<u32>, i32), Error>(e),
        },
{
    let scenario = c.read_bl()?;
    let (flag1, knot_param) = if version.is_r2013_plus() {
        let f = c.read_bl()?;
        let k = c.read_bl()?;
        (Some(f as u32), Some(k as u32))
    } else {
        (None, None)
    };
    let degree = c.read_bl()?;
    Ok((scenario as u32, flag1, knot_param, degree))
}

/// The message of the refusal that ends a SPLINE payload, if one
/// does: a form other than 1 or 2, named, or a refused count.
pub open spec fn spec_refusal_text(b: Seq<u8>, p: int, version: Version) -> Option<Seq<char>> {
    match spec_spline_head(b, p, version) {
        Err(_) => None,
        Ok(((scenario, flag1, knot_param, _), p1)) => {
            let form = spec_effective_scenario(scenario, flag1, knot_param);
            if form == 2 {
                spec_fit_form_refusal(b, p1)
            } else if form == 1 {
                spec_control_form_refusal(b, p1)
            } else {
                Some("SPLINE scenario "@ + spec_decimal_digits(form as nat) + " not in {1, 2}"@)
            }
        },
    }
}

/// Decode a SPLINE payload.
pub fn decode(c: &mut BitCursor<'_>, version: Version) -> (r: Result<Spline>)
    requires
        old(c).wf(),
    ensures
        final(c).wf(),
        final(c).data() == old(c).data(),
        spec_outcome_view(r, final(c).pos(), spec_decode(old(c).data(), old(c).pos(), version)),
        spec_refusal_text(old(c).data(), old(c).pos(), version) matches Some(t) ==> (r matches Err(
            Error::SectionMap(m),
        ) && m@ == t),
{
    let (scenario, flag1, knot_param, degree) = decode_head(c, version)?;
    let effective_scenario = match (flag1, knot_param) {
        (Some(flags), Some(param)) => {
            if param == KNOT_PARAM_CUSTOM || flags & SPLINE_FLAG_METHOD_FIT_POINTS == 0 {
                1
            } else {
                2
            }
        },
        _ => scenario,
    };
    if effective_scenario == 2 {
        let fit = decode_fit_form(c)?;
        Ok(Spline { scenario, flag1, knot_param, degree, fit: Some(fit), control: None })
    } else if effective_scenario == 1 {
        let control = decode_control_form(c)?;
        Ok(Spline { scenario, flag1, knot_param, degree, fit: None, control: Some(control) })
    } else {
        let head = with_decimal("SPLINE scenario ", effective_scenario as u64);
        Err(Error::SectionMap(concat_text(head.as_str(), " not in {1, 2}")))
    }
}

} // verus!
