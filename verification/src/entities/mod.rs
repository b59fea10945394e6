//! Entity decoders: each submodule parses one entity type's
//! type-specific payload, from a cursor parked past the common entity
//! preamble.
//!
//! Doubles travel as their IEEE-754 bit patterns (`u64`): a decoder
//! only moves them from the stream into a field, so the pattern is the
//! value. Each decoder is stated as a spec function from the buffer
//! and the start bit to the value and the end bit, or the error; the
//! spec functions are compositions of the cursor's own read specs.
use vstd::prelude::*;

use crate::bitcursor::{spec_read_b, spec_read_bd, spec_read_bs_u, spec_read_rc, spec_read_rd, BitCursor};
use crate::bitwriter::{lemma_holds_at_concat, lemma_read_bd_of, spec_enc_bd, spec_holds_at};
use crate::error::{Error, Result};
use crate::metadata::{spec_utf8_lossy, utf8_lossy};
use crate::text::spec_utf16_strict;
use crate::version::Version;

pub mod image;
pub mod mleader;
pub mod mline;
pub mod modeler;
pub mod mtext;
pub mod ole2_frame;
pub mod point;
pub mod polyface_mesh;
pub mod polygon_mesh;
pub mod polyline;
pub mod proxy_entity_passthrough;
pub mod ray;
pub mod region;
pub mod revolved_surface;
pub mod seqend;
pub mod solid;
pub mod spline;
pub mod sun;
pub mod swept_surface;
pub mod text;
pub mod three_d_face;
pub mod three_d_solid;
pub mod tolerance;
pub mod trace;
pub mod underlay;
pub mod vertex;
pub mod viewport;
pub mod wipeout;
pub mod xline;

verus! {

/// A 2D point; each coordinate is the bit pattern of a double.
#[derive(Debug, Clone, Copy, PartialEq, Eq, Structural)]
pub struct Point2D {
    pub x: u64,
    pub y: u64,
}

/// A 3D point; each coordinate is the bit pattern of a double.
#[derive(Debug, Clone, Copy, PartialEq, Eq, Structural)]
pub struct Point3D {
    pub x: u64,
    pub y: u64,
    pub z: u64,
}

/// A 3D direction vector: the shape of [`Point3D`].
pub type Vec3D = Point3D;

/// The error a decoder reports when a field fails a sanity check; its
/// message is free text.
pub open spec fn spec_rejected() -> Error {
    Error::SectionMap(arbitrary())
}

/// The error a decoder reports for a release it does not handle.
pub open spec fn spec_unsupported() -> Error {
    Error::Unsupported { feature: arbitrary() }
}

/// `r`, returned with the cursor at `after`, is what the spec outcome
/// `o` says: the value and the end bit, or the error (compared by
/// variant alone where it carries a free-text message).
pub open spec fn spec_outcome<T>(r: Result<T>, after: int, o: core::result::Result<(T, int), Error>) -> bool {
    match o {
        Ok((v, p)) => r == Ok::<T, Error>(v) && after == p,
        Err(Error::SectionMap(_)) => r matches Err(Error::SectionMap(_)),
        Err(Error::Unsupported { .. }) => r matches Err(Error::Unsupported { .. }),
        Err(e) => r == Err::<T, Error>(e),
    }
}

/// As [`spec_outcome`], for a value compared by its view.
pub open spec fn spec_outcome_view<T: View>(
    r: Result<T>,
    after: int,
    o: core::result::Result<(T::V, int), Error>,
) -> bool {
    match o {
        Ok((v, p)) => r matches Ok(x) && x@ == v && after == p,
        Err(Error::SectionMap(_)) => r matches Err(Error::SectionMap(_)),
        Err(Error::Unsupported { .. }) => r matches Err(Error::Unsupported { .. }),
        Err(e) => r matches Err(x) && x == e,
    }
}

/// The bits a writer emits for a `3BD`.
pub open spec fn spec_enc_bd3(pt: Point3D) -> Seq<bool> {
    spec_enc_bd(pt.x) + spec_enc_bd(pt.y) + spec_enc_bd(pt.z)
}

/// A `3BD` reads back the point that was written.
#[verifier::rlimit(40)]
#[verifier::spinoff_prover]
pub proof fn lemma_read_bd3_of(b: Seq<u8>, p: int, pt: Point3D)
    requires
        spec_holds_at(b, p, spec_enc_bd3(pt)),
    ensures
        spec_read_bd3(b, p) == Ok::<(Point3D, int), Error>((pt, p + spec_enc_bd3(pt).len())),
{
    let ex = spec_enc_bd(pt.x);
    let ey = spec_enc_bd(pt.y);
    let ez = spec_enc_bd(pt.z);
    lemma_holds_at_split3(b, p, ex, ey, ez);
    let p1 = p + ex.len();
    let p2 = p1 + ey.len();
    let p3 = p2 + ez.len();
    lemma_read_bd_of(b, p, pt.x);
    lemma_read_bd_of(b, p1, pt.y);
    lemma_read_bd_of(b, p2, pt.z);
    lemma_bd3_from_parts(b, p, p1, p2, p3, pt);
    assert(spec_enc_bd3(pt).len() == ex.len() + ey.len() + ez.len());
}

/// The three parts of a concatenation stand one after another.
pub proof fn lemma_holds_at_split3(b: Seq<u8>, p: int, x: Seq<bool>, y: Seq<bool>, z: Seq<bool>)
    requires
        spec_holds_at(b, p, x + y + z),
    ensures
        spec_holds_at(b, p, x),
        spec_holds_at(b, p + x.len(), y),
        spec_holds_at(b, p + x.len() + y.len(), z),
{
    lemma_holds_at_concat(b, p, x + y, z);
    lemma_holds_at_concat(b, p, x, y);
}

proof fn lemma_bd3_from_parts(b: Seq<u8>, p: int, p1: int, p2: int, p3: int, pt: Point3D)
    requires
        spec_read_bd(b, p) == Ok::<(u64, int), Error>((pt.x, p1)),
        spec_read_bd(b, p1) == Ok::<(u64, int), Error>((pt.y, p2)),
        spec_read_bd(b, p2) == Ok::<(u64, int), Error>((pt.z, p3)),
    ensures
        spec_read_bd3(b, p) == Ok::<(Point3D, int), Error>((pt, p3)),
{
    reveal(spec_read_bd3);
}

/// `3BD`: three `BD`s.
#[verifier::opaque]
pub open spec fn spec_read_bd3(b: Seq<u8>, p: int) -> core::result::Result<(Point3D, int), Error> {
    match spec_read_bd(b, p) {
        Err(e) => Err(e),
        Ok((x, p1)) => match spec_read_bd(b, p1) {
            Err(e) => Err(e),
            Ok((y, p2)) => match spec_read_bd(b, p2) {
                Err(e) => Err(e),
                Ok((z, p3)) => Ok((Point3D { x, y, z }, p3)),
            },
        },
    }
}

/// `2BD`: two `BD`s.
pub open spec fn spec_read_bd2(b: Seq<u8>, p: int) -> core::result::Result<(Point2D, int), Error> {
    match spec_read_bd(b, p) {
        Err(e) => Err(e),
        Ok((x, p1)) => match spec_read_bd(b, p1) {
            Err(e) => Err(e),
            Ok((y, p2)) => Ok((Point2D { x, y }, p2)),
        },
    }
}

/// `3RD`: three `RD`s.
pub open spec fn spec_read_rd3(b: Seq<u8>, p: int) -> core::result::Result<(Point3D, int), Error> {
    match spec_read_rd(b, p) {
        Err(e) => Err(e),
        Ok((x, p1)) => match spec_read_rd(b, p1) {
            Err(e) => Err(e),
            Ok((y, p2)) => match spec_read_rd(b, p2) {
                Err(e) => Err(e),
                Ok((z, p3)) => Ok((Point3D { x, y, z }, p3)),
            },
        },
    }
}

/// `2RD`: two `RD`s.
pub open spec fn spec_read_rd2(b: Seq<u8>, p: int) -> core::result::Result<(Point2D, int), Error> {
    match spec_read_rd(b, p) {
        Err(e) => Err(e),
        Ok((x, p1)) => match spec_read_rd(b, p1) {
            Err(e) => Err(e),
            Ok((y, p2)) => Ok((Point2D { x, y }, p2)),
        },
    }
}

/// The unit Z axis `(0, 0, 1)`.
pub open spec fn spec_unit_z() -> Vec3D {
    Point3D { x: 0, y: 0, z: 0x3FF0_0000_0000_0000 }
}

/// `BE`: a set bit stands for the Z axis; a clear one is followed by
/// a `3BD`.
pub open spec fn spec_read_be(b: Seq<u8>, p: int) -> core::result::Result<(Vec3D, int), Error> {
    match spec_read_b(b, p) {
        Err(e) => Err(e),
        Ok((d, p1)) => if d {
            Ok((spec_unit_z(), p1))
        } else {
            spec_read_bd3(b, p1)
        },
    }
}

/// `BT`: a set bit stands for 0.0; a clear one is followed by a `BD`.
pub open spec fn spec_read_bt(b: Seq<u8>, p: int) -> core::result::Result<(u64, int), Error> {
    match spec_read_b(b, p) {
        Err(e) => Err(e),
        Ok((d, p1)) => if d {
            Ok((0u64, p1))
        } else {
            spec_read_bd(b, p1)
        },
    }
}

/// `n` `RC`s in a row.
pub open spec fn spec_read_rc_seq(b: Seq<u8>, p: int, n: nat) -> core::result::Result<(Seq<u8>, int), Error>
    decreases n,
{
    if n == 0 {
        Ok((Seq::empty(), p))
    } else {
        match spec_read_rc_seq(b, p, (n - 1) as nat) {
            Err(e) => Err(e),
            Ok((s, p1)) => match spec_read_rc(b, p1) {
                Err(e) => Err(e),
                Ok((x, p2)) => Ok((s.push(x), p2)),
            },
        }
    }
}

/// Once one byte of a run fails, the whole longer run fails with the
/// same error.
pub proof fn lemma_rc_seq_error(b: Seq<u8>, p: int, i: nat, n: nat)
    requires
        i < n,
        spec_read_rc_seq(b, p, i) matches Ok((s, p1)) && spec_read_rc(b, p1) is Err,
    ensures
        spec_read_rc_seq(b, p, n) == Err::<(Seq<u8>, int), Error>(
            spec_read_rc(b, spec_read_rc_seq(b, p, i)->Ok_0.1)->Err_0,
        ),
    decreases n,
{
    if n > i + 1 {
        lemma_rc_seq_error(b, p, i, (n - 1) as nat);
    }
}

/// Read `n` `RC`s into a vector.
pub fn read_rc_vec(c: &mut BitCursor<'_>, n: usize) -> (r: Result<Vec<u8>>)
    requires
        old(c).wf(),
    ensures
        final(c).wf(),
        final(c).data() == old(c).data(),
        match spec_read_rc_seq(old(c).data(), old(c).pos(), n as nat) {
            Ok((s, p)) => r matches Ok(v) && v@ == s && final(c).pos() == p,
            Err(e) => r == Err::<Vec<u8>, Error>(e),
        },
{
    let ghost p0 = c.pos();
    let mut out: Vec<u8> = Vec::new();
    let mut i: usize = 0;
    while i < n
        invariant
            c.wf(),
            c.data() == old(c).data(),
            p0 == old(c).pos(),
            0 <= i <= n,
            spec_read_rc_seq(c.data(), p0, i as nat) == Ok::<(Seq<u8>, int), Error>((out@, c.pos())),
        decreases n - i,
    {
        let rb = c.read_rc();
        proof {
            if rb is Err {
                lemma_rc_seq_error(c.data(), p0, i as nat, n as nat);
            }
        }
        let x = rb?;
        out.push(x);
        i += 1;
    }
    Ok(out)
}

/// `String::from_utf16`: `units` as UTF-16, or `None` where they hold
/// an unpaired surrogate ([`spec_utf16_strict`]).
#[verifier::external_body]
fn utf16_strict(units: &[u16]) -> (r: Option<String>)
    ensures
        match r {
            Some(s) => spec_utf16_strict(units@) == Some(s@),
            None => spec_utf16_strict(units@) is None,
        },
{
    match String::from_utf16(units) {
        Ok(s) => Some(s),
        Err(_) => None,
    }
}

/// `s` without one trailing zero.
pub open spec fn spec_drop_nul<T>(s: Seq<T>, zero: T) -> Seq<T> {
    if s.len() > 0 && s.last() == zero {
        s.drop_last()
    } else {
        s
    }
}

/// `n` little-endian code units, each two `RC`s.
pub open spec fn spec_read_units(b: Seq<u8>, p: int, n: nat) -> core::result::Result<(Seq<u16>, int), Error>
    decreases n,
{
    if n == 0 {
        Ok((Seq::empty(), p))
    } else {
        match spec_read_units(b, p, (n - 1) as nat) {
            Err(e) => Err(e),
            Ok((s, p1)) => match spec_read_rc(b, p1) {
                Err(e) => Err(e),
                Ok((lo, p2)) => match spec_read_rc(b, p2) {
                    Err(e) => Err(e),
                    Ok((hi, p3)) => Ok((s.push((hi * 256 + lo) as u16), p3)),
                },
            },
        }
    }
}

proof fn lemma_units_error(b: Seq<u8>, p: int, i: nat, n: nat, e: Error)
    requires
        i < n,
        spec_read_units(b, p, (i + 1) as nat) == Err::<(Seq<u16>, int), Error>(e),
    ensures
        spec_read_units(b, p, n) == Err::<(Seq<u16>, int), Error>(e),
    decreases n,
{
    if n > i + 1 {
        lemma_units_error(b, p, i, (n - 1) as nat, e);
    }
}

/// `TV`: a `BS` length, then from R2007 that many UTF-16 code units,
/// before it that many bytes; one trailing NUL is dropped. Invalid
/// UTF-16 is refused; bytes are read lossily.
pub open spec fn spec_read_tv(b: Seq<u8>, p: int, version: Version) -> core::result::Result<(Seq<char>, int), Error> {
    match spec_read_bs_u(b, p) {
        Err(e) => Err(e),
        Ok((len, p1)) => if len == 0 {
            Ok((Seq::empty(), p1))
        } else if version.spec_is_r2007_plus() {
            match spec_read_units(b, p1, len as nat) {
                Err(e) => Err(e),
                Ok((units, p2)) => match spec_utf16_strict(spec_drop_nul(units, 0u16)) {
                    Some(s) => Ok((s, p2)),
                    None => Err(spec_rejected()),
                },
            }
        } else {
            match spec_read_rc_seq(b, p1, len as nat) {
                Err(e) => Err(e),
                Ok((bytes, p2)) => Ok((spec_utf8_lossy(spec_drop_nul(bytes, 0u8)), p2)),
            }
        },
    }
}

fn read_units(c: &mut BitCursor<'_>, n: usize) -> (r: Result<Vec<u16>>)
    requires
        old(c).wf(),
    ensures
        final(c).wf(),
        final(c).data() == old(c).data(),
        match spec_read_units(old(c).data(), old(c).pos(), n as nat) {
            Ok((s, p)) => r matches Ok(v) && v@ == s && final(c).pos() == p,
            Err(e) => r == Err::<Vec<u16>, Error>(e),
        },
{
    let ghost p0 = c.pos();
    let mut out: Vec<u16> = Vec::new();
    let mut i: usize = 0;
    while i < n
        invariant
            c.wf(),
            c.data() == old(c).data(),
            p0 == old(c).pos(),
            0 <= i <= n,
            spec_read_units(c.data(), p0, i as nat) == Ok::<(Seq<u16>, int), Error>((out@, c.pos())),
        decreases n - i,
    {
        let ghost data = c.data();
        let rlo = c.read_rc();
        proof {
            if rlo is Err {
                lemma_units_error(data, p0, i as nat, n as nat, rlo->Err_0);
            }
        }
        let lo = rlo?;
        let rhi = c.read_rc();
        proof {
            if rhi is Err {
                lemma_units_error(data, p0, i as nat, n as nat, rhi->Err_0);
            }
        }
        let hi = rhi?;
        out.push((hi as u16) * 256 + lo as u16);
        i += 1;
    }
    Ok(out)
}

/// The `TV` field at `p` is UTF-16 text that reads in full but is not
/// valid UTF-16.
pub open spec fn spec_tv_invalid(b: Seq<u8>, p: int, version: Version) -> bool {
    match spec_read_bs_u(b, p) {
        Err(_) => false,
        Ok((len, p1)) => len != 0 && version.spec_is_r2007_plus() && match spec_read_units(b, p1, len as nat) {
            Err(_) => false,
            Ok((units, _)) => spec_utf16_strict(spec_drop_nul(units, 0u16)) is None,
        },
    }
}

/// Read a `TV` field; text that is not valid UTF-16 is refused with
/// the message `invalid`, which names the field's entity.
pub(crate) fn read_tv(c: &mut BitCursor<'_>, version: Version, invalid: &str) -> (r: Result<String>)
    requires
        old(c).wf(),
    ensures
        final(c).wf(),
        final(c).data() == old(c).data(),
        spec_outcome_view(r, final(c).pos(), spec_read_tv(old(c).data(), old(c).pos(), version)),
        spec_tv_invalid(old(c).data(), old(c).pos(), version) ==> (r matches Err(Error::SectionMap(m)) && m@
            == invalid@),
{
    let len = c.read_bs_u()?;
    if len == 0 {
        return Ok(String::new());
    }
    if version.is_r2007_plus() {
        let mut units = read_units(c, len as usize)?;
        let ghost read = units@;
        if units.len() > 0 && units[units.len() - 1] == 0 {
            units.pop();
        }
        assert(units@ == spec_drop_nul(read, 0u16));
        match utf16_strict(units.as_slice()) {
            Some(s) => Ok(s),
            None => Err(Error::SectionMap(invalid.to_string())),
        }
    } else {
        let mut bytes = read_rc_vec(c, len as usize)?;
        let ghost read = bytes@;
        if bytes.len() > 0 && bytes[bytes.len() - 1] == 0 {
            bytes.pop();
        }
        assert(bytes@ == spec_drop_nul(read, 0u8));
        Ok(utf8_lossy(bytes.as_slice()))
    }
}

/// Read a 3D point encoded as three `BD`s.
pub fn read_bd3(c: &mut BitCursor<'_>) -> (r: Result<Point3D>)
    requires
        old(c).wf(),
    ensures
        final(c).wf(),
        final(c).data() == old(c).data(),
        match spec_read_bd3(old(c).data(), old(c).pos()) {
            Ok((v, p)) => r == Ok::<Point3D, Error>(v) && final(c).pos() == p,
            Err(e) => r == Err::<Point3D, Error>(e),
        },
{
    proof {
        reveal(spec_read_bd3);
    }
    let x = c.read_bd()?;
    let y = c.read_bd()?;
    let z = c.read_bd()?;
    Ok(Point3D { x, y, z })
}

/// Read a 2D point encoded as two `BD`s.
pub fn read_bd2(c: &mut BitCursor<'_>) -> (r: Result<Point2D>)
    requires
        old(c).wf(),
    ensures
        final(c).wf(),
        final(c).data() == old(c).data(),
        spec_outcome(r, final(c).pos(), spec_read_bd2(old(c).data(), old(c).pos())),
{
    let x = c.read_bd()?;
    let y = c.read_bd()?;
    Ok(Point2D { x, y })
}

/// Read a 3D point encoded as three `RD`s.
pub fn read_rd3(c: &mut BitCursor<'_>) -> (r: Result<Point3D>)
    requires
        old(c).wf(),
    ensures
        final(c).wf(),
        final(c).data() == old(c).data(),
        spec_outcome(r, final(c).pos(), spec_read_rd3(old(c).data(), old(c).pos())),
{
    let x = c.read_rd()?;
    let y = c.read_rd()?;
    let z = c.read_rd()?;
    Ok(Point3D { x, y, z })
}

/// Read a 2D point encoded as two `RD`s.
pub fn read_rd2(c: &mut BitCursor<'_>) -> (r: Result<Point2D>)
    requires
        old(c).wf(),
    ensures
        final(c).wf(),
        final(c).data() == old(c).data(),
        spec_outcome(r, final(c).pos(), spec_read_rd2(old(c).data(), old(c).pos())),
{
    let x = c.read_rd()?;
    let y = c.read_rd()?;
    Ok(Point2D { x, y })
}

/// Read a `BE` (extrusion / normal vector).
pub fn read_be(c: &mut BitCursor<'_>) -> (r: Result<Vec3D>)
    requires
        old(c).wf(),
    ensures
        final(c).wf(),
        final(c).data() == old(c).data(),
        spec_outcome(r, final(c).pos(), spec_read_be(old(c).data(), old(c).pos())),
{
    if c.read_b()? {
        Ok(Point3D { x: 0, y: 0, z: 0x3FF0_0000_0000_0000 })
    } else {
        read_bd3(c)
    }
}

/// Read a `BT` (thickness).
pub fn read_bt(c: &mut BitCursor<'_>) -> (r: Result<u64>)
    requires
        old(c).wf(),
    ensures
        final(c).wf(),
        final(c).data() == old(c).data(),
        spec_outcome(r, final(c).pos(), spec_read_bt(old(c).data(), old(c).pos())),
{
    if c.read_b()? {
        Ok(0)
    } else {
        c.read_bd()
    }
}

} // verus!
