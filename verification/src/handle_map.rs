//! `AcDb:Handles` object map: handle → byte offset into the
//! `AcDb:AcDbObjects` stream.
//!
//! # On-disk format
//!
//! The section is a list of handle sections, each of this shape:
//!
//! ```text
//!   2 bytes  big-endian u16 section size (pairs + CRC)
//!   N bytes  run of (MC handle_delta, MC offset_delta) pairs
//!   2 bytes  CRC-8 over the pairs
//! ```
//!
//! ending with a size-0 header. The handle delta is an *unsigned*
//! modular char (seven magnitude bits per byte, `0x80` marks
//! continuation); the offset delta is *signed* (the terminating byte
//! carries six magnitude bits and `0x40` as the sign), because
//! offsets jump backwards where deleted objects' space is reused. Both
//! running totals restart at zero in every handle section: a section's
//! first pair is absolute.
use vstd::prelude::*;

use crate::bitcursor::{BitCursor, lemma_aligned_read_rc, spec_exhausted, spec_read_rc};
use crate::bitwriter::BitWriter;
use crate::crc::{crc8, spec_crc8};
use crate::error::{Error, Result};
use crate::header::concat_text;
use crate::text::{push_decimal, spec_decimal_digits, with_decimal};
use crate::le::{push_bytes, push_u16_be, push_u16_le, spec_be16, spec_le16};
use crate::version::Version;

verus! {

/// Defensive cap on parsed handle map entries.
pub const MAX_HANDLE_ENTRIES: usize = 1_000_000;

/// Maximum bytes per handle section on the wire (pairs plus CRC).
pub const MAX_HANDLE_SECTION_BYTES: usize = 2032;

/// One DWG object in the handle map.
#[derive(Debug, Clone, Copy, PartialEq, Eq, Structural)]
pub struct HandleEntry {
    /// Absolute handle value.
    pub handle: u64,
    /// Byte offset into the decompressed `AcDb:AcDbObjects` stream.
    pub offset: u64,
}

/// Full handle → offset index for a drawing.
#[derive(Debug, Clone)]
pub struct HandleMap {
    pub entries: Vec<HandleEntry>,
}

// ----------------------------------------------------------------
// Modular chars, over the bytes of a handle section.
// ----------------------------------------------------------------

/// The error a byte read at the end of the buffer reports.
pub open spec fn spec_end_of_bytes() -> Error {
    Error::BitsExhausted { wanted: 8, remaining: 0 }
}

/// Unsigned modular char at byte `i`: seven value bits per byte,
/// least significant group first, ended by a byte without `0x80` (or
/// after the group that reaches bit 63).
pub open spec fn spec_umc(b: Seq<u8>, i: int, value: u64, shift: u64) -> core::result::Result<(u64, int), Error>
    decreases b.len() - i,
{
    if i < 0 || i >= b.len() {
        Err(spec_end_of_bytes())
    } else {
        let byte = b[i] as u64;
        let v = value | ((byte & 0x7F) << shift);
        if byte & 0x80 == 0 || shift + 7 >= 64 {
            Ok((v, i + 1))
        } else {
            spec_umc(b, i + 1, v, (shift + 7) as u64)
        }
    }
}

/// Signed modular char at byte `i`: as the unsigned one, but the
/// terminating byte carries six value bits and `0x40` is the sign.
/// Yields the magnitude and the sign.
pub open spec fn spec_smc(b: Seq<u8>, i: int, value: u64, shift: u64) -> core::result::Result<(u64, bool, int), Error>
    decreases b.len() - i,
{
    if i < 0 || i >= b.len() {
        Err(spec_end_of_bytes())
    } else {
        let byte = b[i] as u64;
        let cont = byte & 0x80 != 0;
        let data = if cont {
            byte & 0x7F
        } else {
            byte & 0x3F
        };
        let v = value | (data << shift);
        let s2 = shift + if cont {
            7u64
        } else {
            6u64
        };
        if !cont {
            Ok((v, byte & 0x40 != 0, i + 1))
        } else if s2 >= 64 {
            Ok((v, false, i + 1))
        } else {
            spec_smc(b, i + 1, v, s2 as u64)
        }
    }
}

/// A signed modular char at bit position `p`, its bytes read as `RC`s
/// at any alignment. Yields the magnitude, the sign and the bit
/// position after it.
pub open spec fn spec_smc_at(b: Seq<u8>, p: int, value: u64, shift: u64) -> core::result::Result<(u64, bool, int), Error>
    decreases b.len() * 8 - p,
{
    match spec_read_rc(b, p) {
        Err(e) => Err(e),
        Ok((byte8, p1)) => {
            let byte = byte8 as u64;
            let cont = byte & 0x80 != 0;
            let data = if cont {
                byte & 0x7F
            } else {
                byte & 0x3F
            };
            let v = value | (data << shift);
            let s2 = shift + if cont {
                7u64
            } else {
                6u64
            };
            if !cont {
                Ok((v, byte & 0x40 != 0, p1))
            } else if s2 >= 64 {
                Ok((v, false, p1))
            } else {
                spec_smc_at(b, p1, v, s2 as u64)
            }
        },
    }
}

/// A signed modular char at bit position `p` as a value and the bit
/// position after it; `None` on a read past the end or a magnitude
/// past `i64`.
pub open spec fn spec_read_smc_at(b: Seq<u8>, p: int) -> Option<(i64, int)> {
    match spec_smc_at(b, p, 0, 0) {
        Err(_) => None,
        Ok((v, neg, j)) => match spec_signed_value(v, neg) {
            None => None,
            Some(x) => Some((x, j)),
        },
    }
}

/// A signed modular char's value: the magnitude, negated when the sign
/// is set; `None` when the magnitude does not fit an `i64`.
pub open spec fn spec_signed_value(value: u64, negate: bool) -> Option<i64> {
    if value > i64::MAX {
        None
    } else if negate {
        Some((-(value as int)) as i64)
    } else {
        Some(value as i64)
    }
}

/// A signed modular char as a value and the index after it; `None` on
/// a read past the end or a magnitude past `i64`.
pub open spec fn spec_read_smc(b: Seq<u8>, i: int) -> Option<(i64, int)> {
    match spec_smc(b, i, 0, 0) {
        Err(_) => None,
        Ok((v, neg, j)) => match spec_signed_value(v, neg) {
            None => None,
            Some(x) => Some((x, j)),
        },
    }
}

/// The pairs of one handle section from byte `i`, appended to `es`;
/// `None` when the entry cap is hit. A pair that cannot be read ends
/// the section.
pub open spec fn spec_parse_pairs(p: Seq<u8>, i: int, last_h: u64, last_o: i64, es: Seq<HandleEntry>) -> Option<Seq<HandleEntry>>
    decreases p.len() - i,
{
    if i < 0 || i >= p.len() {
        Some(es)
    } else {
        proof {
            lemma_umc_advances(p, i, 0, 0);
        }
        match spec_umc(p, i, 0, 0) {
            Err(_) => Some(es),
            Ok((hd, i1)) => {
                proof {
                    lemma_smc_advances(p, i1, 0, 0);
                }
                match spec_read_smc(p, i1) {
                    None => Some(es),
                    Some((od, i2)) => {
                        if es.len() >= MAX_HANDLE_ENTRIES {
                            None
                        } else {
                            let h = last_h.wrapping_add(hd);
                            let o = last_o.wrapping_add(od);
                            spec_parse_pairs(p, i2, h, o, es.push(HandleEntry { handle: h, offset: #[verifier::truncate] (o as u64) }))
                        }
                    },
                }
            },
        }
    }
}

/// The big-endian size at `pos`.
pub open spec fn spec_section_size(b: Seq<u8>, pos: int) -> nat {
    (b[pos] as nat) * 256 + b[pos + 1] as nat
}

/// The handle sections from `pos`, appended to `es`; `None` for a
/// malformed section (one that claims more bytes than remain, or
/// fewer than its own CRC) or for too many entries.
pub open spec fn spec_parse_sections(b: Seq<u8>, pos: int, es: Seq<HandleEntry>) -> Option<Seq<HandleEntry>>
    decreases b.len() - pos,
{
    if pos < 0 || pos + 2 > b.len() {
        Some(es)
    } else {
        let size = spec_section_size(b, pos);
        let p = pos + 2;
        if size == 0 {
            Some(es)
        } else if p + size > b.len() || size < 2 {
            None
        } else {
            match spec_parse_pairs(b.subrange(p, p + size - 2), 0, 0, 0, es) {
                None => None,
                Some(es2) => spec_parse_sections(b, p + size, es2),
            }
        }
    }
}

/// The message of the refusal of the entry cap.
pub open spec fn spec_cap_text() -> Seq<char> {
    "AcDb:Handles parse exceeded MAX_HANDLE_ENTRIES ("@ + spec_decimal_digits(MAX_HANDLE_ENTRIES as nat)
        + "); malformed or adversarial file"@
}

/// The message of the refusal that ends the sections from `pos`, when
/// [`spec_parse_sections`] refuses them: a section size past the bytes
/// left, or below its CRC, named with its position and size; or the
/// entry cap.
pub open spec fn spec_parse_refusal(b: Seq<u8>, pos: int, es: Seq<HandleEntry>) -> Seq<char>
    decreases b.len() - pos,
{
    if pos < 0 || pos + 2 > b.len() {
        Seq::empty()
    } else {
        let size = spec_section_size(b, pos);
        let p = pos + 2;
        if size == 0 {
            Seq::empty()
        } else if p + size > b.len() {
            "AcDb:Handles section at byte "@ + spec_decimal_digits(pos as nat) + " claims "@ + spec_decimal_digits(
                size as nat,
            ) + " bytes, "@ + spec_decimal_digits((b.len() - p) as nat) + " remain"@
        } else if size < 2 {
            "AcDb:Handles section at byte "@ + spec_decimal_digits(pos as nat) + " claims "@ + spec_decimal_digits(
                size as nat,
            ) + " bytes, fewer than its 2-byte CRC"@
        } else {
            match spec_parse_pairs(b.subrange(p, p + size - 2), 0, 0, 0, es) {
                None => spec_cap_text(),
                Some(es2) => spec_parse_refusal(b, p + size, es2),
            }
        }
    }
}

/// The entries of a whole `AcDb:Handles` payload.
pub open spec fn spec_parse(b: Seq<u8>) -> Option<Seq<HandleEntry>> {
    spec_parse_sections(b, 0, Seq::empty())
}

pub proof fn lemma_umc_advances(b: Seq<u8>, i: int, value: u64, shift: u64)
    ensures
        spec_umc(b, i, value, shift) matches Ok((_, j)) ==> i < j <= b.len(),
    decreases b.len() - i,
{
    if 0 <= i < b.len() {
        lemma_umc_advances(b, i + 1, value | (((b[i] as u64) & 0x7F) << shift), (shift + 7) as u64);
    }
}

pub proof fn lemma_smc_advances(b: Seq<u8>, i: int, value: u64, shift: u64)
    ensures
        spec_smc(b, i, value, shift) matches Ok((_, _, j)) ==> i < j <= b.len(),
        spec_read_smc(b, i) matches Some((_, j)) ==> i < j <= b.len(),
    decreases b.len() - i,
{
    if 0 <= i < b.len() {
        let byte = b[i] as u64;
        let cont = byte & 0x80 != 0;
        let data = if cont {
            byte & 0x7F
        } else {
            byte & 0x3F
        };
        let s2 = shift + if cont {
            7u64
        } else {
            6u64
        };
        lemma_smc_advances(b, i + 1, value | (data << shift), s2 as u64);
        lemma_smc_advances_from_zero(b, i);
    }
}

proof fn lemma_smc_advances_from_zero(b: Seq<u8>, i: int)
    ensures
        spec_smc(b, i, 0, 0) matches Ok((_, _, j)) ==> i < j <= b.len(),
    decreases b.len() - i,
{
    lemma_smc_advances_general(b, i, 0, 0);
}

proof fn lemma_smc_advances_general(b: Seq<u8>, i: int, value: u64, shift: u64)
    ensures
        spec_smc(b, i, value, shift) matches Ok((_, _, j)) ==> i < j <= b.len(),
    decreases b.len() - i,
{
    if 0 <= i < b.len() {
        let byte = b[i] as u64;
        let cont = byte & 0x80 != 0;
        let data = if cont {
            byte & 0x7F
        } else {
            byte & 0x3F
        };
        let s2 = shift + if cont {
            7u64
        } else {
            6u64
        };
        lemma_smc_advances_general(b, i + 1, value | (data << shift), s2 as u64);
    }
}

// ----------------------------------------------------------------
// Readers.
// ----------------------------------------------------------------

/// Read an unsigned modular char at a byte-aligned cursor.
pub(crate) fn read_unsigned_mc(r: &mut BitCursor<'_>) -> (res: Result<u64>)
    requires
        old(r).wf(),
        old(r).pos() % 8 == 0,
    ensures
        final(r).wf(),
        final(r).data() == old(r).data(),
        match spec_umc(old(r).data(), old(r).pos() / 8, 0, 0) {
            Ok((v, j)) => res == Ok::<u64, Error>(v) && final(r).pos() == 8 * j,
            Err(e) => res == Err::<u64, Error>(e),
        },
{
    proof {
        r.lemma_wf();
    }
    let ghost i0: int = r.pos() / 8;
    let ghost mut i: int = i0;
    let mut value: u64 = 0;
    let mut shift: u64 = 0;
    loop
        invariant
            r.wf(),
            r.data() == old(r).data(),
            old(r).pos() == 8 * i0,
            r.pos() == 8 * i,
            0 <= i0 <= i,
            shift <= 63,
            spec_umc(r.data(), i, value, shift) == spec_umc(r.data(), i0, 0, 0),
        decreases r.data().len() - i,
    {
        proof {
            r.lemma_wf();
            lemma_aligned_read_rc(r.data(), r.pos());
        }
        let b = match r.read_rc() {
            Ok(x) => x as u64,
            Err(e) => {
                return Err(e);
            },
        };
        value = value | ((b & 0x7F) << shift);
        shift = shift + 7;
        proof {
            i = i + 1;
        }
        if (b & 0x80) == 0 {
            return Ok(value);
        }
        if shift >= 64 {
            return Ok(value);
        }
    }
}

/// `value` negated when `negate` is set; an error when the magnitude
/// does not fit an `i64`.
pub fn signed_modular_char_value(value: u64, negate: bool) -> (res: Result<i64>)
    ensures
        match spec_signed_value(value, negate) {
            Some(x) => res == Ok::<i64, Error>(x),
            None => res matches Err(Error::SectionMap(_)),
        },
{
    if value > i64::MAX as u64 {
        return Err(Error::SectionMap("modular char magnitude exceeds i64".to_string()));
    }
    let v = value as i64;
    if negate {
        Ok(-v)
    } else {
        Ok(v)
    }
}

/// Read a signed modular char at a byte-aligned cursor.
pub fn read_signed_mc(r: &mut BitCursor<'_>) -> (res: Result<i64>)
    requires
        old(r).wf(),
    ensures
        final(r).wf(),
        final(r).data() == old(r).data(),
        match spec_read_smc_at(old(r).data(), old(r).pos()) {
            Some((v, j)) => res == Ok::<i64, Error>(v) && final(r).pos() == j,
            None => res is Err,
        },
        spec_smc_at(old(r).data(), old(r).pos(), 0, 0) matches Err(e) ==> res == Err::<i64, Error>(e),
{
    let ghost p0: int = r.pos();
    let mut value: u64 = 0;
    let mut shift: u64 = 0;
    loop
        invariant
            r.wf(),
            r.data() == old(r).data(),
            old(r).pos() == p0,
            shift <= 63,
            spec_smc_at(r.data(), r.pos(), value, shift) == spec_smc_at(r.data(), p0, 0, 0),
        decreases r.data().len() * 8 - r.pos(),
    {
        proof {
            r.lemma_wf();
        }
        let b = match r.read_rc() {
            Ok(x) => x as u64,
            Err(e) => {
                return Err(e);
            },
        };
        let cont = (b & 0x80) != 0;
        let data = if cont {
            b & 0x7F
        } else {
            b & 0x3F
        };
        value = value | (data << shift);
        shift = shift + if cont {
            7
        } else {
            6
        };
        if !cont {
            return signed_modular_char_value(value, (b & 0x40) != 0);
        }
        if shift >= 64 {
            return signed_modular_char_value(value, false);
        }
    }
}

/// At a byte boundary the bit-position reading is the byte reading.
proof fn lemma_smc_at_aligned(b: Seq<u8>, i: int, value: u64, shift: u64)
    requires
        0 <= i <= b.len(),
    ensures
        spec_smc_at(b, 8 * i, value, shift) == match spec_smc(b, i, value, shift) {
            Ok((v, sg, j)) => Ok::<(u64, bool, int), Error>((v, sg, 8 * j)),
            Err(e) => Err(e),
        },
    decreases b.len() - i,
{
    lemma_aligned_read_rc(b, 8 * i);
    assert((8 * i) / 8 == i);
    if i < b.len() {
        assert(8 * i + 8 <= b.len() * 8);
        let byte = b[i] as u64;
        let cont = byte & 0x80 != 0;
        let data = if cont {
            byte & 0x7F
        } else {
            byte & 0x3F
        };
        let s2 = shift + if cont {
            7u64
        } else {
            6u64
        };
        if cont && s2 < 64 {
            lemma_smc_at_aligned(b, i + 1, value | (data << shift), s2 as u64);
            assert(8 * i + 8 == 8 * (i + 1));
        }
    } else {
        assert(8 * i + 8 > b.len() * 8);
        assert(spec_exhausted(b, 8 * i, 8) == spec_end_of_bytes());
    }
}

/// Read the pairs of one handle section's payload, appending entries.
fn parse_pairs(payload: &[u8], entries: &mut Vec<HandleEntry>) -> (res: Result<()>)
    requires
        payload@.len() * 8 <= usize::MAX,
    ensures
        match spec_parse_pairs(payload@, 0, 0, 0, old(entries)@) {
            Some(es) => res is Ok && final(entries)@ == es,
            None => res matches Err(Error::SectionMap(m)) && m@ == spec_cap_text(),
        },
{
    let mut last_handle: u64 = 0;
    let mut last_offset: i64 = 0;
    let mut cur = BitCursor::new(payload);
    let ghost mut i: int = 0;
    while cur.remaining_bits() >= 8
        invariant
            cur.wf(),
            cur.data() == payload@,
            cur.pos() == 8 * i,
            0 <= i,
            spec_parse_pairs(payload@, i, last_handle, last_offset, entries@) == spec_parse_pairs(
                payload@,
                0,
                0,
                0,
                old(entries)@,
            ),
        decreases payload@.len() - i,
    {
        proof {
            lemma_umc_advances(payload@, i, 0, 0);
        }
        let h_delta = match read_unsigned_mc(&mut cur) {
            Ok(v) => v,
            Err(_) => {
                return Ok(());
            },
        };
        let ghost i1: int = cur.pos() / 8;
        proof {
            lemma_smc_advances(payload@, i1, 0, 0);
            cur.lemma_wf();
            lemma_smc_at_aligned(payload@, i1, 0, 0);
        }
        let o_delta = match read_signed_mc(&mut cur) {
            Ok(v) => v,
            Err(_) => {
                return Ok(());
            },
        };
        proof {
            i = cur.pos() / 8;
        }
        last_handle = last_handle.wrapping_add(h_delta);
        last_offset = last_offset.wrapping_add(o_delta);
        if entries.len() >= MAX_HANDLE_ENTRIES {
            let head = with_decimal("AcDb:Handles parse exceeded MAX_HANDLE_ENTRIES (", MAX_HANDLE_ENTRIES as u64);
            return Err(Error::SectionMap(concat_text(head.as_str(), "); malformed or adversarial file")));
        }
        entries.push(HandleEntry { handle: last_handle, offset: #[verifier::truncate] (last_offset as u64) });
    }
    Ok(())
}

// ----------------------------------------------------------------
// Writers.
// ----------------------------------------------------------------

pub proof fn lemma_shr7_decreases(x: u64)
    ensures
        x >> 7u64 != 0 ==> x >> 7u64 < x,
{
    assert(x >> 7u64 != 0 ==> x >> 7u64 < x) by (bit_vector);
}

/// The unsigned modular char encoding of `v`: seven bits per byte,
/// least significant group first, `0x80` on every byte but the last.
pub open spec fn spec_umc_bytes(v: u64) -> Seq<u8>
    decreases v,
{
    let limb = (v & 0x7F) as u8;
    if v >> 7u64 == 0 {
        seq![limb]
    } else {
        proof {
            lemma_shr7_decreases(v);
        }
        seq![0x80u8 | limb] + spec_umc_bytes(v >> 7u64)
    }
}

/// The sign flag of a signed modular char's terminating byte.
pub open spec fn spec_sign_bit(negate: bool) -> u8 {
    if negate {
        0x40u8
    } else {
        0u8
    }
}

/// The seven-bit groups of a magnitude past six bits: `0x80` on every
/// group but the last; a last group that has `0x40` set is followed by
/// a byte that carries only the sign.
pub open spec fn spec_smc_groups(x: u64, negate: bool) -> Seq<u8>
    decreases x,
{
    let limb = (x & 0x7F) as u8;
    if x >> 7u64 == 0 {
        if limb & 0x40 == 0 {
            seq![(limb & 0x3F) | spec_sign_bit(negate)]
        } else {
            seq![0x80u8 | limb, spec_sign_bit(negate)]
        }
    } else {
        proof {
            lemma_shr7_decreases(x);
        }
        seq![0x80u8 | limb] + spec_smc_groups(x >> 7u64, negate)
    }
}

/// The magnitude of `v`.
pub open spec fn spec_abs(v: i64) -> u64 {
    if v < 0 {
        (-(v as int)) as u64
    } else {
        v as u64
    }
}

/// The signed modular char encoding of `v`: one byte when the
/// magnitude fits six bits, else the seven-bit groups.
pub open spec fn spec_smc_bytes(v: i64) -> Seq<u8> {
    let abs = spec_abs(v);
    if abs < 0x40 {
        seq![(abs as u8) | spec_sign_bit(v < 0)]
    } else {
        spec_smc_groups(abs, v < 0)
    }
}

/// Append the unsigned modular char encoding of `v`.
pub fn write_unsigned_mc(out: &mut Vec<u8>, v: u64)
    ensures
        final(out)@ == old(out)@ + spec_umc_bytes(v),
{
    let mut x = v;
    loop
        invariant
            out@ + spec_umc_bytes(x) == old(out)@ + spec_umc_bytes(v),
        decreases x,
    {
        let limb = (x & 0x7F) as u8;
        let ghost x0 = x;
        proof {
            lemma_shr7_decreases(x);
        }
        x = x >> 7;
        if x == 0 {
            out.push(limb);
            proof {
                assert(out@ =~= old(out)@ + spec_umc_bytes(v));
            }
            return;
        }
        let ghost before = out@;
        out.push(0x80 | limb);
        proof {
            assert(before + spec_umc_bytes(x0) =~= out@ + spec_umc_bytes(x));
        }
    }
}

/// Append the signed modular char encoding of `v`.
pub fn write_signed_mc(out: &mut Vec<u8>, v: i64)
    ensures
        final(out)@ == old(out)@ + spec_smc_bytes(v),
{
    let negate = v < 0;
    let abs: u64 = if negate {
        (-(v as i128)) as u64
    } else {
        v as u64
    };
    if abs < 0x40 {
        let b = if negate {
            0x40 | (abs as u8)
        } else {
            abs as u8
        };
        out.push(b);
        proof {
            assert((abs as u8) | 0u8 == abs as u8) by (bit_vector);
            assert((0x40u8 | (abs as u8)) == ((abs as u8) | 0x40u8)) by (bit_vector);
            assert(out@ =~= old(out)@ + spec_smc_bytes(v));
        }
        return;
    }
    let mut x = abs;
    loop
        invariant
            x != 0,
            out@ + spec_smc_groups(x, negate) == old(out)@ + spec_smc_groups(abs, negate),
            spec_smc_bytes(v) == spec_smc_groups(abs, negate),
        decreases x,
    {
        let limb = (x & 0x7F) as u8;
        let ghost x0 = x;
        let ghost before = out@;
        proof {
            lemma_shr7_decreases(x);
        }
        x = x >> 7;
        if x == 0 {
            if (limb & 0x40) == 0 {
                let mut b = limb & 0x3F;
                if negate {
                    b = b | 0x40;
                }
                out.push(b);
                proof {
                    let l = limb & 0x3F;
                    assert(l | 0u8 == l) by (bit_vector);
                    assert(out@ =~= before + spec_smc_groups(x0, negate));
                }
            } else {
                out.push(0x80 | limb);
                out.push(
                    if negate {
                        0x40
                    } else {
                        0x00
                    },
                );
                proof {
                    assert(out@ =~= before + spec_smc_groups(x0, negate));
                }
            }
            return;
        }
        out.push(0x80 | limb);
        proof {
            assert(before + spec_smc_groups(x0, negate) =~= out@ + spec_smc_groups(x, negate));
        }
    }
}

// ----------------------------------------------------------------
// Reading back what the writers wrote.
// ----------------------------------------------------------------

/// The mask of the low `s` bits.
pub open spec fn spec_low_mask(s: u64) -> u64 {
    !(0xFFFF_FFFF_FFFF_FFFFu64 << s)
}

proof fn lemma_bv_group(v: u64, s: u64)
    requires
        s <= 56,
    ensures
        (v >> s) >> 7u64 == v >> ((s + 7) as u64),
        (v & spec_low_mask(s)) | (((v >> s) & 0x7Fu64) << s) == v & spec_low_mask((s + 7) as u64),
        (v >> s) >> 7u64 == 0 ==> v & spec_low_mask((s + 7) as u64) == v,
{
    assert((v >> s) >> 7u64 == v >> ((s + 7) as u64)) by (bit_vector)
        requires
            s <= 56,
    ;
    assert((v & !(0xFFFF_FFFF_FFFF_FFFFu64 << s)) | (((v >> s) & 0x7Fu64) << s) == v & !(0xFFFF_FFFF_FFFF_FFFFu64
        << ((s + 7) as u64))) by (bit_vector)
        requires
            s <= 56,
    ;
    assert((v >> s) >> 7u64 == 0 ==> v & !(0xFFFF_FFFF_FFFF_FFFFu64 << ((s + 7) as u64)) == v) by (bit_vector)
        requires
            s <= 56,
    ;
}

proof fn lemma_bv_last_group(v: u64, s: u64)
    requires
        s <= 63,
        (v >> s) >> 7u64 == 0,
    ensures
        (v & spec_low_mask(s)) | (((v >> s) & 0x7Fu64) << s) == v,
{
    assert((v & !(0xFFFF_FFFF_FFFF_FFFFu64 << s)) | (((v >> s) & 0x7Fu64) << s) == v) by (bit_vector)
        requires
            s <= 63,
            (v >> s) >> 7u64 == 0,
    ;
}

proof fn lemma_bv_start(v: u64)
    ensures
        v & spec_low_mask(0) == 0,
        v >> 0u64 == v,
{
    assert(v & !(0xFFFF_FFFF_FFFF_FFFFu64 << 0u64) == 0) by (bit_vector);
    assert(v >> 0u64 == v) by (bit_vector);
}

proof fn lemma_bv_top(v: u64, s: u64)
    requires
        57 <= s <= 63,
    ensures
        (v >> s) >> 7u64 == 0,
        v >> 63u64 == 0 && s == 63 ==> v >> s == 0,
{
    assert((v >> s) >> 7u64 == 0) by (bit_vector)
        requires
            57 <= s <= 63,
    ;
}

proof fn lemma_bv_bytes(x: u64, sign: u8)
    requires
        sign == 0 || sign == 0x40,
    ensures
        ((x & 0x7F) as u8) < 128,
        (((0x80u8 | ((x & 0x7F) as u8)) as u64) & 0x80) != 0,
        (((0x80u8 | ((x & 0x7F) as u8)) as u64) & 0x7F) == x & 0x7F,
        (((x & 0x7F) as u8) as u64) & 0x80 == 0,
        (((x & 0x7F) as u8) as u64) & 0x7F == x & 0x7F,
        ((x & 0x7F) as u8) & 0x40 == 0 ==> ((((((x & 0x7F) as u8) & 0x3F) | sign) as u64) & 0x80 == 0 && (((((x
            & 0x7F) as u8) & 0x3F) | sign) as u64) & 0x3F == x & 0x7F && ((((((x & 0x7F) as u8) & 0x3F) | sign)
            as u64) & 0x40 != 0) == (sign == 0x40)),
        (sign as u64) & 0x80 == 0,
        (sign as u64) & 0x3F == 0,
        ((sign as u64) & 0x40 != 0) == (sign == 0x40),
        x < 0x40 ==> ((((x as u8) | sign) as u64) & 0x80 == 0 && (((x as u8) | sign) as u64) & 0x3F == x && ((((
            x as u8) | sign) as u64) & 0x40 != 0) == (sign == 0x40)),
{
    assert(((x & 0x7F) as u8) < 128) by (bit_vector);
    assert((((0x80u8 | ((x & 0x7F) as u8)) as u64) & 0x80) != 0) by (bit_vector);
    assert((((0x80u8 | ((x & 0x7F) as u8)) as u64) & 0x7F) == x & 0x7F) by (bit_vector);
    assert((((x & 0x7F) as u8) as u64) & 0x80 == 0) by (bit_vector);
    assert((((x & 0x7F) as u8) as u64) & 0x7F == x & 0x7F) by (bit_vector);
    assert(((x & 0x7F) as u8) & 0x40 == 0 ==> ((((((x & 0x7F) as u8) & 0x3F) | sign) as u64) & 0x80 == 0 && (((((x
        & 0x7F) as u8) & 0x3F) | sign) as u64) & 0x3F == x & 0x7F && ((((((x & 0x7F) as u8) & 0x3F) | sign) as u64)
        & 0x40 != 0) == (sign == 0x40))) by (bit_vector)
        requires
            sign == 0 || sign == 0x40,
    ;
    assert((sign as u64) & 0x80 == 0 && (sign as u64) & 0x3F == 0 && ((sign as u64) & 0x40 != 0) == (sign == 0x40))
        by (bit_vector)
        requires
            sign == 0 || sign == 0x40,
    ;
    assert(x < 0x40 ==> ((((x as u8) | sign) as u64) & 0x80 == 0 && (((x as u8) | sign) as u64) & 0x3F == x && ((((
        x as u8) | sign) as u64) & 0x40 != 0) == (sign == 0x40))) by (bit_vector)
        requires
            sign == 0 || sign == 0x40,
    ;
}

proof fn lemma_or_zero(a: u64, s: u64)
    requires
        s <= 63,
    ensures
        a | (0u64 << s) == a,
{
    assert(a | (0u64 << s) == a) by (bit_vector);
}

proof fn lemma_sub_split(b: Seq<u8>, i: int, enc: Seq<u8>)
    requires
        0 <= i,
        i + enc.len() <= b.len(),
        b.subrange(i, i + enc.len()) == enc,
        enc.len() >= 1,
    ensures
        b[i] == enc[0],
        b.subrange(i + 1, i + enc.len()) == enc.subrange(1, enc.len() as int),
{
    assert(b.subrange(i, i + enc.len())[0] == b[i]);
    assert(b.subrange(i + 1, i + enc.len()) =~= enc.subrange(1, enc.len() as int));
}

proof fn lemma_umc_read(b: Seq<u8>, i: int, v: u64, s: u64)
    requires
        s <= 63,
        0 <= i,
        i + spec_umc_bytes(v >> s).len() <= b.len(),
        b.subrange(i, i + spec_umc_bytes(v >> s).len()) == spec_umc_bytes(v >> s),
    ensures
        spec_umc(b, i, v & spec_low_mask(s), s) == Ok::<(u64, int), Error>(
            (v, i + spec_umc_bytes(v >> s).len()),
        ),
    decreases 64 - s,
{
    let x = v >> s;
    let enc = spec_umc_bytes(x);
    lemma_sub_split(b, i, enc);
    lemma_bv_bytes(x, 0);
    if x >> 7u64 == 0 {
        lemma_bv_last_group(v, s);
    } else {
        if s >= 57 {
            lemma_bv_top(v, s);
        }
        lemma_bv_group(v, s);
        assert(enc.subrange(1, enc.len() as int) =~= spec_umc_bytes(x >> 7u64));
        lemma_umc_read(b, i + 1, v, (s + 7) as u64);
    }
}

proof fn lemma_smc_groups_read(b: Seq<u8>, i: int, abs: u64, s: u64, negate: bool)
    requires
        s <= 63,
        s % 7 == 0,
        abs >> 63u64 == 0,
        abs >> s != 0,
        0 <= i,
        i + spec_smc_groups(abs >> s, negate).len() <= b.len(),
        b.subrange(i, i + spec_smc_groups(abs >> s, negate).len()) == spec_smc_groups(abs >> s, negate),
    ensures
        spec_smc(b, i, abs & spec_low_mask(s), s) == Ok::<(u64, bool, int), Error>(
            (abs, negate, i + spec_smc_groups(abs >> s, negate).len()),
        ),
    decreases 64 - s,
{
    let x = abs >> s;
    let enc = spec_smc_groups(x, negate);
    let sign = spec_sign_bit(negate);
    lemma_sub_split(b, i, enc);
    lemma_bv_bytes(x, sign);
    if s == 63 {
        lemma_bv_top(abs, s);
    }
    assert(s <= 56);
    lemma_bv_group(abs, s);
    if x >> 7u64 == 0 {
        lemma_bv_last_group(abs, s);
        let limb = (x & 0x7F) as u8;
        if limb & 0x40 != 0 {
            lemma_sub_split(b, i + 1, enc.subrange(1, enc.len() as int));
            lemma_or_zero(abs, (s + 7) as u64);
            assert(b[i + 1] == sign);
            assert(spec_smc(b, i + 1, abs, (s + 7) as u64) == Ok::<(u64, bool, int), Error>(
                (abs, negate, i + 2),
            ));
            assert(abs & spec_low_mask((s + 7) as u64) == abs);
        } else {
            assert(b[i] == (limb & 0x3F) | sign);
        }
    } else {
        assert(enc.subrange(1, enc.len() as int) =~= spec_smc_groups(x >> 7u64, negate));
        lemma_smc_groups_read(b, i + 1, abs, (s + 7) as u64, negate);
    }
}

/// Reading an unsigned modular char back from the bytes
/// [`write_unsigned_mc`] wrote gives the value and consumes exactly
/// those bytes, whatever stands before and after them.
pub proof fn lemma_unsigned_mc_roundtrip(prefix: Seq<u8>, v: u64, tail: Seq<u8>)
    ensures
        spec_umc(prefix + spec_umc_bytes(v) + tail, prefix.len() as int, 0, 0) == Ok::<(u64, int), Error>(
            (v, (prefix.len() + spec_umc_bytes(v).len()) as int),
        ),
{
    let b = prefix + spec_umc_bytes(v) + tail;
    lemma_bv_start(v);
    assert(b.subrange(prefix.len() as int, (prefix.len() + spec_umc_bytes(v).len()) as int) =~= spec_umc_bytes(v));
    lemma_umc_read(b, prefix.len() as int, v, 0);
}

/// Reading a signed modular char back from the bytes
/// [`write_signed_mc`] wrote gives the value and consumes exactly those
/// bytes, for every value but `i64::MIN`, whose magnitude the reader
/// refuses.
pub proof fn lemma_signed_mc_roundtrip(prefix: Seq<u8>, v: i64, tail: Seq<u8>)
    requires
        v != i64::MIN,
    ensures
        spec_read_smc(prefix + spec_smc_bytes(v) + tail, prefix.len() as int) == Some(
            (v, (prefix.len() + spec_smc_bytes(v).len()) as int),
        ),
{
    let enc = spec_smc_bytes(v);
    let b = prefix + enc + tail;
    let p = prefix.len() as int;
    let abs = spec_abs(v);
    let sign = spec_sign_bit(v < 0);
    assert(b.subrange(p, p + enc.len()) =~= enc);
    assert(abs <= 0x7FFF_FFFF_FFFF_FFFFu64);
    assert(abs <= 0x7FFF_FFFF_FFFF_FFFFu64 ==> abs >> 63u64 == 0) by (bit_vector);
    lemma_bv_start(abs);
    lemma_bv_bytes(abs, sign);
    if abs < 0x40 {
        lemma_sub_split(b, p, enc);
        assert(abs | (abs << 0u64) == abs) by (bit_vector);
        assert(0u64 | (abs << 0u64) == abs) by (bit_vector);
    } else {
        lemma_smc_groups_read(b, p, abs, 0, v < 0);
    }
}

// ----------------------------------------------------------------
// The map writer.
// ----------------------------------------------------------------

proof fn lemma_bv_len_step(x: u64, s: u64)
    requires
        1 <= s <= 63,
        x >> s == 0,
    ensures
        s <= 7 ==> x >> 7u64 == 0,
        s >= 8 ==> (x >> 7u64) >> ((s - 7) as u64) == 0,
{
    assert(s <= 7 ==> x >> 7u64 == 0) by (bit_vector)
        requires
            1 <= s <= 63,
            x >> s == 0,
    ;
    assert(s >= 8 ==> (x >> 7u64) >> ((s - 7) as u64) == 0) by (bit_vector)
        requires
            1 <= s <= 63,
            x >> s == 0,
    ;
}

proof fn lemma_umc_len(x: u64, s: u64)
    requires
        1 <= s <= 63,
        x >> s == 0,
    ensures
        spec_umc_bytes(x).len() <= (s + 6) / 7,
    decreases s,
{
    lemma_bv_len_step(x, s);
    if x >> 7u64 != 0 {
        lemma_umc_len(x >> 7u64, (s - 7) as u64);
    }
}

proof fn lemma_smc_groups_len(x: u64, s: u64, negate: bool)
    requires
        1 <= s <= 63,
        x >> s == 0,
    ensures
        spec_smc_groups(x, negate).len() <= (s + 6) / 7 + 1,
    decreases s,
{
    lemma_bv_len_step(x, s);
    if x >> 7u64 != 0 {
        lemma_smc_groups_len(x >> 7u64, (s - 7) as u64, negate);
    }
}

/// Both encodings are short: at most ten and eleven bytes.
pub proof fn lemma_mc_lengths(h: u64, o: i64)
    ensures
        1 <= spec_umc_bytes(h).len() <= 10,
        1 <= spec_smc_bytes(o).len() <= 11,
{
    assert((h >> 7u64) >> 57u64 == 0) by (bit_vector);
    if h >> 7u64 != 0 {
        lemma_umc_len(h >> 7u64, 57);
    }
    let a = spec_abs(o);
    assert((a >> 7u64) >> 57u64 == 0) by (bit_vector);
    if a >> 7u64 != 0 {
        lemma_smc_groups_len(a >> 7u64, 57, o < 0);
    }
}

/// The pair bytes of entry `e` after a pair for `(last_h, last_o)`.
pub open spec fn spec_pair_bytes(e: HandleEntry, last_h: u64, last_o: i64) -> Seq<u8> {
    spec_umc_bytes((e.handle - last_h) as u64) + spec_smc_bytes(
        (#[verifier::truncate] (e.offset as i64)).wrapping_sub(last_o),
    )
}

/// Where the handle section that reached entry `idx` with the pair
/// bytes `pairs` ends, and its pair bytes: it takes entries while the
/// handle does not go back and the pairs plus the CRC fit the cap.
pub open spec fn spec_section_end(es: Seq<HandleEntry>, idx: int, pairs: Seq<u8>, last_h: u64, last_o: i64) -> (int, Seq<u8>)
    decreases es.len() - idx,
{
    if idx < 0 || idx >= es.len() {
        (idx, pairs)
    } else {
        let e = es[idx];
        if e.handle < last_h {
            (idx, pairs)
        } else {
            let pb = spec_pair_bytes(e, last_h, last_o);
            if pairs.len() + pb.len() + 2 > MAX_HANDLE_SECTION_BYTES {
                (idx, pairs)
            } else {
                spec_section_end(es, idx + 1, pairs + pb, e.handle, #[verifier::truncate] (e.offset as i64))
            }
        }
    }
}

pub proof fn lemma_section_end_bounds(es: Seq<HandleEntry>, idx: int, pairs: Seq<u8>, last_h: u64, last_o: i64)
    requires
        0 <= idx <= es.len(),
        pairs.len() + 2 <= MAX_HANDLE_SECTION_BYTES,
    ensures
        idx <= spec_section_end(es, idx, pairs, last_h, last_o).0 <= es.len(),
        spec_section_end(es, idx, pairs, last_h, last_o).1.len() + 2 <= MAX_HANDLE_SECTION_BYTES,
        idx < es.len() && pairs.len() == 0 && last_h == 0 ==> idx < spec_section_end(
            es,
            idx,
            pairs,
            last_h,
            last_o,
        ).0,
    decreases es.len() - idx,
{
    if idx < es.len() {
        let e = es[idx];
        lemma_mc_lengths(
            (e.handle - last_h) as u64,
            (#[verifier::truncate] (e.offset as i64)).wrapping_sub(last_o),
        );
        if e.handle >= last_h {
            let pb = spec_pair_bytes(e, last_h, last_o);
            if pairs.len() + pb.len() + 2 <= MAX_HANDLE_SECTION_BYTES {
                lemma_section_end_bounds(
                    es,
                    idx + 1,
                    pairs + pb,
                    e.handle,
                    #[verifier::truncate] (e.offset as i64),
                );
            }
        }
    }
}

proof fn lemma_section_end_len(es: Seq<HandleEntry>, idx: int, pairs: Seq<u8>, last_h: u64, last_o: i64)
    requires
        0 <= idx <= es.len(),
        pairs.len() + 2 <= MAX_HANDLE_SECTION_BYTES,
    ensures
        spec_section_end(es, idx, pairs, last_h, last_o).1.len() <= pairs.len() + 21 * (spec_section_end(
            es,
            idx,
            pairs,
            last_h,
            last_o,
        ).0 - idx),
    decreases es.len() - idx,
{
    if idx < es.len() {
        let e = es[idx];
        lemma_mc_lengths(
            (e.handle - last_h) as u64,
            (#[verifier::truncate] (e.offset as i64)).wrapping_sub(last_o),
        );
        if e.handle >= last_h {
            let pb = spec_pair_bytes(e, last_h, last_o);
            if pairs.len() + pb.len() + 2 <= MAX_HANDLE_SECTION_BYTES {
                lemma_section_end_len(es, idx + 1, pairs + pb, e.handle, #[verifier::truncate] (e.offset as i64));
            }
        }
    }
}

/// The handle sections for the entries from `idx` on.
pub open spec fn spec_sections(es: Seq<HandleEntry>, idx: int) -> Seq<u8>
    decreases es.len() - idx,
{
    if idx < 0 || idx >= es.len() {
        Seq::empty()
    } else {
        let (j, pairs) = spec_section_end(es, idx, Seq::empty(), 0, 0);
        proof {
            lemma_section_end_bounds(es, idx, Seq::empty(), 0, 0);
        }
        spec_be16((pairs.len() + 2) as u16) + pairs + spec_le16(spec_crc8(0xC0C1, pairs)) + spec_sections(es, j)
    }
}

proof fn lemma_sections_len(es: Seq<HandleEntry>, idx: int)
    requires
        0 <= idx <= es.len(),
    ensures
        spec_sections(es, idx).len() <= 25 * (es.len() - idx),
    decreases es.len() - idx,
{
    if idx < es.len() {
        let (j, pairs) = spec_section_end(es, idx, Seq::empty(), 0, 0);
        lemma_section_end_bounds(es, idx, Seq::empty(), 0, 0);
        lemma_section_end_len(es, idx, Seq::empty(), 0, 0);
        lemma_sections_len(es, j);
    }
}

/// The `AcDb:Handles` bytes for `es`: its handle sections, then a
/// size-0 terminator.
pub open spec fn spec_write_handle_map(es: Seq<HandleEntry>) -> Seq<u8> {
    spec_sections(es, 0) + spec_be16(0)
}

/// Write a handle map as an `AcDb:Handles` byte stream, the inverse
/// of [`HandleMap::parse`] (see [`lemma_write_then_parse`]).
///
/// Entries go into a section while the handle does not decrease (the
/// handle delta is unsigned on the wire) and the pairs plus the 2-byte
/// CRC stay within [`MAX_HANDLE_SECTION_BYTES`]; then a new section
/// starts, whose first pair is absolute. The writer and the version
/// are not used: the R2004 to R2018 format does not vary.
pub fn write_handle_map(map: &HandleMap, _writer: &mut BitWriter, _version: Version) -> (res: Result<Vec<u8>>)
    ensures
        res matches Ok(out) && out@ == spec_write_handle_map(map.entries@),
{
    let mut out: Vec<u8> = Vec::new();
    let mut idx: usize = 0;
    while idx < map.entries.len()
        invariant
            idx <= map.entries@.len(),
            out@ + spec_sections(map.entries@, idx as int) == spec_sections(map.entries@, 0),
        decreases map.entries@.len() - idx,
    {
        let ghost es = map.entries@;
        let ghost idx0: int = idx as int;
        let mut pairs: Vec<u8> = Vec::with_capacity(32);
        let mut sec_last_handle: u64 = 0;
        let mut sec_last_offset: i64 = 0;
        proof {
            lemma_section_end_bounds(es, idx0, Seq::empty(), 0, 0);
        }
        while idx < map.entries.len()
            invariant
                es == map.entries@,
                idx0 <= idx <= es.len(),
                pairs@.len() + 2 <= MAX_HANDLE_SECTION_BYTES,
                spec_section_end(es, idx as int, pairs@, sec_last_handle, sec_last_offset) == spec_section_end(
                    es,
                    idx0,
                    Seq::empty(),
                    0,
                    0,
                ),
            ensures
                spec_section_end(es, idx0, Seq::empty(), 0, 0) == (idx as int, pairs@),
            decreases es.len() - idx,
        {
            let e = map.entries[idx];
            let h_delta = match e.handle.checked_sub(sec_last_handle) {
                Some(d) => d,
                None => {
                    break;
                },
            };
            let o_delta = (#[verifier::truncate] (e.offset as i64)).wrapping_sub(sec_last_offset);
            let mut pair_bytes: Vec<u8> = Vec::with_capacity(4);
            write_unsigned_mc(&mut pair_bytes, h_delta);
            write_signed_mc(&mut pair_bytes, o_delta);
            proof {
                lemma_mc_lengths(h_delta, o_delta);
                assert(pair_bytes@ =~= spec_pair_bytes(e, sec_last_handle, sec_last_offset));
            }
            if pairs.len() + pair_bytes.len() + 2 > MAX_HANDLE_SECTION_BYTES {
                break;
            }
            push_bytes(&mut pairs, pair_bytes.as_slice());
            sec_last_handle = e.handle;
            sec_last_offset = #[verifier::truncate] (e.offset as i64);
            idx += 1;
        }
        let ghost sec = spec_section_end(es, idx0, Seq::empty(), 0, 0);
        let section_size = pairs.len() + 2;
        push_u16_be(&mut out, section_size as u16);
        push_bytes(&mut out, pairs.as_slice());
        let crc = crc8(0xC0C1, pairs.as_slice());
        push_u16_le(&mut out, crc);
        proof {
            assert(spec_sections(es, idx0) =~= spec_be16((pairs@.len() + 2) as u16) + pairs@ + spec_le16(
                spec_crc8(0xC0C1, pairs@),
            ) + spec_sections(es, idx as int));
        }
    }
    push_u16_be(&mut out, 0);
    Ok(out)
}

// ----------------------------------------------------------------
// Parsing what the map writer wrote.
// ----------------------------------------------------------------

/// Every offset fits an `i64`, so no offset delta is `i64::MIN`.
pub open spec fn spec_offsets_fit(es: Seq<HandleEntry>) -> bool {
    forall|k: int| 0 <= k < es.len() ==> es[k].offset <= i64::MAX
}

proof fn lemma_section_parses(es: Seq<HandleEntry>, idx: int, pairs0: Seq<u8>, lh: u64, lo: i64)
    requires
        0 <= idx <= es.len(),
        es.len() <= MAX_HANDLE_ENTRIES,
        spec_offsets_fit(es),
        0 <= lo,
    ensures
        ({
            let (j, fin) = spec_section_end(es, idx, pairs0, lh, lo);
            &&& pairs0.len() <= fin.len()
            &&& fin.subrange(0, pairs0.len() as int) == pairs0
            &&& spec_parse_pairs(fin, pairs0.len() as int, lh, lo, es.subrange(0, idx)) == Some(
                es.subrange(0, j),
            )
        }),
    decreases es.len() - idx,
{
    let (j, fin) = spec_section_end(es, idx, pairs0, lh, lo);
    if idx < es.len() && es[idx].handle >= lh && pairs0.len() + spec_pair_bytes(es[idx], lh, lo).len() + 2
        <= MAX_HANDLE_SECTION_BYTES {
        let e = es[idx];
        let hd = (e.handle - lh) as u64;
        let eo = #[verifier::truncate] (e.offset as i64);
        let od = eo.wrapping_sub(lo);
        let pb = spec_pair_bytes(e, lh, lo);
        let p1 = pairs0 + pb;
        assert(e.offset <= i64::MAX);
        assert(eo == e.offset);
        assert(od == eo - lo);
        lemma_section_parses(es, idx + 1, p1, e.handle, eo);
        let tail = fin.subrange(p1.len() as int, fin.len() as int);
        assert(fin =~= p1 + tail);
        lemma_mc_lengths(hd, od);
        lemma_unsigned_mc_roundtrip(pairs0, hd, spec_smc_bytes(od) + tail);
        assert(pairs0 + spec_umc_bytes(hd) + (spec_smc_bytes(od) + tail) =~= fin);
        lemma_signed_mc_roundtrip(pairs0 + spec_umc_bytes(hd), od, tail);
        assert(pairs0 + spec_umc_bytes(hd) + spec_smc_bytes(od) + tail =~= fin);
        assert(es.subrange(0, idx).push(HandleEntry { handle: e.handle, offset: e.offset }) =~= es.subrange(
            0,
            idx + 1,
        ));
        assert(fin.subrange(0, pairs0.len() as int) =~= pairs0);
        assert(lh.wrapping_add(hd) == e.handle);
        assert(lo.wrapping_add(od) == eo);
    } else {
        assert(fin.subrange(0, pairs0.len() as int) =~= pairs0);
    }
}

proof fn lemma_sections_parse(es: Seq<HandleEntry>, idx: int, pre: Seq<u8>)
    requires
        0 <= idx <= es.len(),
        es.len() <= MAX_HANDLE_ENTRIES,
        spec_offsets_fit(es),
    ensures
        spec_parse_sections(pre + spec_sections(es, idx) + spec_be16(0), pre.len() as int, es.subrange(0, idx))
            == Some(es),
    decreases es.len() - idx,
{
    let b = pre + spec_sections(es, idx) + spec_be16(0);
    let pos = pre.len() as int;
    if idx == es.len() {
        assert(b =~= pre + spec_be16(0));
        assert(b[pos] == 0 && b[pos + 1] == 0);
        assert(es.subrange(0, idx) =~= es);
    } else {
        let (j, pairs) = spec_section_end(es, idx, Seq::empty(), 0, 0);
        lemma_section_end_bounds(es, idx, Seq::empty(), 0, 0);
        lemma_section_parses(es, idx, Seq::empty(), 0, 0);
        let n = pairs.len() + 2;
        let hdr = spec_be16(n as u16);
        let crc = spec_le16(spec_crc8(0xC0C1, pairs));
        let pre2 = pre + hdr + pairs + crc;
        assert(b =~= pre2 + spec_sections(es, j) + spec_be16(0));
        assert(b[pos] == hdr[0] && b[pos + 1] == hdr[1]);
        assert(spec_section_size(b, pos) == n);
        assert(b.subrange(pos + 2, pos + 2 + n - 2) =~= pairs);
        lemma_sections_parse(es, j, pre2);
    }
}

/// Parsing what [`write_handle_map`] wrote gives back every entry, in
/// order: the writer is the parser's inverse for any map the parser
/// can produce (at most [`MAX_HANDLE_ENTRIES`] entries, offsets that
/// fit an `i64`). What it wrote is at most 25 bytes an entry plus the
/// terminator, so [`HandleMap::parse`] accepts it on every target.
pub proof fn lemma_write_then_parse(es: Seq<HandleEntry>)
    requires
        es.len() <= MAX_HANDLE_ENTRIES,
        spec_offsets_fit(es),
    ensures
        spec_parse(spec_write_handle_map(es)) == Some(es),
        spec_write_handle_map(es).len() <= 25 * es.len() + 2,
        spec_write_handle_map(es).len() * 8 <= usize::MAX,
{
    lemma_sections_len(es, 0);
    lemma_sections_parse(es, 0, Seq::empty());
    assert(Seq::<u8>::empty() + spec_sections(es, 0) + spec_be16(0) =~= spec_write_handle_map(es));
    assert(es.subrange(0, 0) =~= Seq::<HandleEntry>::empty());
}

impl HandleMap {
    /// Parse a decompressed `AcDb:Handles` payload.
    ///
    /// Errors with [`Error::SectionMap`] when a section claims more
    /// bytes than remain or fewer than its CRC, or when the map would
    /// exceed [`MAX_HANDLE_ENTRIES`]; exactly when [`spec_parse`] is
    /// `None`.
    pub fn parse(bytes: &[u8]) -> (res: Result<HandleMap>)
        requires
            bytes@.len() * 8 <= usize::MAX,
        ensures
            match spec_parse(bytes@) {
                Some(es) => res matches Ok(m) && m.entries@ == es,
                None => res matches Err(Error::SectionMap(m)) && m@ == spec_parse_refusal(bytes@, 0, Seq::empty()),
            },
    {
        let mut entries: Vec<HandleEntry> = Vec::new();
        let mut pos: usize = 0;
        loop
            invariant
                pos <= bytes@.len(),
                bytes@.len() * 8 <= usize::MAX,
                spec_parse_sections(bytes@, pos as int, entries@) == spec_parse(bytes@),
                spec_parse_refusal(bytes@, pos as int, entries@) == spec_parse_refusal(bytes@, 0, Seq::empty()),
            decreases bytes@.len() - pos,
        {
            if pos + 2 > bytes.len() {
                return Ok(HandleMap { entries });
            }
            let section_size = (bytes[pos] as usize) * 256 + bytes[pos + 1] as usize;
            pos += 2;
            if section_size == 0 {
                return Ok(HandleMap { entries });
            }
            if pos + section_size > bytes.len() {
                let m = with_decimal("AcDb:Handles section at byte ", (pos - 2) as u64);
                let mut m = concat_text(m.as_str(), " claims ");
                push_decimal(&mut m, section_size as u64);
                let mut m = concat_text(m.as_str(), " bytes, ");
                push_decimal(&mut m, (bytes.len() - pos) as u64);
                return Err(Error::SectionMap(concat_text(m.as_str(), " remain")));
            }
            if section_size < 2 {
                let m = with_decimal("AcDb:Handles section at byte ", (pos - 2) as u64);
                let mut m = concat_text(m.as_str(), " claims ");
                push_decimal(&mut m, section_size as u64);
                return Err(Error::SectionMap(concat_text(m.as_str(), " bytes, fewer than its 2-byte CRC")));
            }
            let payload_end = pos + section_size - 2;
            let payload = &bytes[pos..payload_end];
            pos += section_size;
            match parse_pairs(payload, &mut entries) {
                Ok(()) => {},
                Err(e) => {
                    return Err(e);
                },
            }
        }
    }

    /// The offset of the first entry with this handle.
    pub fn offset_of(&self, handle: u64) -> (r: Option<u64>)
        ensures
            match r {
                Some(o) => exists|i: int|
                    0 <= i < self.entries@.len() && self.entries@[i].handle == handle
                        && self.entries@[i].offset == o && forall|j: int|
                        0 <= j < i ==> self.entries@[j].handle != handle,
                None => forall|i: int| 0 <= i < self.entries@.len() ==> self.entries@[i].handle != handle,
            },
    {
        let mut i: usize = 0;
        while i < self.entries.len()
            invariant
                0 <= i <= self.entries@.len(),
                forall|j: int| 0 <= j < i ==> self.entries@[j].handle != handle,
            decreases self.entries@.len() - i,
        {
            if self.entries[i].handle == handle {
                return Some(self.entries[i].offset);
            }
            i += 1;
        }
        None
    }

    /// Every entry, in map order.
    pub fn iter(&self) -> (it: std::slice::Iter<'_, HandleEntry>)
        ensures
            vstd::std_specs::iter::IteratorSpec::remaining(&it) == self.entries@.as_ref(),
    {
        let s = self.entries.as_slice();
        proof {
            vstd::std_specs::slice::axiom_spec_slice_iter(s);
        }
        s.iter()
    }

    /// Number of entries.
    pub fn len(&self) -> (n: usize)
        ensures
            n == self.entries@.len(),
    {
        self.entries.len()
    }

    /// `true` when the map has no entries.
    pub fn is_empty(&self) -> (b: bool)
        ensures
            b == (self.entries@.len() == 0),
    {
        self.entries.len() == 0
    }
}

impl Default for HandleMap {
    fn default() -> (m: HandleMap)
        ensures
            m.entries@ == Seq::<HandleEntry>::empty(),
    {
        HandleMap { entries: Vec::new() }
    }
}

} // verus!
