//! Little- and big-endian integer encodings of fixed width, and the
//! `byteorder` reads the byte-aligned parsers use.
use vstd::prelude::*;

use byteorder::{ByteOrder, LittleEndian};

verus! {

/// The two little-endian bytes of `v`.
pub open spec fn spec_le16(v: u16) -> Seq<u8> {
    seq![(v % 256) as u8, (v / 256) as u8]
}

/// The two big-endian bytes of `v`.
pub open spec fn spec_be16(v: u16) -> Seq<u8> {
    seq![(v / 256) as u8, (v % 256) as u8]
}

/// The four little-endian bytes of `v`.
pub open spec fn spec_le32(v: u32) -> Seq<u8> {
    spec_le16((v % 65536) as u16) + spec_le16((v / 65536) as u16)
}

/// The eight little-endian bytes of `v`.
pub open spec fn spec_le64(v: u64) -> Seq<u8> {
    spec_le32((v % 0x1_0000_0000) as u32) + spec_le32((v / 0x1_0000_0000) as u32)
}

/// The value of two little-endian bytes.
pub open spec fn spec_le16_value(b: Seq<u8>, i: int) -> u16 {
    (b[i] + b[i + 1] * 256) as u16
}

/// The value of four little-endian bytes.
pub open spec fn spec_le32_value(b: Seq<u8>, i: int) -> u32 {
    (spec_le16_value(b, i) + spec_le16_value(b, i + 2) * 65536) as u32
}

/// The value of eight little-endian bytes.
pub open spec fn spec_le64_value(b: Seq<u8>, i: int) -> u64 {
    (spec_le32_value(b, i) + spec_le32_value(b, i + 4) * 0x1_0000_0000) as u64
}

/// Append `v` little-endian.
pub fn push_u16_le(out: &mut Vec<u8>, v: u16)
    ensures
        final(out)@ == old(out)@ + spec_le16(v),
{
    out.push((v % 256) as u8);
    out.push((v / 256) as u8);
    proof {
        assert(final(out)@ =~= old(out)@ + spec_le16(v));
    }
}

/// Append `v` big-endian.
pub fn push_u16_be(out: &mut Vec<u8>, v: u16)
    ensures
        final(out)@ == old(out)@ + spec_be16(v),
{
    out.push((v / 256) as u8);
    out.push((v % 256) as u8);
    proof {
        assert(final(out)@ =~= old(out)@ + spec_be16(v));
    }
}

/// Append `v` little-endian.
pub fn push_u32_le(out: &mut Vec<u8>, v: u32)
    ensures
        final(out)@ == old(out)@ + spec_le32(v),
{
    push_u16_le(out, (v % 65536) as u16);
    push_u16_le(out, (v / 65536) as u16);
    proof {
        assert(final(out)@ =~= old(out)@ + spec_le32(v));
    }
}

/// Append `v` little-endian.
pub fn push_u64_le(out: &mut Vec<u8>, v: u64)
    ensures
        final(out)@ == old(out)@ + spec_le64(v),
{
    push_u32_le(out, (v % 0x1_0000_0000) as u32);
    push_u32_le(out, (v / 0x1_0000_0000) as u32);
    proof {
        assert(final(out)@ =~= old(out)@ + spec_le64(v));
    }
}

/// Append every byte of `bytes`.
pub fn push_bytes(out: &mut Vec<u8>, bytes: &[u8])
    ensures
        final(out)@ == old(out)@ + bytes@,
{
    let mut i: usize = 0;
    while i < bytes.len()
        invariant
            0 <= i <= bytes@.len(),
            out@ == old(out)@ + bytes@.subrange(0, i as int),
        decreases bytes@.len() - i,
    {
        out.push(bytes[i]);
        i += 1;
        proof {
            assert(out@ =~= old(out)@ + bytes@.subrange(0, i as int));
        }
    }
    proof {
        assert(bytes@.subrange(0, bytes@.len() as int) =~= bytes@);
    }
}

/// Reading the four little-endian bytes of `v` gives `v` back.
pub proof fn lemma_le32_roundtrip(v: u32)
    ensures
        spec_le32_value(spec_le32(v), 0) == v,
        spec_le32(v).len() == 4,
{
}

/// Reading the eight little-endian bytes of `v` gives `v` back.
pub proof fn lemma_le64_roundtrip(v: u64)
    ensures
        spec_le64_value(spec_le64(v), 0) == v,
        spec_le64(v).len() == 8,
{
    let lo = (v % 0x1_0000_0000) as u32;
    let hi = (v / 0x1_0000_0000) as u32;
    lemma_le32_roundtrip(lo);
    lemma_le32_roundtrip(hi);
    let b = spec_le64(v);
    assert(b.subrange(0, 4) =~= spec_le32(lo));
    assert(b.subrange(4, 8) =~= spec_le32(hi));
    lemma_le_at(b, 0);
    lemma_le_at(b, 4);
    assert(spec_le32_value(b, 0) == lo);
    assert(spec_le32_value(b, 4) == hi);
}

/// The little-endian values of a sub-slice are those at its offset.
pub proof fn lemma_le_at(b: Seq<u8>, i: int)
    requires
        0 <= i,
    ensures
        i + 2 <= b.len() ==> spec_le16_value(b.subrange(i, i + 2), 0) == spec_le16_value(b, i),
        i + 4 <= b.len() ==> spec_le32_value(b.subrange(i, i + 4), 0) == spec_le32_value(b, i),
        i + 8 <= b.len() ==> spec_le64_value(b.subrange(i, i + 8), 0) == spec_le64_value(b, i),
{
}

/// `byteorder::LittleEndian::read_u16`: the first two bytes of `buf`
/// as a little-endian `u16` (it panics on a shorter buffer, which
/// `requires` rules out).
#[verifier::external_body]
pub fn le_read_u16(buf: &[u8]) -> (v: u16)
    requires
        buf@.len() >= 2,
    ensures
        v == spec_le16_value(buf@, 0),
{
    LittleEndian::read_u16(buf)
}

/// `byteorder::LittleEndian::read_u32`: the first four bytes of `buf`
/// as a little-endian `u32` (panics on a shorter buffer).
#[verifier::external_body]
pub fn le_read_u32(buf: &[u8]) -> (v: u32)
    requires
        buf@.len() >= 4,
    ensures
        v == spec_le32_value(buf@, 0),
{
    LittleEndian::read_u32(buf)
}

/// `byteorder::LittleEndian::read_u64`: the first eight bytes of
/// `buf` as a little-endian `u64` (panics on a shorter buffer).
#[verifier::external_body]
pub fn le_read_u64(buf: &[u8]) -> (v: u64)
    requires
        buf@.len() >= 8,
    ensures
        v == spec_le64_value(buf@, 0),
{
    LittleEndian::read_u64(buf)
}

/// `buf` with the bytes from `at` replaced by `bytes`.
pub open spec fn spec_splice(buf: Seq<u8>, at: int, bytes: Seq<u8>) -> Seq<u8> {
    buf.subrange(0, at) + bytes + buf.subrange(at + bytes.len(), buf.len() as int)
}

/// `byteorder::LittleEndian::write_u32`, on the four bytes of `buf`
/// from `at`: they become the little-endian bytes of `v`, the rest of
/// `buf` unchanged. (The call panics on a window shorter than four
/// bytes; `requires` keeps the window inside `buf`.)
#[verifier::external_body]
pub fn le_write_u32(buf: &mut Vec<u8>, at: usize, v: u32)
    requires
        at + 4 <= old(buf)@.len(),
    ensures
        final(buf)@ == spec_splice(old(buf)@, at as int, spec_le32(v)),
{
    LittleEndian::write_u32(&mut buf[at..at + 4], v);
}

/// `byteorder::LittleEndian::write_u64`, on the eight bytes of `buf`
/// from `at`: they become the little-endian bytes of `v`, the rest of
/// `buf` unchanged. (The call panics on a window shorter than eight
/// bytes; `requires` keeps the window inside `buf`.)
#[verifier::external_body]
pub fn le_write_u64(buf: &mut Vec<u8>, at: usize, v: u64)
    requires
        at + 8 <= old(buf)@.len(),
    ensures
        final(buf)@ == spec_splice(old(buf)@, at as int, spec_le64(v)),
{
    LittleEndian::write_u64(&mut buf[at..at + 8], v);
}

/// `n` zero bytes.
pub open spec fn spec_zero_bytes(n: nat) -> Seq<u8> {
    Seq::new(n, |i: int| 0u8)
}

/// A buffer of `n` zero bytes.
pub fn zero_bytes(n: usize) -> (v: Vec<u8>)
    ensures
        v@ == spec_zero_bytes(n as nat),
{
    let mut v: Vec<u8> = Vec::new();
    while v.len() < n
        invariant
            v@.len() <= n,
            v@ == spec_zero_bytes(v@.len()),
        decreases n - v@.len(),
    {
        v.push(0);
        proof {
            assert(v@ =~= spec_zero_bytes(v@.len()));
        }
    }
    v
}

} // verus!
