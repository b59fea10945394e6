//! DWG LZ77 decompressor (R2004+ section pages).
//!
//! The dialect differs from zlib in three ways:
//!
//! 1. Opcode `0x11` terminates the stream.
//! 2. Literal lengths use a `0x00` run-length extension: each `0x00`
//!    byte adds `0xFF` to a running total, the first non-zero byte adds
//!    itself and ends the run.
//! 3. The offset encoding depends on the opcode class: `0x10` and
//!    `0x12..=0x1F` are long back-references (`+0x4000`), `0x20` and
//!    `0x21..=0x3F` short ones (`+1`), and `0x40..=0xFF` pack two
//!    offset bits and a 0..3 literal count into the opcode itself.
//!
//! A back-reference may be longer than its offset: the copy then
//! re-reads what it has just written and repeats the window tail.
//!
//! The format is stated below as a set of spec functions over the
//! input bytes; [`decompress_with_limits`] is proved to compute
//! exactly [`spec_decompress`].
use vstd::prelude::*;

use crate::error::{Error, Result};

verus! {

/// Safety limits for LZ77 decompression.
///
/// The compressed stream declares no output size, so the output is
/// capped explicitly (decompression-bomb defence), and so is the
/// length of any one back-reference copy.
#[derive(Debug, Clone, Copy, PartialEq, Eq)]
pub struct DecompressLimits {
    /// Hard ceiling on the length of the returned output.
    pub max_output_bytes: usize,
    /// Ceiling on any single back-reference copy length.
    pub max_backref_len: usize,
}

impl DecompressLimits {
    /// 256 MiB of output, 1 MiB per back-reference.
    pub open spec fn spec_default() -> DecompressLimits {
        DecompressLimits {
            max_output_bytes: (256 * 1024 * 1024) as usize,
            max_backref_len: (1024 * 1024) as usize,
        }
    }

    /// 4 GiB of output, 64 MiB per back-reference.
    pub open spec fn spec_permissive() -> DecompressLimits {
        DecompressLimits {
            max_output_bytes: (4 * 1024 * 1024 * 1024) as usize,
            max_backref_len: (64 * 1024 * 1024) as usize,
        }
    }

    /// Permissive profile, for fixtures larger than the default allows;
    /// its 4 GiB output cap needs a 64-bit `usize`.
    pub fn permissive() -> (r: DecompressLimits)
        requires
            usize::BITS == 64,
        ensures
            r == DecompressLimits::spec_permissive(),
    {
        DecompressLimits {
            max_output_bytes: 4 * 1024 * 1024 * 1024,
            max_backref_len: 64 * 1024 * 1024,
        }
    }

    /// The output length the decoder enforces: the configured ceiling,
    /// or `isize::MAX` (the most a `Vec` can hold) when that is lower.
    pub open spec fn spec_output_cap(self) -> int {
        if self.max_output_bytes > isize::MAX {
            isize::MAX as int
        } else {
            self.max_output_bytes as int
        }
    }

    fn output_cap(&self) -> (c: usize)
        ensures
            c == self.spec_output_cap(),
    {
        if self.max_output_bytes > isize::MAX as usize {
            isize::MAX as usize
        } else {
            self.max_output_bytes
        }
    }
}

impl Default for DecompressLimits {
    fn default() -> (r: DecompressLimits)
        ensures
            r == DecompressLimits::spec_default(),
    {
        DecompressLimits { max_output_bytes: 256 * 1024 * 1024, max_backref_len: 1024 * 1024 }
    }
}

// ----------------------------------------------------------------
// The format, as spec functions over the input bytes.
// ----------------------------------------------------------------

/// `x`, or `usize::MAX` when it is larger: a sum that saturates.
pub open spec fn spec_sat(x: nat) -> nat {
    if x > usize::MAX {
        usize::MAX as nat
    } else {
        x
    }
}

/// A run of `0x00` bytes ended by a non-zero byte, starting at `pos`:
/// each zero adds `0xFF` to `total`, the non-zero byte adds itself,
/// every sum saturating at `usize::MAX`. Yields the total and the
/// position after the run.
pub open spec fn spec_ext_run(input: Seq<u8>, pos: int, total: nat) -> core::result::Result<(nat, int), Error>
    decreases input.len() - pos,
{
    if pos < 0 || pos >= input.len() {
        Err(Error::Lz77Truncated)
    } else if input[pos] == 0 {
        spec_ext_run(input, pos + 1, spec_sat(total + 0xFF))
    } else {
        Ok((spec_sat((total + input[pos]) as nat), pos + 1))
    }
}

/// A literal length at `pos`: `0x01..=0x0F` is the byte plus 3; `0x00`
/// starts an extension run on top of `0x0F`, plus 3; a byte of
/// `0x10` or more is not a length but the next opcode, which is left
/// unread (`None`).
pub open spec fn spec_literal_length(input: Seq<u8>, pos: int) -> core::result::Result<(Option<nat>, int), Error> {
    if pos < 0 || pos >= input.len() {
        Err(Error::Lz77Truncated)
    } else if input[pos] == 0 {
        match spec_ext_run(input, pos + 1, 0x0F) {
            Ok((t, p)) => Ok((Some(spec_sat(t + 3)), p)),
            Err(e) => Err(e),
        }
    } else if input[pos] >= 0x10 {
        Ok((None, pos))
    } else {
        Ok((Some((input[pos] + 3) as nat), pos + 1))
    }
}

/// The long compression offset of opcodes `0x10` and `0x20`: a
/// non-zero byte as is, else an extension run on top of `0xFF`.
pub open spec fn spec_long_offset(input: Seq<u8>, pos: int) -> core::result::Result<(nat, int), Error> {
    if pos < 0 || pos >= input.len() {
        Err(Error::Lz77Truncated)
    } else if input[pos] != 0 {
        Ok((input[pos] as nat, pos + 1))
    } else {
        spec_ext_run(input, pos + 1, 0xFF)
    }
}

/// The copy length of opcodes `0x12..=0x1F` and `0x21..=0x3F`: the
/// opcode's own low bits when non-zero, else an extension run plus
/// `valid`; plus 2 in both cases.
pub open spec fn spec_comp_bytes(low: nat, valid: nat, input: Seq<u8>, pos: int) -> core::result::Result<(nat, int), Error> {
    if low != 0 {
        Ok((low + 2, pos))
    } else {
        match spec_ext_run(input, pos, 0) {
            Ok((t, p)) => Ok((spec_sat(spec_sat(t + valid) + 2), p)),
            Err(e) => Err(e),
        }
    }
}

/// The two-byte offset: `first / 4 + second * 64`, with `first % 4`
/// as the literal count.
pub open spec fn spec_two_byte_offset(input: Seq<u8>, pos: int) -> core::result::Result<(nat, nat, int), Error> {
    if pos < 0 || pos + 1 >= input.len() {
        Err(Error::Lz77Truncated)
    } else {
        let first = input[pos];
        let second = input[pos + 1];
        Ok(((first / 4) as nat + (second as nat) * 64, (first % 4) as nat, pos + 2))
    }
}

/// Opcode `0x10`: long compression offset plus 9 bytes (saturating),
/// offset plus `0x4000`.
pub open spec fn spec_op_10(input: Seq<u8>, p: int) -> core::result::Result<((nat, nat, nat), int), Error> {
    match spec_long_offset(input, p) {
        Err(e) => Err(e),
        Ok((lo, p2)) => match spec_two_byte_offset(input, p2) {
            Err(e) => Err(e),
            Ok((o, l, p3)) => Ok(((spec_sat(lo + 9), o + 0x4000, l), p3)),
        },
    }
}

/// Opcodes `0x12..=0x1F`: bit 3 of the opcode is bit 14 of the offset.
pub open spec fn spec_op_12(op1: u8, input: Seq<u8>, p: int) -> core::result::Result<((nat, nat, nat), int), Error> {
    match spec_comp_bytes((op1 % 8) as nat, 7, input, p) {
        Err(e) => Err(e),
        Ok((cb, p2)) => match spec_two_byte_offset(input, p2) {
            Err(e) => Err(e),
            Ok((o, l, p3)) => {
                let high: nat = if op1 % 16 >= 8 { 0x4000 } else { 0 };
                Ok(((cb, high + o + 0x4000, l), p3))
            },
        },
    }
}

/// Opcode `0x20`: long compression offset plus `0x21` bytes
/// (saturating), offset plus 1.
pub open spec fn spec_op_20(input: Seq<u8>, p: int) -> core::result::Result<((nat, nat, nat), int), Error> {
    match spec_long_offset(input, p) {
        Err(e) => Err(e),
        Ok((lo, p2)) => match spec_two_byte_offset(input, p2) {
            Err(e) => Err(e),
            Ok((o, l, p3)) => Ok(((spec_sat(lo + 0x21), o + 1, l), p3)),
        },
    }
}

/// Opcodes `0x21..=0x3F`: offset plus 1.
pub open spec fn spec_op_21(op1: u8, input: Seq<u8>, p: int) -> core::result::Result<((nat, nat, nat), int), Error> {
    match spec_comp_bytes((op1 % 32) as nat, 0x1F, input, p) {
        Err(e) => Err(e),
        Ok((cb, p2)) => match spec_two_byte_offset(input, p2) {
            Err(e) => Err(e),
            Ok((o, l, p3)) => Ok(((cb, o + 1, l), p3)),
        },
    }
}

/// Opcodes `0x40..=0xFF`: copy length from the high nibble, two
/// offset bits and the literal count in the low nibble, the rest of
/// the offset in the next byte.
pub open spec fn spec_op_40(op1: u8, input: Seq<u8>, p: int) -> core::result::Result<((nat, nat, nat), int), Error> {
    if p < 0 || p >= input.len() {
        Err(Error::Lz77Truncated)
    } else {
        let op2 = input[p];
        Ok((
            (
                (op1 / 16 - 1) as nat,
                (op2 as nat) * 4 + ((op1 % 16) / 4) as nat + 1,
                (op1 % 4) as nat,
            ),
            p + 1,
        ))
    }
}

/// One opcode at `pos`: `None` for the terminator, else
/// `(copy length, offset, literal count)` where a literal count of 0
/// means a literal length follows.
pub open spec fn spec_opcode(input: Seq<u8>, pos: int, out_len: nat) -> core::result::Result<(Option<(nat, nat, nat)>, int), Error> {
    if pos < 0 || pos >= input.len() {
        Err(Error::Lz77Truncated)
    } else {
        let op1 = input[pos];
        let p = pos + 1;
        let r = if op1 <= 0x0F {
            Err(Error::Lz77InvalidOpcode { opcode: op1, pos: pos as usize, out_len: out_len as usize })
        } else if op1 == 0x11 {
            Ok(((0, 0, 0), p))
        } else if op1 == 0x10 {
            spec_op_10(input, p)
        } else if op1 <= 0x1F {
            spec_op_12(op1, input, p)
        } else if op1 == 0x20 {
            spec_op_20(input, p)
        } else if op1 <= 0x3F {
            spec_op_21(op1, input, p)
        } else {
            spec_op_40(op1, input, p)
        };
        match r {
            Err(e) => Err(e),
            Ok((t, p2)) => if op1 == 0x11 {
                Ok((None, p2))
            } else {
                Ok((Some(t), p2))
            },
        }
    }
}

/// The self-overlapping copy of `n` bytes from `off` bytes back: the
/// window `out[len - off ..]` repeated.
pub open spec fn spec_backref(out: Seq<u8>, off: nat, n: nat) -> Seq<u8> {
    Seq::new(n, |j: int| out[out.len() - off + j % (off as int)])
}

/// Copy `n` literal bytes from `pos`, bounded by the output limit.
pub open spec fn spec_copy_literal(
    input: Seq<u8>,
    pos: int,
    out: Seq<u8>,
    n: nat,
    limits: DecompressLimits,
) -> core::result::Result<(Seq<u8>, int), Error> {
    if out.len() + n > limits.spec_output_cap() {
        Err(Error::Lz77OutputLimitExceeded { limit: limits.max_output_bytes })
    } else if pos < 0 || pos + n > input.len() {
        Err(Error::Lz77Truncated)
    } else {
        Ok((out + input.subrange(pos, pos + n), pos + n))
    }
}

/// The literal count after a copy: the opcode's own count, or, when
/// that is 0, a literal length read from the stream (0 if the next
/// byte is already an opcode).
pub open spec fn spec_literal_count(input: Seq<u8>, p: int, lit0: nat) -> core::result::Result<(nat, int), Error> {
    if lit0 == 0 {
        match spec_literal_length(input, p) {
            Err(e) => Err(e),
            Ok((l, p2)) => Ok((
                match l {
                    Some(n) => n,
                    None => 0nat,
                },
                p2,
            )),
        }
    } else {
        Ok((lit0, p))
    }
}

/// The copy and trailing literals of an opcode decoded as
/// `(cb, off, lit0)`, whose bytes end at `p1`.
pub open spec fn spec_apply_op(
    input: Seq<u8>,
    p1: int,
    out: Seq<u8>,
    cb: nat,
    off: nat,
    lit0: nat,
    limits: DecompressLimits,
) -> core::result::Result<(int, Seq<u8>), Error> {
    match spec_literal_count(input, p1, lit0) {
        Err(e) => Err(e),
        Ok((lit, p2)) => {
            if off == 0 {
                Err(Error::Lz77InvalidOffset)
            } else if cb > limits.max_backref_len {
                Err(Error::Lz77BackrefTooLong { length: cb as usize, limit: limits.max_backref_len })
            } else if out.len() + cb > limits.spec_output_cap() {
                Err(Error::Lz77OutputLimitExceeded { limit: limits.max_output_bytes })
            } else if off > out.len() {
                Err(Error::Lz77InvalidOffset)
            } else {
                match spec_copy_literal(input, p2, out + spec_backref(out, off, cb), lit, limits) {
                    Err(e) => Err(e),
                    Ok((out3, p3)) => Ok((p3, out3)),
                }
            }
        },
    }
}

/// One opcode with its copy and trailing literals.
/// `Ok(None)` is the terminator; `Ok(Some((pos, out)))` the state after.
pub open spec fn spec_step(input: Seq<u8>, pos: int, out: Seq<u8>, limits: DecompressLimits) -> core::result::Result<Option<(int, Seq<u8>)>, Error> {
    match spec_opcode(input, pos, out.len()) {
        Err(e) => Err(e),
        Ok((None, _)) => Ok(None),
        Ok((Some((cb, off, lit0)), p1)) => match spec_apply_op(input, p1, out, cb, off, lit0, limits) {
            Err(e) => Err(e),
            Ok(t) => Ok(Some(t)),
        },
    }
}

/// The opcode loop from `pos` with `out` decoded so far.
pub open spec fn spec_run(input: Seq<u8>, pos: int, out: Seq<u8>, limits: DecompressLimits) -> core::result::Result<Seq<u8>, Error>
    decreases input.len() - pos,
{
    if pos < 0 || pos >= input.len() {
        Err(Error::Lz77Truncated)
    } else {
        proof {
            lemma_step_advances(input, pos, out, limits);
        }
        match spec_step(input, pos, out, limits) {
            Err(e) => Err(e),
            Ok(None) => Ok(out),
            Ok(Some((p, o))) => spec_run(input, p, o, limits),
        }
    }
}

/// The whole stream: an initial literal run (possibly absent), then
/// the opcode loop up to the terminator.
pub open spec fn spec_decompress(input: Seq<u8>, limits: DecompressLimits) -> core::result::Result<Seq<u8>, Error> {
    match spec_literal_length(input, 0) {
        Err(e) => Err(e),
        Ok((None, p)) => spec_run(input, p, Seq::empty(), limits),
        Ok((Some(n), p)) => match spec_copy_literal(input, p, Seq::empty(), n, limits) {
            Err(e) => Err(e),
            Ok((out, p2)) => spec_run(input, p2, out, limits),
        },
    }
}

// ----------------------------------------------------------------
// Facts about the spec functions.
// ----------------------------------------------------------------

pub proof fn lemma_ext_run_advances(input: Seq<u8>, pos: int, total: nat)
    requires
        total <= usize::MAX,
    ensures
        spec_ext_run(input, pos, total) matches Ok((t, p)) ==> pos < p <= input.len() && total <= t
            <= usize::MAX,
    decreases input.len() - pos,
{
    if pos < 0 || pos >= input.len() {
    } else if input[pos] == 0 {
        lemma_ext_run_advances(input, pos + 1, spec_sat(total + 0xFF));
    } else {
    }
}

pub proof fn lemma_literal_length_advances(input: Seq<u8>, pos: int)
    ensures
        spec_literal_length(input, pos) matches Ok((l, p)) ==> pos <= p <= input.len() && (l is Some
            ==> pos < p) && (l matches Some(n) ==> n <= usize::MAX),
{
    if 0 <= pos < input.len() && input[pos] == 0 {
        lemma_ext_run_advances(input, pos + 1, 0x0F);
    }
}

pub proof fn lemma_long_offset_bound(input: Seq<u8>, p: int)
    ensures
        spec_long_offset(input, p) matches Ok((lo, p2)) ==> p < p2 <= input.len() && lo <= usize::MAX,
{
    lemma_ext_run_advances(input, p + 1, 0xFF);
}

pub proof fn lemma_comp_bytes_bound(low: nat, valid: nat, input: Seq<u8>, p: int)
    requires
        low <= valid <= 0x1F,
    ensures
        spec_comp_bytes(low, valid, input, p) matches Ok((cb, p2)) ==> p <= p2 && (p2 > p ==> p2 <= input.len())
            && cb <= usize::MAX,
{
    lemma_ext_run_advances(input, p, 0);
}

pub proof fn lemma_opcode_advances(input: Seq<u8>, pos: int, out_len: nat)
    requires
        0 <= pos < input.len(),
    ensures
        spec_opcode(input, pos, out_len) matches Ok((op, p)) ==> pos < p <= input.len() && (op matches Some(
            (cb, off, lit),
        ) ==> cb <= usize::MAX && 0 < off <= 0xC000 && lit < 4),
{
    let p = pos + 1;
    lemma_long_offset_bound(input, p);
    let op1 = input[pos];
    if 0x12 <= op1 <= 0x1F {
        lemma_comp_bytes_bound((op1 % 8) as nat, 7, input, p);
    }
    if 0x21 <= op1 <= 0x3F {
        lemma_comp_bytes_bound((op1 % 32) as nat, 0x1F, input, p);
    }
}

pub proof fn lemma_step_advances(input: Seq<u8>, pos: int, out: Seq<u8>, limits: DecompressLimits)
    requires
        0 <= pos < input.len(),
    ensures
        spec_step(input, pos, out, limits) matches Ok(Some((p, o))) ==> pos < p <= input.len()
            && o.len() <= limits.spec_output_cap(),
{
    lemma_opcode_advances(input, pos, out.len());
    if let Ok((Some((cb, off, lit0)), p1)) = spec_opcode(input, pos, out.len()) {
        lemma_literal_length_advances(input, p1);
    }
}

/// The limit an error carries: an output overrun names the output
/// ceiling, and an over-long back-reference names the back-reference
/// ceiling and a length above it.
pub open spec fn spec_error_fields_ok(e: Error, limits: DecompressLimits) -> bool {
    match e {
        Error::Lz77OutputLimitExceeded { limit } => limit == limits.max_output_bytes,
        Error::Lz77BackrefTooLong { length, limit } => limit == limits.max_backref_len && length > limit,
        _ => true,
    }
}

proof fn lemma_ext_run_error(input: Seq<u8>, pos: int, total: nat)
    ensures
        spec_ext_run(input, pos, total) is Err ==> spec_ext_run(input, pos, total) == Err::<(nat, int), Error>(
            Error::Lz77Truncated,
        ),
    decreases input.len() - pos,
{
    if 0 <= pos < input.len() && input[pos] == 0 {
        lemma_ext_run_error(input, pos + 1, spec_sat(total + 0xFF));
    }
}

/// An opcode, its lengths or a literal length that fails to read fails
/// with neither limit error.
proof fn lemma_read_errors_carry_no_limit(input: Seq<u8>, pos: int, out_len: nat, limits: DecompressLimits)
    ensures
        spec_opcode(input, pos, out_len) matches Err(e) ==> spec_error_fields_ok(e, limits),
        spec_literal_length(input, pos) matches Err(e) ==> spec_error_fields_ok(e, limits),
{
    lemma_ext_run_error(input, pos + 1, 0x0F);
    lemma_ext_run_error(input, pos + 2, 0xFF);
    lemma_ext_run_error(input, pos + 1, 0);
}

proof fn lemma_step_error_fields(input: Seq<u8>, pos: int, out: Seq<u8>, limits: DecompressLimits)
    requires
        0 <= pos < input.len(),
    ensures
        spec_step(input, pos, out, limits) matches Err(e) ==> spec_error_fields_ok(e, limits),
{
    lemma_read_errors_carry_no_limit(input, pos, out.len(), limits);
    lemma_opcode_advances(input, pos, out.len());
    if let Ok((Some((cb, off, lit0)), p1)) = spec_opcode(input, pos, out.len()) {
        lemma_read_errors_carry_no_limit(input, p1, out.len(), limits);
    }
}

proof fn lemma_run_error_fields(input: Seq<u8>, pos: int, out: Seq<u8>, limits: DecompressLimits)
    ensures
        spec_run(input, pos, out, limits) matches Err(e) ==> spec_error_fields_ok(e, limits),
    decreases input.len() - pos,
{
    if 0 <= pos < input.len() {
        lemma_step_advances(input, pos, out, limits);
        lemma_step_error_fields(input, pos, out, limits);
        if let Ok(Some((p, o))) = spec_step(input, pos, out, limits) {
            lemma_run_error_fields(input, p, o, limits);
        }
    }
}

/// A decompression that fails on a limit reports the limit it was
/// given: `Lz77OutputLimitExceeded` carries `limits.max_output_bytes`,
/// and `Lz77BackrefTooLong` carries `limits.max_backref_len` and a
/// length above it.
pub proof fn lemma_decompress_error_fields(input: Seq<u8>, limits: DecompressLimits)
    ensures
        spec_decompress(input, limits) matches Err(e) ==> spec_error_fields_ok(e, limits),
{
    lemma_read_errors_carry_no_limit(input, 0, 0, limits);
    if let Ok((l, p)) = spec_literal_length(input, 0) {
        lemma_literal_length_advances(input, 0);
        match l {
            None => lemma_run_error_fields(input, p, Seq::empty(), limits),
            Some(n) => if let Ok((o, p2)) = spec_copy_literal(input, p, Seq::empty(), n, limits) {
                lemma_run_error_fields(input, p2, o, limits);
            },
        }
    }
}

// ----------------------------------------------------------------
// Executable decoder.
// ----------------------------------------------------------------

/// Byte reader over the compressed input.
pub struct Lz77Reader<'a> {
    bytes: &'a [u8],
    pos: usize,
}

impl<'a> Lz77Reader<'a> {
    pub closed spec fn data(&self) -> Seq<u8> {
        self.bytes@
    }

    pub closed spec fn position(&self) -> int {
        self.pos as int
    }

    pub closed spec fn wf(&self) -> bool {
        self.pos <= self.bytes@.len()
    }

    fn new(bytes: &'a [u8]) -> (r: Self)
        ensures
            r.data() == bytes@,
            r.position() == 0,
            r.wf(),
    {
        Lz77Reader { bytes, pos: 0 }
    }

    fn read(&mut self) -> (r: Result<u8>)
        requires
            old(self).wf(),
        ensures
            final(self).wf(),
            final(self).data() == old(self).data(),
            0 <= old(self).position() <= old(self).data().len(),
            old(self).position() < old(self).data().len() ==> r == Ok::<u8, Error>(
                old(self).data()[old(self).position()],
            ) && final(self).position() == old(self).position() + 1,
            old(self).position() >= old(self).data().len() ==> r == Err::<u8, Error>(
                Error::Lz77Truncated,
            ),
    {
        if self.pos >= self.bytes.len() {
            return Err(Error::Lz77Truncated);
        }
        let b = self.bytes[self.pos];
        self.pos += 1;
        Ok(b)
    }

    fn rewind_one(&mut self)
        requires
            old(self).wf(),
            old(self).position() > 0,
        ensures
            final(self).wf(),
            final(self).data() == old(self).data(),
            final(self).position() == old(self).position() - 1,
    {
        self.pos -= 1;
    }
}

/// Read an extension run (see [`spec_ext_run`]) starting from `total`.
fn read_ext_run(r: &mut Lz77Reader<'_>, total_in: usize) -> (res: Result<usize>)
    requires
        old(r).wf(),
    ensures
        final(r).wf(),
        final(r).data() == old(r).data(),
        match spec_ext_run(old(r).data(), old(r).position(), total_in as nat) {
            Ok((t, p)) => res == Ok::<usize, Error>(t as usize) && final(r).position() == p,
            Err(e) => res == Err::<usize, Error>(e),
        },
{
    let ghost p0 = r.position();
    let ghost t0 = total_in as nat;
    let mut total = total_in;
    loop
        invariant
            r.wf(),
            r.data() == old(r).data(),
            0 <= p0 <= r.position() <= r.data().len(),
            p0 == old(r).position(),
            t0 == total_in as nat,
            spec_ext_run(r.data(), r.position(), total as nat) == spec_ext_run(r.data(), p0, t0),
        decreases r.data().len() - r.position(),
    {
        let b = r.read()?;
        if b == 0 {
            total = total.saturating_add(0xFF);
        } else {
            return Ok(total.saturating_add(b as usize));
        }
    }
}

/// Read a literal length, or leave an opcode byte unread (`None`).
fn read_literal_length_or_peek_opcode(r: &mut Lz77Reader<'_>) -> (res: Result<Option<usize>>)
    requires
        old(r).wf(),
    ensures
        final(r).wf(),
        final(r).data() == old(r).data(),
        match spec_literal_length(old(r).data(), old(r).position()) {
            Ok((l, p)) => final(r).position() == p && match l {
                Some(n) => res == Ok::<Option<usize>, Error>(Some(n as usize)),
                None => res == Ok::<Option<usize>, Error>(None),
            },
            Err(e) => res == Err::<Option<usize>, Error>(e),
        },
{
    let ghost p0 = r.position();
    let b = r.read()?;
    if b == 0x00 {
        let total = read_ext_run(r, 0x0F)?;
        proof {
            lemma_ext_run_advances(r.data(), p0 + 1, 0x0F);
        }
        return Ok(Some(total.saturating_add(3)));
    }
    assert(((b & 0xF0) != 0 ==> b >= 0x10) && ((b & 0xF0) == 0 ==> b < 0x10)) by (bit_vector);
    if (b & 0xF0) != 0 {
        r.rewind_one();
        return Ok(None);
    }
    Ok(Some((b as usize) + 3))
}

/// Read the copy length of opcodes `0x12..=0x1F` / `0x21..=0x3F`.
fn read_compressed_bytes_extended(op1: u8, valid_bits: u8, r: &mut Lz77Reader<'_>) -> (res: Result<usize>)
    requires
        old(r).wf(),
        valid_bits == 7 || valid_bits == 0x1F,
    ensures
        final(r).wf(),
        final(r).data() == old(r).data(),
        match spec_comp_bytes((op1 & valid_bits) as nat, valid_bits as nat, old(r).data(), old(r).position()) {
            Ok((cb, p)) => res == Ok::<usize, Error>(cb as usize) && final(r).position() == p,
            Err(e) => res == Err::<usize, Error>(e),
        },
{
    let ghost p0 = r.position();
    assert(op1 & valid_bits <= valid_bits) by (bit_vector);
    let low = op1 & valid_bits;
    if low != 0 {
        return Ok(low as usize + 2);
    }
    let t = read_ext_run(r, 0)?;
    proof {
        lemma_ext_run_advances(r.data(), p0, 0);
    }
    Ok(t.saturating_add(valid_bits as usize).saturating_add(2))
}

/// Read the two-byte offset: `(offset, literal count)`.
fn read_two_byte_offset(r: &mut Lz77Reader<'_>) -> (res: Result<(usize, u8)>)
    requires
        old(r).wf(),
    ensures
        final(r).wf(),
        final(r).data() == old(r).data(),
        match spec_two_byte_offset(old(r).data(), old(r).position()) {
            Ok((o, l, p)) => res == Ok::<(usize, u8), Error>((o as usize, l as u8)) && final(r).position()
                == p,
            Err(e) => res == Err::<(usize, u8), Error>(e),
        },
{
    let first = r.read()?;
    let second = r.read()?;
    let offset = ((first as usize) >> 2) | ((second as usize) << 6);
    let lit_count = first & 0x03;
    proof {
        let f = first as usize;
        let s = second as usize;
        assert((f < 256 && s < 256 ==> (f >> 2) | (s << 6) == f / 4 + s * 64) && first & 0x03 == first % 4)
            by (bit_vector);
    }
    Ok((offset, lit_count))
}

/// Read the long compression offset of opcodes `0x10` / `0x20`.
fn read_long_compression_offset(r: &mut Lz77Reader<'_>) -> (res: Result<usize>)
    requires
        old(r).wf(),
    ensures
        final(r).wf(),
        final(r).data() == old(r).data(),
        match spec_long_offset(old(r).data(), old(r).position()) {
            Ok((v, p)) => res == Ok::<usize, Error>(v as usize) && final(r).position() == p,
            Err(e) => res == Err::<usize, Error>(e),
        },
{
    let b = r.read()?;
    if b != 0x00 {
        return Ok(b as usize);
    }
    read_ext_run(r, 0xFF)
}

/// Copy `n` literal bytes from the input to `out`.
fn copy_literal(r: &mut Lz77Reader<'_>, out: &mut Vec<u8>, n: usize, limits: &DecompressLimits) -> (res: Result<()>)
    requires
        old(r).wf(),
        old(out)@.len() <= limits.spec_output_cap(),
    ensures
        final(r).wf(),
        final(r).data() == old(r).data(),
        match spec_copy_literal(old(r).data(), old(r).position(), old(out)@, n as nat, *limits) {
            Ok((o, p)) => res is Ok && final(out)@ == o && final(r).position() == p,
            Err(e) => res == Err::<(), Error>(e),
        },
{
    if out.len().saturating_add(n) > limits.output_cap() {
        return Err(Error::Lz77OutputLimitExceeded { limit: limits.max_output_bytes });
    }
    out.reserve(n);
    let ghost out0 = out@;
    let ghost p0 = r.position();
    let mut i: usize = 0;
    while i < n
        invariant
            r.wf(),
            r.data() == old(r).data(),
            p0 == old(r).position(),
            out0 == old(out)@,
            out0.len() + n <= limits.spec_output_cap(),
            0 <= i <= n,
            r.position() == p0 + i,
            0 <= p0,
            p0 + i <= r.data().len(),
            out@ == out0 + r.data().subrange(p0, p0 + i),
        decreases n - i,
    {
        let b = r.read()?;
        proof {
            assert(r.data().subrange(p0, p0 + i + 1) =~= r.data().subrange(p0, p0 + i).push(b));
        }
        out.push(b);
        i += 1;
    }
    Ok(())
}

/// Opcode `0x10`.
fn read_op_10(r: &mut Lz77Reader<'_>) -> (res: Result<(usize, usize, u8)>)
    requires
        old(r).wf(),
    ensures
        final(r).wf(),
        final(r).data() == old(r).data(),
        match spec_op_10(old(r).data(), old(r).position()) {
            Ok(((cb, off, lit), p)) => res == Ok::<(usize, usize, u8), Error>((cb as usize, off as usize, lit as u8))
                && final(r).position() == p,
            Err(e) => res == Err::<(usize, usize, u8), Error>(e),
        },
{
    let ghost p0 = r.position();
    proof {
        lemma_long_offset_bound(r.data(), p0);
    }
    let lo = read_long_compression_offset(r)?;
    let cb = lo.saturating_add(9);
    let (off, lit) = read_two_byte_offset(r)?;
    Ok((cb, off + 0x4000, lit))
}

/// Opcode `0x20`.
fn read_op_20(r: &mut Lz77Reader<'_>) -> (res: Result<(usize, usize, u8)>)
    requires
        old(r).wf(),
    ensures
        final(r).wf(),
        final(r).data() == old(r).data(),
        match spec_op_20(old(r).data(), old(r).position()) {
            Ok(((cb, off, lit), p)) => res == Ok::<(usize, usize, u8), Error>((cb as usize, off as usize, lit as u8))
                && final(r).position() == p,
            Err(e) => res == Err::<(usize, usize, u8), Error>(e),
        },
{
    let ghost p0 = r.position();
    proof {
        lemma_long_offset_bound(r.data(), p0);
    }
    let lo = read_long_compression_offset(r)?;
    let cb = lo.saturating_add(0x21);
    let (off, lit) = read_two_byte_offset(r)?;
    Ok((cb, off + 1, lit))
}

/// Opcodes `0x12..=0x1F`.
fn read_op_12(op1: u8, r: &mut Lz77Reader<'_>) -> (res: Result<(usize, usize, u8)>)
    requires
        old(r).wf(),
        0x12 <= op1 <= 0x1F,
    ensures
        final(r).wf(),
        final(r).data() == old(r).data(),
        match spec_op_12(op1, old(r).data(), old(r).position()) {
            Ok(((cb, off, lit), p)) => res == Ok::<(usize, usize, u8), Error>((cb as usize, off as usize, lit as u8))
                && final(r).position() == p,
            Err(e) => res == Err::<(usize, usize, u8), Error>(e),
        },
{
    assert(op1 & 0x07 == op1 % 8) by (bit_vector);
    let cb = read_compressed_bytes_extended(op1, 0x07, r)?;
    let mut off = ((op1 & 0x08) as usize) << 11;
    let (extra, lit) = read_two_byte_offset(r)?;
    proof {
        let o1 = op1;
        assert(((o1 & 0x08) as usize) << 11 == (if o1 % 16 >= 8 { 0x4000usize } else { 0usize }))
            by (bit_vector);
        let e = extra;
        let h = ((o1 & 0x08) as usize) << 11;
        assert(e < 0x4000 && (h == 0 || h == 0x4000) ==> h | e == h + e) by (bit_vector);
    }
    off |= extra;
    off += 0x4000;
    Ok((cb, off, lit))
}

/// Opcodes `0x21..=0x3F`.
fn read_op_21(op1: u8, r: &mut Lz77Reader<'_>) -> (res: Result<(usize, usize, u8)>)
    requires
        old(r).wf(),
        0x21 <= op1 <= 0x3F,
    ensures
        final(r).wf(),
        final(r).data() == old(r).data(),
        match spec_op_21(op1, old(r).data(), old(r).position()) {
            Ok(((cb, off, lit), p)) => res == Ok::<(usize, usize, u8), Error>((cb as usize, off as usize, lit as u8))
                && final(r).position() == p,
            Err(e) => res == Err::<(usize, usize, u8), Error>(e),
        },
{
    assert(op1 & 0x1F == op1 % 32) by (bit_vector);
    let cb = read_compressed_bytes_extended(op1, 0x1F, r)?;
    let (off, lit) = read_two_byte_offset(r)?;
    Ok((cb, off + 1, lit))
}

/// Opcodes `0x40..=0xFF`.
fn read_op_40(op1: u8, r: &mut Lz77Reader<'_>) -> (res: Result<(usize, usize, u8)>)
    requires
        old(r).wf(),
        0x40 <= op1,
    ensures
        final(r).wf(),
        final(r).data() == old(r).data(),
        match spec_op_40(op1, old(r).data(), old(r).position()) {
            Ok(((cb, off, lit), p)) => res == Ok::<(usize, usize, u8), Error>((cb as usize, off as usize, lit as u8))
                && final(r).position() == p,
            Err(e) => res == Err::<(usize, usize, u8), Error>(e),
        },
{
    assert(op1 >= 0x40 ==> (op1 & 0xF0) >> 4 == op1 / 16 && op1 / 16 >= 4) by (bit_vector);
    let cb = (((op1 & 0xF0) >> 4) - 1) as usize;
    let op2 = r.read()?;
    proof {
        let o2 = op2 as usize;
        let q = ((op1 & 0x0C) >> 2) as usize;
        assert((op1 & 0x0C) >> 2 == (op1 % 16) / 4 && (o2 < 256 && q < 4 ==> (o2 << 2) | q == o2 * 4 + q)
            && op1 & 0x03 == op1 % 4) by (bit_vector);
    }
    let off = (((op2 as usize) << 2) | (((op1 & 0x0C) >> 2) as usize)) + 1;
    let lit = op1 & 0x03;
    Ok((cb, off, lit))
}

/// One opcode: `None` for the terminator, else
/// `(copy length, offset, literal count)`.
fn read_opcode(r: &mut Lz77Reader<'_>, out_len: usize) -> (res: Result<Option<(usize, usize, u8)>>)
    requires
        old(r).wf(),
    ensures
        final(r).wf(),
        final(r).data() == old(r).data(),
        match spec_opcode(old(r).data(), old(r).position(), out_len as nat) {
            Ok((op, p)) => final(r).position() == p && match op {
                None => res == Ok::<Option<(usize, usize, u8)>, Error>(None),
                Some((cb, off, lit)) => res == Ok::<Option<(usize, usize, u8)>, Error>(
                    Some((cb as usize, off as usize, lit as u8)),
                ),
            },
            Err(e) => res == Err::<Option<(usize, usize, u8)>, Error>(e),
        },
{
    let op_pos = r.pos;
    let op1 = r.read()?;
    if op1 <= 0x0F {
        return Err(Error::Lz77InvalidOpcode { opcode: op1, pos: op_pos, out_len });
    }
    if op1 == 0x11 {
        return Ok(None);
    }
    let t = if op1 == 0x10 {
        read_op_10(r)?
    } else if op1 <= 0x1F {
        read_op_12(op1, r)?
    } else if op1 == 0x20 {
        read_op_20(r)?
    } else if op1 <= 0x3F {
        read_op_21(op1, r)?
    } else {
        read_op_40(op1, r)?
    };
    Ok(Some(t))
}

/// Append the self-overlapping back-reference copy of `n` bytes from
/// `off` bytes back.
fn copy_backref(out: &mut Vec<u8>, off: usize, n: usize)
    requires
        0 < off <= old(out)@.len(),
        old(out)@.len() + n <= usize::MAX,
    ensures
        final(out)@ == old(out)@ + spec_backref(old(out)@, off as nat, n as nat),
{
    let ghost out0 = out@;
    let start = out.len() - off;
    let mut i: usize = 0;
    while i < n
        invariant
            0 <= i <= n,
            off > 0,
            start + off == out0.len(),
            out0.len() + n <= usize::MAX,
            out@ == out0 + spec_backref(out0, off as nat, i as nat),
        decreases n - i,
    {
        proof {
            let k = start + i;
            if i < off {
                assert((i as int) % (off as int) == i as int) by {
                    vstd::arithmetic::div_mod::lemma_small_mod(i as nat, off as nat);
                }
            } else {
                let m = i as int - off as int;
                assert(out@[k as int] == spec_backref(out0, off as nat, i as nat)[m]);
                assert(((off as int) + m) % (off as int) == m % (off as int)) by {
                    vstd::arithmetic::div_mod::lemma_mod_add_multiples_vanish(m, off as int);
                }
            }
        }
        let b = out[start + i];
        out.push(b);
        i += 1;
        proof {
            assert(out@ =~= out0 + spec_backref(out0, off as nat, i as nat));
        }
    }
}

/// The copy and trailing literals of a decoded opcode.
fn apply_op(
    r: &mut Lz77Reader<'_>,
    out: &mut Vec<u8>,
    comp_bytes: usize,
    comp_offset: usize,
    lit_count_opt: u8,
    limits: &DecompressLimits,
) -> (res: Result<()>)
    requires
        old(r).wf(),
        old(out)@.len() <= limits.spec_output_cap(),
        lit_count_opt < 4,
    ensures
        final(r).wf(),
        final(r).data() == old(r).data(),
        match spec_apply_op(
            old(r).data(),
            old(r).position(),
            old(out)@,
            comp_bytes as nat,
            comp_offset as nat,
            lit_count_opt as nat,
            *limits,
        ) {
            Ok((p, o)) => res is Ok && final(out)@ == o && final(r).position() == p,
            Err(e) => res == Err::<(), Error>(e),
        },
{
    let ghost p1 = r.position();
    proof {
        lemma_literal_length_advances(r.data(), p1);
    }
    let lit_count: usize = if lit_count_opt == 0 {
        let l = read_literal_length_or_peek_opcode(r)?;
        match l {
            Some(n) => n,
            None => 0,
        }
    } else {
        lit_count_opt as usize
    };
    if comp_offset == 0 {
        return Err(Error::Lz77InvalidOffset);
    }
    if comp_bytes > limits.max_backref_len {
        return Err(Error::Lz77BackrefTooLong { length: comp_bytes, limit: limits.max_backref_len });
    }
    if out.len().saturating_add(comp_bytes) > limits.output_cap() {
        return Err(Error::Lz77OutputLimitExceeded { limit: limits.max_output_bytes });
    }
    match out.len().checked_sub(comp_offset) {
        Some(_) => {},
        None => return Err(Error::Lz77InvalidOffset),
    }
    copy_backref(out, comp_offset, comp_bytes);
    copy_literal(r, out, lit_count, limits)
}

/// One opcode with its copy and trailing literals; `Ok(true)` on the
/// terminator.
fn decompress_step(r: &mut Lz77Reader<'_>, out: &mut Vec<u8>, limits: &DecompressLimits) -> (res: Result<bool>)
    requires
        old(r).wf(),
        old(r).position() < old(r).data().len(),
        old(out)@.len() <= limits.spec_output_cap(),
    ensures
        final(r).wf(),
        final(r).data() == old(r).data(),
        match spec_step(old(r).data(), old(r).position(), old(out)@, *limits) {
            Ok(None) => res == Ok::<bool, Error>(true) && final(out)@ == old(out)@,
            Ok(Some((p, o))) => res == Ok::<bool, Error>(false) && final(out)@ == o && final(r).position() == p,
            Err(e) => res == Err::<bool, Error>(e),
        },
{
    let ghost pos0 = r.position();
    proof {
        lemma_opcode_advances(r.data(), pos0, out@.len());
    }
    let op = read_opcode(r, out.len())?;
    match op {
        None => Ok(true),
        Some((comp_bytes, comp_offset, lit_count_opt)) => {
            apply_op(r, out, comp_bytes, comp_offset, lit_count_opt, limits)?;
            Ok(false)
        },
    }
}

/// Decompress a DWG LZ77 stream using the default [`DecompressLimits`].
///
/// `expected_size` is only a capacity hint, clamped to the output limit.
pub fn decompress(input: &[u8], expected_size: Option<usize>) -> (res: Result<Vec<u8>>)
    ensures
        match res {
            Ok(v) => spec_decompress(input@, DecompressLimits::spec_default()) == Ok::<Seq<u8>, Error>(v@),
            Err(e) => spec_decompress(input@, DecompressLimits::spec_default()) == Err::<Seq<u8>, Error>(e),
        },
        res matches Ok(v) ==> v@.len() <= DecompressLimits::spec_default().max_output_bytes,
{
    decompress_with_limits(input, expected_size, DecompressLimits::default())
}

/// Decompress a DWG LZ77 stream with caller-supplied limits.
///
/// Errors: `Lz77Truncated` (input ends before the terminator),
/// `Lz77InvalidOffset` (back-reference before the output start),
/// `Lz77InvalidOpcode` (reserved opcode `0x00..=0x0F`),
/// `Lz77OutputLimitExceeded`, `Lz77BackrefTooLong`; each exactly as
/// [`spec_decompress`] states. The output never exceeds
/// `limits.max_output_bytes`, nor what a `Vec` can hold (`isize::MAX`):
/// past the smaller of the two the output limit error is reported,
/// naming the configured ceiling.
pub fn decompress_with_limits(input: &[u8], expected_size: Option<usize>, limits: DecompressLimits) -> (res: Result<Vec<u8>>)
    ensures
        match res {
            Ok(v) => spec_decompress(input@, limits) == Ok::<Seq<u8>, Error>(v@),
            Err(e) => spec_decompress(input@, limits) == Err::<Seq<u8>, Error>(e),
        },
        res matches Ok(v) ==> v@.len() <= limits.max_output_bytes,
        res matches Err(e) ==> spec_error_fields_ok(e, limits),
{
    proof {
        lemma_decompress_error_fields(input@, limits);
    }
    decompress_bounded(input, expected_size, limits)
}

/// The decoder proper.
fn decompress_bounded(input: &[u8], expected_size: Option<usize>, limits: DecompressLimits) -> (res: Result<Vec<u8>>)
    ensures
        match res {
            Ok(v) => spec_decompress(input@, limits) == Ok::<Seq<u8>, Error>(v@),
            Err(e) => spec_decompress(input@, limits) == Err::<Seq<u8>, Error>(e),
        },
        res matches Ok(v) ==> v@.len() <= limits.max_output_bytes,
{
    let mut r = Lz77Reader::new(input);
    let cap = match expected_size {
        Some(n) => n,
        None => 4096,
    };
    let output_cap = limits.output_cap();
    let cap = if cap < output_cap { cap } else { output_cap };
    let mut out: Vec<u8> = Vec::with_capacity(cap);
    proof {
        lemma_literal_length_advances(input@, 0);
    }
    let first = read_literal_length_or_peek_opcode(&mut r)?;
    match first {
        Some(n) => copy_literal(&mut r, &mut out, n, &limits)?,
        None => {},
    }
    loop
        invariant_except_break
            r.wf(),
            r.data() == input@,
            out@.len() <= limits.spec_output_cap(),
            spec_run(input@, r.position(), out@, limits) == spec_decompress(input@, limits),
        ensures
            spec_decompress(input@, limits) == Ok::<Seq<u8>, Error>(out@),
            out@.len() <= limits.max_output_bytes,
        decreases input@.len() - r.position(),
    {
        if r.pos >= r.bytes.len() {
            return Err(Error::Lz77Truncated);
        }
        proof {
            lemma_step_advances(input@, r.position(), out@, limits);
        }
        let done = decompress_step(&mut r, &mut out, &limits)?;
        if done {
            break;
        }
    }
    Ok(out)
}

} // verus!
