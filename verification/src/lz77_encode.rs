//! DWG LZ77 encoder — the inverse of [`crate::lz77::decompress`].
//!
//! Correctness-first, literal-only: every input is emitted as one
//! initial literal run (possibly with an extended length) followed by
//! the terminator `0x11`. No back-references are generated, so the
//! output is about the size of the input plus a few framing bytes,
//! and it decompresses bit for bit through any conforming reader.
//!
//! | Stream bytes              | Literal length            |
//! |---------------------------|---------------------------|
//! | `0x11` (no length byte)   | 0                         |
//! | `0x01..=0x0F`             | byte + 3 = 4..=18         |
//! | `0x00, 0x01..=0xFF`       | 0x0F + byte + 3 = 19..=273 |
//! | `0x00, 0x00, 0x01..=0xFF` | 0x0F + 0xFF + byte + 3    |
//!
//! Lengths 1, 2 and 3 cannot be written as an initial literal and are
//! refused with [`Error::Lz77UnencodableLength`].
use vstd::prelude::*;

use crate::error::{Error, Result};
use crate::lz77::{
    DecompressLimits, spec_apply_op, spec_backref, spec_comp_bytes, spec_copy_literal, spec_decompress, spec_ext_run,
    spec_literal_count, spec_literal_length, spec_long_offset, spec_op_10, spec_op_12, spec_op_20, spec_opcode, spec_run,
    spec_sat, spec_step, spec_two_byte_offset,
};

verus! {

/// Terminator opcode.
const TERMINATOR: u8 = 0x11;

/// The extension bytes of a literal length `0x0F + rem + 3`: a `0x00`
/// for every full `0xFF`, then the non-zero remainder.
pub open spec fn spec_ext_bytes(rem: nat) -> Seq<u8>
    decreases rem,
{
    if rem > 0xFF {
        seq![0u8] + spec_ext_bytes((rem - 0xFF) as nat)
    } else {
        seq![rem as u8]
    }
}

/// The literal-only encoding of `input`.
pub open spec fn spec_compress(input: Seq<u8>) -> core::result::Result<Seq<u8>, Error> {
    let n = input.len();
    if n == 0 {
        Ok(seq![0x11u8])
    } else if n <= 3 {
        Err(Error::Lz77UnencodableLength(n as usize))
    } else if n <= 18 {
        Ok(seq![(n - 3) as u8] + input + seq![0x11u8])
    } else {
        Ok(seq![0u8] + spec_ext_bytes((n - 18) as nat) + input + seq![0x11u8])
    }
}

/// The extension bytes of a literal length are no more than the
/// length itself, plus one.
pub proof fn lemma_ext_bytes_len(rem: nat)
    ensures
        spec_ext_bytes(rem).len() <= rem + 1,
    decreases rem,
{
    if rem > 0xFF {
        lemma_ext_bytes_len((rem - 0xFF) as nat);
    }
}

/// The stream is at most twice the input, plus a few bytes.
pub proof fn lemma_compress_len(input: Seq<u8>)
    ensures
        spec_compress(input) matches Ok(c) ==> c.len() <= 2 * input.len() + 4,
{
    if input.len() > 18 {
        lemma_ext_bytes_len((input.len() - 18) as nat);
    }
}

/// Encode `input` into a DWG LZ77 byte stream.
///
/// Errors with [`Error::Lz77UnencodableLength`] exactly when
/// `input.len()` is 1, 2 or 3.
pub fn compress(input: &[u8]) -> (res: Result<Vec<u8>>)
    ensures
        match spec_compress(input@) {
            Ok(c) => res matches Ok(v) && v@ == c,
            Err(e) => res == Err::<Vec<u8>, Error>(e),
        },
{
    let n = input.len();
    let mut out: Vec<u8> = Vec::new();
    if n == 0 {
        out.push(TERMINATOR);
        proof {
            assert(out@ =~= seq![0x11u8]);
        }
        return Ok(out);
    }
    if 1 <= n && n <= 3 {
        return Err(Error::Lz77UnencodableLength(n));
    }
    if 4 <= n && n <= 18 {
        out.push((n - 3) as u8);
    } else {
        out.push(0x00);
        let mut remaining = (n - 3).saturating_sub(0x0F);
        let ghost rem0 = remaining as nat;
        while remaining > 0xFF
            invariant
                rem0 == (n - 18) as nat,
                1 <= remaining,
                seq![0u8] + spec_ext_bytes(rem0) == out@ + spec_ext_bytes(remaining as nat),
            decreases remaining,
        {
            proof {
                assert(spec_ext_bytes(remaining as nat) == seq![0u8] + spec_ext_bytes(
                    (remaining - 0xFF) as nat,
                ));
                assert(out@ + spec_ext_bytes(remaining as nat) =~= out@.push(0u8) + spec_ext_bytes(
                    (remaining - 0xFF) as nat,
                ));
            }
            out.push(0x00);
            remaining -= 0xFF;
        }
        proof {
            assert(spec_ext_bytes(remaining as nat) == seq![remaining as u8]);
        }
        out.push(remaining as u8);
        proof {
            assert(out@ =~= seq![0u8] + spec_ext_bytes(rem0));
        }
    }
    let ghost prefix = out@;
    let mut i: usize = 0;
    while i < n
        invariant
            0 <= i <= n,
            n == input@.len(),
            out@ == prefix + input@.subrange(0, i as int),
        decreases n - i,
    {
        out.push(input[i]);
        i += 1;
        proof {
            assert(out@ =~= prefix + input@.subrange(0, i as int));
        }
    }
    out.push(TERMINATOR);
    proof {
        assert(input@.subrange(0, n as int) =~= input@);
        assert(out@ =~= prefix + input@ + seq![0x11u8]);
    }
    Ok(out)
}

/// Encode, panicking on the unencodable lengths 1, 2 and 3; callers
/// must have ruled those out.
pub fn compress_infallible(input: &[u8]) -> (v: Vec<u8>)
    requires
        !(1 <= input@.len() <= 3),
    ensures
        spec_compress(input@) == Ok::<Seq<u8>, Error>(v@),
{
    match compress(input) {
        Ok(v) => v,
        Err(_) => {
            assert(false);
            Vec::new()
        },
    }
}

/// Reading the extension bytes of `rem` from `pos` yields
/// `total + rem` and stops just after them.
proof fn lemma_ext_bytes_decode(s: Seq<u8>, pos: int, total: nat, rem: nat)
    requires
        rem >= 1,
        total + rem <= usize::MAX,
        0 <= pos,
        pos + spec_ext_bytes(rem).len() <= s.len(),
        s.subrange(pos, pos + spec_ext_bytes(rem).len()) == spec_ext_bytes(rem),
    ensures
        spec_ext_run(s, pos, total) == Ok::<(nat, int), Error>((total + rem, pos + spec_ext_bytes(rem).len())),
    decreases rem,
{
    let e = spec_ext_bytes(rem);
    if rem > 0xFF {
        let rest = spec_ext_bytes((rem - 0xFF) as nat);
        assert(e == seq![0u8] + rest);
        assert(s[pos] == e[0]);
        assert(s.subrange(pos + 1, pos + 1 + rest.len()) =~= rest) by {
            assert forall|k: int| 0 <= k < rest.len() implies s.subrange(pos + 1, pos + 1 + rest.len())[k]
                == rest[k] by {
                assert(s.subrange(pos, pos + e.len())[k + 1] == e[k + 1]);
            }
        }
        lemma_ext_bytes_decode(s, pos + 1, total + 0xFF, (rem - 0xFF) as nat);
    } else {
        assert(s[pos] == e[0]);
    }
}

/// Compressing and then decompressing gives back the input, for every
/// input the encoder accepts (any length but 1, 2 and 3) whose length
/// is within the decoder's output limit and what a `Vec` can hold.
pub proof fn lemma_compress_roundtrip(input: Seq<u8>, limits: DecompressLimits)
    requires
        !(1 <= input.len() <= 3),
        input.len() <= limits.max_output_bytes,
        input.len() <= isize::MAX,
    ensures
        spec_compress(input) matches Ok(c) && spec_decompress(c, limits) == Ok::<Seq<u8>, Error>(input),
{
    let n = input.len();
    let c = spec_compress(input).unwrap();
    let t = seq![0x11u8];
    if n == 0 {
        assert(c[0] == 0x11u8);
        assert(spec_literal_length(c, 0) == Ok::<(Option<nat>, int), Error>((None, 0)));
        assert(spec_opcode(c, 0, 0) == Ok::<(Option<(nat, nat, nat)>, int), Error>((None, 1)));
        assert(spec_step(c, 0, Seq::empty(), limits) == Ok::<Option<(int, Seq<u8>)>, Error>(None));
        assert(input =~= Seq::<u8>::empty());
    } else {
        let p: int;
        if n <= 18 {
            assert(c =~= seq![(n - 3) as u8] + input + t);
            assert(c[0] == (n - 3) as u8);
            p = 1;
            assert(spec_literal_length(c, 0) == Ok::<(Option<nat>, int), Error>((Some(n), 1)));
        } else {
            let e = spec_ext_bytes((n - 18) as nat);
            assert(c =~= seq![0u8] + e + input + t);
            assert(c.subrange(1, 1 + e.len() as int) =~= e);
            lemma_ext_bytes_decode(c, 1, 0x0F, (n - 18) as nat);
            p = 1 + e.len() as int;
            assert(spec_literal_length(c, 0) == Ok::<(Option<nat>, int), Error>((Some(n), p)));
        }
        assert(c.subrange(p, p + n) =~= input);
        assert(spec_copy_literal(c, p, Seq::empty(), n, limits) == Ok::<(Seq<u8>, int), Error>(
            (input, p + n),
        )) by {
            assert(Seq::<u8>::empty() + input =~= input);
        }
        assert(c[p + n] == 0x11u8);
        assert(spec_opcode(c, p + n, n) == Ok::<(Option<(nat, nat, nat)>, int), Error>((None, p + n + 1)));
        assert(spec_step(c, p + n, input, limits) == Ok::<Option<(int, Seq<u8>)>, Error>(None));
        assert(spec_run(c, p + n, input, limits) == Ok::<Seq<u8>, Error>(input));
    }
}

/// The output window a back-reference copies: `n` bytes from `off`
/// bytes before the end of `out`, repeating when `n` exceeds `off`.
pub open spec fn spec_window(out: Seq<u8>, off: int, n: int) -> Seq<u8> {
    Seq::new(n as nat, |j: int| out[out.len() - off + j % off])
}

/// A literal-only stream of `x` (its terminator dropped) followed by
/// `tail` decodes `x` and then runs the opcode loop from the start of
/// `tail`.
proof fn lemma_literal_prefix(x: Seq<u8>, tail: Seq<u8>, limits: DecompressLimits) -> (q: int)
    requires
        4 <= x.len(),
        x.len() <= limits.spec_output_cap(),
    ensures
        spec_compress(x) is Ok,
        q == spec_compress(x).unwrap().drop_last().len(),
        spec_decompress(spec_compress(x).unwrap().drop_last() + tail, limits) == spec_run(
            spec_compress(x).unwrap().drop_last() + tail,
            q,
            x,
            limits,
        ),
{
    let n = x.len();
    let c = spec_compress(x).unwrap();
    let s = c.drop_last() + tail;
    let p: int;
    if n <= 18 {
        assert(c =~= seq![(n - 3) as u8] + x + seq![0x11u8]);
        assert(s =~= seq![(n - 3) as u8] + x + tail);
        p = 1;
        assert(spec_literal_length(s, 0) == Ok::<(Option<nat>, int), Error>((Some(n), 1)));
    } else {
        let e = spec_ext_bytes((n - 18) as nat);
        assert(c =~= seq![0u8] + e + x + seq![0x11u8]);
        assert(s =~= seq![0u8] + e + x + tail);
        assert(s.subrange(1, 1 + e.len() as int) =~= e);
        lemma_ext_bytes_decode(s, 1, 0x0F, (n - 18) as nat);
        p = 1 + e.len() as int;
        assert(spec_literal_length(s, 0) == Ok::<(Option<nat>, int), Error>((Some(n), p)));
    }
    assert(s.subrange(p, p + n) =~= x);
    assert(spec_copy_literal(s, p, Seq::empty(), n, limits) == Ok::<(Seq<u8>, int), Error>((x, p + n))) by {
        assert(Seq::<u8>::empty() + x =~= x);
    }
    p + n
}

/// The opcode loop at `q`, when the opcode there decodes to a copy of
/// `cb` bytes from `off` back with `y.len()` trailing literals, and
/// `y` and the terminator follow: the window, then `y`.
proof fn lemma_copy_then_end(
    s: Seq<u8>,
    q: int,
    q2: int,
    x: Seq<u8>,
    cb: nat,
    off: nat,
    y: Seq<u8>,
    limits: DecompressLimits,
)
    requires
        0 <= q < q2,
        y.len() < 4,
        spec_opcode(s, q, x.len()) == Ok::<(Option<(nat, nat, nat)>, int), Error>((Some((cb, off, y.len())), q2)),
        s.len() == q2 + y.len() + 1,
        s.subrange(q2, q2 + y.len()) == y,
        s[q2 + y.len()] == 0x11u8,
        0 < off <= x.len(),
        cb <= limits.max_backref_len,
        x.len() + cb + y.len() <= limits.spec_output_cap(),
    ensures
        spec_run(s, q, x, limits) == Ok::<Seq<u8>, Error>(x + spec_window(x, off as int, cb as int) + y),
{
    if y.len() == 0 {
        assert(spec_literal_length(s, q2) == Ok::<(Option<nat>, int), Error>((None, q2)));
    }
    assert(spec_literal_count(s, q2, y.len()) == Ok::<(nat, int), Error>((y.len(), q2)));
    let copy = spec_backref(x, off, cb);
    assert(copy =~= spec_window(x, off as int, cb as int));
    let out = x + copy;
    let q3 = q2 + y.len();
    assert(spec_copy_literal(s, q2, out, y.len(), limits) == Ok::<(Seq<u8>, int), Error>((out + y, q3)));
    assert(spec_apply_op(s, q2, x, cb, off, y.len(), limits) == Ok::<(int, Seq<u8>), Error>((q3, out + y)));
    assert(spec_step(s, q, x, limits) == Ok::<Option<(int, Seq<u8>)>, Error>(Some((q3, out + y))));
    assert(spec_opcode(s, q3, (out + y).len()) == Ok::<(Option<(nat, nat, nat)>, int), Error>((None, q3 + 1)));
    assert(spec_step(s, q3, out + y, limits) == Ok::<Option<(int, Seq<u8>)>, Error>(None));
    assert(spec_run(s, q3, out + y, limits) == Ok::<Seq<u8>, Error>(out + y));
}

/// Opcodes `0x40..=0xFF` with a second byte `op2`: a copy of
/// `op1 / 16 - 1` bytes from `4 * op2 + (op1 % 16) / 4 + 1` bytes back
/// (repeating the window when the copy is longer than the distance),
/// then the `op1 % 4` literal bytes `y` that follow.
pub proof fn lemma_short_backref(x: Seq<u8>, op1: u8, op2: u8, y: Seq<u8>, limits: DecompressLimits)
    requires
        0x40 <= op1,
        y.len() == op1 % 4,
        4 <= x.len(),
        4 * op2 + (op1 % 16) / 4 + 1 <= x.len(),
        op1 / 16 - 1 <= limits.max_backref_len,
        x.len() + (op1 / 16 - 1) + y.len() <= limits.max_output_bytes,
        x.len() + (op1 / 16 - 1) + y.len() <= isize::MAX,
    ensures
        spec_decompress(spec_compress(x).unwrap().drop_last() + seq![op1, op2] + y + seq![0x11u8], limits)
            == Ok::<Seq<u8>, Error>(
            x + spec_window(x, 4 * op2 + (op1 % 16) / 4 + 1, op1 / 16 - 1) + y,
        ),
{
    let tail = seq![op1, op2] + y + seq![0x11u8];
    let q = lemma_literal_prefix(x, tail, limits);
    let s = spec_compress(x).unwrap().drop_last() + tail;
    assert(s =~= spec_compress(x).unwrap().drop_last() + seq![op1, op2] + y + seq![0x11u8]);
    assert(s[q] == op1 && s[q + 1] == op2);
    assert(s.subrange(q + 2, q + 2 + y.len()) =~= y);
    assert(s[q + 2 + y.len()] == 0x11u8);
    let cb = (op1 / 16 - 1) as nat;
    let off = (4 * op2 + (op1 % 16) / 4 + 1) as nat;
    assert(spec_opcode(s, q, x.len()) == Ok::<(Option<(nat, nat, nat)>, int), Error>(
        (Some((cb, off, y.len())), q + 2),
    ));
    lemma_copy_then_end(s, q, q + 2, x, cb, off, y, limits);
}

/// Opcodes `0x21..=0x3F` with a non-zero count in their low five bits
/// and offset bytes `b0`, `b1`: a copy of `op1 % 32 + 2` bytes from
/// `b0 / 4 + 64 * b1 + 1` bytes back, then the `b0 % 4` literal bytes
/// `y` that follow.
pub proof fn lemma_medium_backref(x: Seq<u8>, op1: u8, b0: u8, b1: u8, y: Seq<u8>, limits: DecompressLimits)
    requires
        0x21 <= op1 <= 0x3F,
        op1 % 32 != 0,
        y.len() == b0 % 4,
        4 <= x.len(),
        b0 / 4 + 64 * b1 + 1 <= x.len(),
        op1 % 32 + 2 <= limits.max_backref_len,
        x.len() + (op1 % 32 + 2) + y.len() <= limits.max_output_bytes,
        x.len() + (op1 % 32 + 2) + y.len() <= isize::MAX,
    ensures
        spec_decompress(spec_compress(x).unwrap().drop_last() + seq![op1, b0, b1] + y + seq![0x11u8], limits)
            == Ok::<Seq<u8>, Error>(x + spec_window(x, b0 / 4 + 64 * b1 + 1, op1 % 32 + 2) + y),
{
    let tail = seq![op1, b0, b1] + y + seq![0x11u8];
    let q = lemma_literal_prefix(x, tail, limits);
    let s = spec_compress(x).unwrap().drop_last() + tail;
    assert(s =~= spec_compress(x).unwrap().drop_last() + seq![op1, b0, b1] + y + seq![0x11u8]);
    assert(s[q] == op1 && s[q + 1] == b0 && s[q + 2] == b1);
    assert(s.subrange(q + 3, q + 3 + y.len()) =~= y);
    assert(s[q + 3 + y.len()] == 0x11u8);
    let cb = (op1 % 32 + 2) as nat;
    let off = (b0 / 4 + 64 * b1 + 1) as nat;
    assert(spec_comp_bytes((op1 % 32) as nat, 0x1F, s, q + 1) == Ok::<(nat, int), Error>((cb, q + 1)));
    assert(spec_two_byte_offset(s, q + 1) == Ok::<(nat, nat, int), Error>(
        ((b0 / 4) as nat + (b1 as nat) * 64, (b0 % 4) as nat, q + 3),
    ));
    assert(spec_opcode(s, q, x.len()) == Ok::<(Option<(nat, nat, nat)>, int), Error>(
        (Some((cb, off, y.len())), q + 3),
    ));
    lemma_copy_then_end(s, q, q + 3, x, cb, off, y, limits);
}

/// Opcodes `0x10` and `0x20` with a non-zero length byte `lo` and
/// offset bytes `b0`, `b1`: `0x10` copies `lo + 9` bytes from
/// `b0 / 4 + 64 * b1 + 0x4000` back, `0x20` copies `lo + 0x21` bytes
/// from `b0 / 4 + 64 * b1 + 1` back; then the `b0 % 4` literal bytes
/// `y` that follow.
#[verifier::rlimit(40)]
pub proof fn lemma_long_length_backref(
    x: Seq<u8>,
    op1: u8,
    lo: u8,
    b0: u8,
    b1: u8,
    y: Seq<u8>,
    limits: DecompressLimits,
)
    requires
        op1 == 0x10 || op1 == 0x20,
        lo != 0,
        y.len() == b0 % 4,
        4 <= x.len(),
        b0 / 4 + 64 * b1 + (if op1 == 0x10 { 0x4000int } else { 1 }) <= x.len(),
        lo + (if op1 == 0x10 { 9int } else { 0x21 }) <= limits.max_backref_len,
        x.len() + lo + (if op1 == 0x10 { 9int } else { 0x21 }) + y.len() <= limits.max_output_bytes,
        x.len() + lo + (if op1 == 0x10 { 9int } else { 0x21 }) + y.len() <= isize::MAX,
    ensures
        spec_decompress(spec_compress(x).unwrap().drop_last() + seq![op1, lo, b0, b1] + y + seq![0x11u8], limits)
            == Ok::<Seq<u8>, Error>(
            x + spec_window(
                x,
                b0 / 4 + 64 * b1 + (if op1 == 0x10 { 0x4000int } else { 1 }),
                lo + (if op1 == 0x10 { 9int } else { 0x21 }),
            ) + y,
        ),
{
    let tail = seq![op1, lo, b0, b1] + y + seq![0x11u8];
    let q = lemma_literal_prefix(x, tail, limits);
    let s = spec_compress(x).unwrap().drop_last() + tail;
    assert(s =~= spec_compress(x).unwrap().drop_last() + seq![op1, lo, b0, b1] + y + seq![0x11u8]);
    assert(s[q] == op1 && s[q + 1] == lo && s[q + 2] == b0 && s[q + 3] == b1);
    assert(s.subrange(q + 4, q + 4 + y.len()) =~= y);
    assert(s[q + 4 + y.len()] == 0x11u8);
    let cb = (lo + (if op1 == 0x10 { 9int } else { 0x21 })) as nat;
    let off = (b0 / 4 + 64 * b1 + (if op1 == 0x10 { 0x4000int } else { 1 })) as nat;
    assert(spec_long_offset(s, q + 1) == Ok::<(nat, int), Error>((lo as nat, q + 2)));
    assert(spec_two_byte_offset(s, q + 2) == Ok::<(nat, nat, int), Error>(
        ((b0 / 4) as nat + (b1 as nat) * 64, (b0 % 4) as nat, q + 4),
    ));
    if op1 == 0x10 {
        assert(spec_sat((lo + 9) as nat) == lo + 9);
        assert(spec_op_10(s, q + 1) == Ok::<((nat, nat, nat), int), Error>(((cb, off, y.len()), q + 4)));
    } else {
        assert(spec_sat((lo + 0x21) as nat) == lo + 0x21);
        assert(spec_op_20(s, q + 1) == Ok::<((nat, nat, nat), int), Error>(((cb, off, y.len()), q + 4)));
    }
    assert(spec_opcode(s, q, x.len()) == Ok::<(Option<(nat, nat, nat)>, int), Error>(
        (Some((cb, off, y.len())), q + 4),
    ));
    lemma_copy_then_end(s, q, q + 4, x, cb, off, y, limits);
}

/// The opcode loop over `op1, b0, b1, 0x11` at `q`, after the output
/// `x`: one copy of `cb` bytes from `off` back, then the end.
proof fn lemma_far_copy_tail(s: Seq<u8>, q: int, x: Seq<u8>, op1: u8, b0: u8, b1: u8, off: int, limits: DecompressLimits)
    requires
        0 <= q,
        s.len() == q + 4,
        s[q] == op1,
        s[q + 1] == b0,
        s[q + 2] == b1,
        s[q + 3] == 0x11u8,
        0x12 <= op1 <= 0x1F,
        op1 % 8 != 0,
        b0 % 4 == 0,
        off == 0x4000 + b0 / 4 + 64 * b1 + (if (op1 / 8) % 2 == 1 { 0x4000int } else { 0 }),
        off <= x.len(),
        x.len() + op1 % 8 + 2 <= limits.spec_output_cap(),
        op1 % 8 + 2 <= limits.max_backref_len,
    ensures
        spec_run(s, q, x, limits) == Ok::<Seq<u8>, Error>(
            x + x.subrange(x.len() - off, x.len() - off + op1 % 8 + 2),
        ),
{
    let cb: nat = (op1 % 8 + 2) as nat;
    assert(spec_comp_bytes((op1 % 8) as nat, 7, s, q + 1) == Ok::<(nat, int), Error>((cb, q + 1)));
    assert(spec_two_byte_offset(s, q + 1) == Ok::<(nat, nat, int), Error>(
        ((b0 / 4) as nat + (b1 as nat) * 64, 0nat, q + 3),
    ));
    assert(((op1 / 8) % 2 == 1) == (op1 % 16 >= 8));
    assert(spec_op_12(op1, s, q + 1) == Ok::<((nat, nat, nat), int), Error>(((cb, off as nat, 0nat), q + 3)));
    assert(spec_opcode(s, q, x.len()) == Ok::<(Option<(nat, nat, nat)>, int), Error>(
        (Some((cb, off as nat, 0nat)), q + 3),
    ));
    assert(spec_literal_length(s, q + 3) == Ok::<(Option<nat>, int), Error>((None, q + 3)));
    assert(spec_literal_count(s, q + 3, 0) == Ok::<(nat, int), Error>((0nat, q + 3)));
    let copy = spec_backref(x, off as nat, cb);
    let start = x.len() - off;
    assert(copy =~= x.subrange(start, start + cb)) by {
        assert forall|j: int| 0 <= j < cb implies copy[j] == x.subrange(start, start + cb)[j] by {
            vstd::arithmetic::div_mod::lemma_small_mod(j as nat, off as nat);
        }
    }
    let out = x + copy;
    assert(spec_copy_literal(s, q + 3, out, 0, limits) == Ok::<(Seq<u8>, int), Error>((out, q + 3))) by {
        assert(out + s.subrange(q + 3, q + 3) =~= out);
    }
    assert(spec_apply_op(s, q + 3, x, cb, off as nat, 0, limits) == Ok::<(int, Seq<u8>), Error>((q + 3, out)));
    assert(spec_step(s, q, x, limits) == Ok::<Option<(int, Seq<u8>)>, Error>(Some((q + 3, out))));
    assert(spec_opcode(s, q + 3, out.len()) == Ok::<(Option<(nat, nat, nat)>, int), Error>((None, q + 4)));
    assert(spec_step(s, q + 3, out, limits) == Ok::<Option<(int, Seq<u8>)>, Error>(None));
    assert(spec_run(s, q + 3, out, limits) == Ok::<Seq<u8>, Error>(out));
}

/// Opcodes `0x12..=0x1F` copy from at least `0x4000` bytes back: after
/// any `N` literal bytes `x`, the opcode `op1` with the offset bytes
/// `b0`, `b1` (no trailing literals) and the terminator appends the
/// `op1 % 8 + 2` bytes of `x` that start `0x4000 + b0 / 4 + 64 * b1`
/// bytes before its end, `0x4000` further back when bit 3 of `op1` is
/// set.
pub proof fn lemma_long_backref_copies_from_far_back(x: Seq<u8>, op1: u8, b0: u8, b1: u8, limits: DecompressLimits)
    requires
        0x12 <= op1 <= 0x1F,
        op1 % 8 != 0,
        b0 % 4 == 0,
        0x4000 + b0 / 4 + 64 * b1 + (if (op1 / 8) % 2 == 1 { 0x4000int } else { 0 }) <= x.len(),
        x.len() + op1 % 8 + 2 <= limits.max_output_bytes,
        x.len() + op1 % 8 + 2 <= isize::MAX,
        op1 % 8 + 2 <= limits.max_backref_len,
    ensures
        ({
            let off = 0x4000 + b0 / 4 + 64 * b1 + (if (op1 / 8) % 2 == 1 { 0x4000int } else { 0 });
            let start = x.len() - off;
            spec_decompress(spec_compress(x).unwrap().drop_last() + seq![op1, b0, b1, 0x11u8], limits) == Ok::<
                Seq<u8>,
                Error,
            >(x + x.subrange(start, start + op1 % 8 + 2))
        }),
{
    let n = x.len();
    let off: int = 0x4000 + b0 / 4 + 64 * b1 + (if (op1 / 8) % 2 == 1 { 0x4000int } else { 0 });
    let c = spec_compress(x).unwrap();
    let e = spec_ext_bytes((n - 18) as nat);
    assert(c =~= seq![0u8] + e + x + seq![0x11u8]);
    let s = c.drop_last() + seq![op1, b0, b1, 0x11u8];
    assert(s =~= seq![0u8] + e + x + seq![op1, b0, b1, 0x11u8]);
    assert(s.subrange(1, 1 + e.len() as int) =~= e);
    lemma_ext_bytes_decode(s, 1, 0x0F, (n - 18) as nat);
    let p: int = 1 + e.len() as int;
    assert(spec_literal_length(s, 0) == Ok::<(Option<nat>, int), Error>((Some(n), p)));
    assert(s.subrange(p, p + n) =~= x);
    assert(spec_copy_literal(s, p, Seq::empty(), n, limits) == Ok::<(Seq<u8>, int), Error>((x, p + n))) by {
        assert(Seq::<u8>::empty() + x =~= x);
    }
    let q: int = p + n;
    lemma_far_copy_tail(s, q, x, op1, b0, b1, off, limits);
}

} // verus!
