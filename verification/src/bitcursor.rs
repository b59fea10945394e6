//! Bit-level reader for the DWG bit-packed streams.
//!
//! Bits are read most-significant first within each byte. The
//! multi-byte raw types (`RS`, `RL`, `RD`) are little-endian sequences
//! of `RC` bytes read at the current bit position, which need not be
//! byte-aligned. The compressed codes (`BS`, `BL`, `BD`) open with a
//! two-bit selector. A handle (`H`) is a code nibble, a length nibble
//! and that many big-endian bytes.
//!
//! Every read is stated as a spec function from the byte buffer and
//! the bit position to the value read and the new position, or the
//! error; a failed read reports the bits it wanted and the bits left.
use vstd::prelude::*;

use crate::error::{Error, Result};

verus! {

/// A DWG object handle: code nibble, byte count, value.
#[derive(Debug, Clone, Copy, PartialEq, Eq, Structural)]
pub struct Handle {
    /// Reference kind (owner, soft pointer, hard owner, ...).
    pub code: u8,
    /// Number of value bytes that followed on the wire.
    pub counter: u8,
    /// The handle value.
    pub value: u64,
}

/// Bit `i` of the buffer, counting from the most significant bit of
/// the first byte.
pub open spec fn spec_bit(bytes: Seq<u8>, i: int) -> bool {
    (bytes[i / 8] >> ((7 - i % 8) as u8)) & 1u8 == 1u8
}

/// The `n` bits at `pos` read as a big-endian unsigned number.
pub open spec fn spec_bits(bytes: Seq<u8>, pos: int, n: nat) -> nat
    decreases n,
{
    if n == 0 {
        0
    } else {
        spec_bits(bytes, pos, (n - 1) as nat) * 2 + if spec_bit(bytes, pos + n - 1) {
            1nat
        } else {
            0nat
        }
    }
}

/// The error a read of `n` bits at `pos` reports when too few remain.
pub open spec fn spec_exhausted(bytes: Seq<u8>, pos: int, n: nat) -> Error {
    Error::BitsExhausted { wanted: n as usize, remaining: (bytes.len() * 8 - pos) as usize }
}

/// Read `n` raw bits.
pub open spec fn spec_read_bits(bytes: Seq<u8>, pos: int, n: nat) -> core::result::Result<(nat, int), Error> {
    if pos + n > bytes.len() * 8 {
        Err(spec_exhausted(bytes, pos, n))
    } else {
        Ok((spec_bits(bytes, pos, n), pos + n))
    }
}

/// `B`: one bit.
pub open spec fn spec_read_b(bytes: Seq<u8>, pos: int) -> core::result::Result<(bool, int), Error> {
    match spec_read_bits(bytes, pos, 1) {
        Ok((v, p)) => Ok((v == 1, p)),
        Err(e) => Err(e),
    }
}

/// `BB`: two bits.
pub open spec fn spec_read_bb(bytes: Seq<u8>, pos: int) -> core::result::Result<(u8, int), Error> {
    match spec_read_bits(bytes, pos, 2) {
        Ok((v, p)) => Ok((v as u8, p)),
        Err(e) => Err(e),
    }
}

/// `RC`: eight bits.
pub open spec fn spec_read_rc(bytes: Seq<u8>, pos: int) -> core::result::Result<(u8, int), Error> {
    match spec_read_bits(bytes, pos, 8) {
        Ok((v, p)) => Ok((v as u8, p)),
        Err(e) => Err(e),
    }
}

/// `RS`: two `RC`, little-endian.
pub open spec fn spec_read_rs(bytes: Seq<u8>, pos: int) -> core::result::Result<(u16, int), Error> {
    match spec_read_rc(bytes, pos) {
        Err(e) => Err(e),
        Ok((lo, p1)) => match spec_read_rc(bytes, p1) {
            Err(e) => Err(e),
            Ok((hi, p2)) => Ok(((lo + hi * 256) as u16, p2)),
        },
    }
}

/// `RL`: two `RS`, little-endian.
pub open spec fn spec_read_rl(bytes: Seq<u8>, pos: int) -> core::result::Result<(u32, int), Error> {
    match spec_read_rs(bytes, pos) {
        Err(e) => Err(e),
        Ok((lo, p1)) => match spec_read_rs(bytes, p1) {
            Err(e) => Err(e),
            Ok((hi, p2)) => Ok(((lo + hi * 65536) as u32, p2)),
        },
    }
}

/// `RD`: two `RL`, little-endian; the IEEE-754 bit pattern of a double.
pub open spec fn spec_read_rd(bytes: Seq<u8>, pos: int) -> core::result::Result<(u64, int), Error> {
    match spec_read_rl(bytes, pos) {
        Err(e) => Err(e),
        Ok((lo, p1)) => match spec_read_rl(bytes, p1) {
            Err(e) => Err(e),
            Ok((hi, p2)) => Ok(((lo + hi * 0x1_0000_0000) as u64, p2)),
        },
    }
}

/// `BS` as unsigned: `00` a raw short, `01` an unsigned byte, `10`
/// the value 0, `11` the value 256.
pub open spec fn spec_read_bs_u(bytes: Seq<u8>, pos: int) -> core::result::Result<(u16, int), Error> {
    match spec_read_bb(bytes, pos) {
        Err(e) => Err(e),
        Ok((code, p1)) => if code == 0 {
            spec_read_rs(bytes, p1)
        } else if code == 1 {
            match spec_read_rc(bytes, p1) {
                Err(e) => Err(e),
                Ok((v, p2)) => Ok((v as u16, p2)),
            }
        } else if code == 2 {
            Ok((0u16, p1))
        } else {
            Ok((256u16, p1))
        },
    }
}

/// `BS` as signed: the raw short reinterpreted as two's complement.
pub open spec fn spec_read_bs(bytes: Seq<u8>, pos: int) -> core::result::Result<(i16, int), Error> {
    match spec_read_bs_u(bytes, pos) {
        Err(e) => Err(e),
        Ok((v, p)) => Ok((v as i16, p)),
    }
}

/// `BL`: `00` a raw long, `01` an unsigned byte, `10` the value 0;
/// `11` is reserved.
pub open spec fn spec_read_bl(bytes: Seq<u8>, pos: int) -> core::result::Result<(i32, int), Error> {
    match spec_read_bb(bytes, pos) {
        Err(e) => Err(e),
        Ok((code, p1)) => if code == 0 {
            match spec_read_rl(bytes, p1) {
                Err(e) => Err(e),
                Ok((v, p2)) => Ok((v as i32, p2)),
            }
        } else if code == 1 {
            match spec_read_rc(bytes, p1) {
                Err(e) => Err(e),
                Ok((v, p2)) => Ok((v as i32, p2)),
            }
        } else if code == 2 {
            Ok((0i32, p1))
        } else {
            Err(Error::ReservedBitPattern { code_type: "BL", pattern: "11" })
        },
    }
}

/// `BL` as unsigned: the same codes, the raw long taken as unsigned.
pub open spec fn spec_read_bl_u(bytes: Seq<u8>, pos: int) -> core::result::Result<(u32, int), Error> {
    match spec_read_bl(bytes, pos) {
        Err(e) => Err(e),
        Ok((v, p)) => Ok((v as u32, p)),
    }
}

/// The bit pattern of the double `1.0`.
pub open spec fn spec_one_bits() -> u64 {
    0x3FF0_0000_0000_0000
}

/// `BD` as a bit pattern: `00` a raw double, `01` 1.0, `10` 0.0; `11`
/// is reserved.
pub open spec fn spec_read_bd(bytes: Seq<u8>, pos: int) -> core::result::Result<(u64, int), Error> {
    match spec_read_bb(bytes, pos) {
        Err(e) => Err(e),
        Ok((code, p1)) => if code == 0 {
            spec_read_rd(bytes, p1)
        } else if code == 1 {
            Ok((spec_one_bits(), p1))
        } else if code == 2 {
            Ok((0u64, p1))
        } else {
            Err(Error::ReservedBitPattern { code_type: "BD", pattern: "11" })
        },
    }
}

/// `DD`: a bit pattern given relative to a default `d`. `00` keeps
/// `d`; `01` replaces its low four bytes with an `RL`; `10` replaces
/// its bytes 4 and 5 with an `RS` and then its low four bytes with an
/// `RL`; `11` is a whole `RD`.
pub open spec fn spec_read_dd(bytes: Seq<u8>, pos: int, d: u64) -> core::result::Result<(u64, int), Error> {
    match spec_read_bb(bytes, pos) {
        Err(e) => Err(e),
        Ok((code, p1)) => if code == 0 {
            Ok((d, p1))
        } else if code == 1 {
            match spec_read_rl(bytes, p1) {
                Err(e) => Err(e),
                Ok((lo, p2)) => Ok(((d - d % 0x1_0000_0000 + lo) as u64, p2)),
            }
        } else if code == 2 {
            match spec_read_rs(bytes, p1) {
                Err(e) => Err(e),
                Ok((mid, p2)) => match spec_read_rl(bytes, p2) {
                    Err(e) => Err(e),
                    Ok((lo, p3)) => Ok(
                        ((d - d % 0x1_0000_0000_0000 + mid * 0x1_0000_0000 + lo) as u64, p3),
                    ),
                },
            }
        } else {
            spec_read_rd(bytes, p1)
        },
    }
}

/// `count` big-endian `RC` bytes folded into a `u64` (bits past the
/// 64th fall off the top).
pub open spec fn spec_read_be_bytes(bytes: Seq<u8>, pos: int, count: nat) -> core::result::Result<(u64, int), Error>
    decreases count,
{
    if count == 0 {
        Ok((0u64, pos))
    } else {
        match spec_read_be_bytes(bytes, pos, (count - 1) as nat) {
            Err(e) => Err(e),
            Ok((v, p)) => match spec_read_rc(bytes, p) {
                Err(e) => Err(e),
                Ok((b, p2)) => Ok((((v as nat * 256 + b) % 0x1_0000_0000_0000_0000) as u64, p2)),
            },
        }
    }
}

/// `H`: a byte holding the code (high nibble) and the byte count (low
/// nibble), then that many big-endian value bytes.
/// The groups of a signed modular char read as `RC`s from `pos`: seven
/// value bits per byte while `0x80` is set, least significant group
/// first; the last byte carries six value bits and `0x40` is the sign.
/// Stops after the group that reaches bit 63. Yields the magnitude, the
/// sign and the end position.
pub open spec fn spec_mc_groups(bytes: Seq<u8>, pos: int, value: u64, shift: u64) -> core::result::Result<(u64, bool, int), Error>
    decreases 64 - shift,
{
    match spec_read_rc(bytes, pos) {
        Err(e) => Err(e),
        Ok((byte, p1)) => {
            let b = byte as u64;
            let cont = b & 0x80 != 0;
            let data = if cont { b & 0x7F } else { b & 0x3F };
            let v = value | (data << shift);
            let s2 = shift + if cont { 7u64 } else { 6u64 };
            if !cont {
                Ok((v, b & 0x40 != 0, p1))
            } else if s2 >= 64 {
                Ok((v, false, p1))
            } else {
                spec_mc_groups(bytes, p1, v, s2 as u64)
            }
        },
    }
}

/// `MC`: a signed modular char at any bit position; a magnitude past
/// `i64` is refused.
pub open spec fn spec_read_mc(bytes: Seq<u8>, pos: int) -> core::result::Result<(i64, int), Error> {
    match spec_mc_groups(bytes, pos, 0, 0) {
        Err(e) => Err(e),
        Ok((v, neg, p)) => if v > i64::MAX {
            Err(Error::SectionMap(arbitrary()))
        } else if neg {
            Ok(((-(v as int)) as i64, p))
        } else {
            Ok((v as i64, p))
        },
    }
}

pub open spec fn spec_read_handle(bytes: Seq<u8>, pos: int) -> core::result::Result<(Handle, int), Error> {
    match spec_read_rc(bytes, pos) {
        Err(e) => Err(e),
        Ok((h, p1)) => match spec_read_be_bytes(bytes, p1, (h % 16) as nat) {
            Err(e) => Err(e),
            Ok((v, p2)) => Ok((Handle { code: h / 16, counter: h % 16, value: v }, p2)),
        },
    }
}

/// `2^n`, for the small widths read here.
pub open spec fn spec_pow2(n: nat) -> nat
    decreases n,
{
    if n == 0 {
        1
    } else {
        2 * spec_pow2((n - 1) as nat)
    }
}

pub proof fn lemma_bits_below_pow2(bytes: Seq<u8>, pos: int, n: nat)
    ensures
        spec_bits(bytes, pos, n) < spec_pow2(n),
    decreases n,
{
    if n > 0 {
        lemma_bits_below_pow2(bytes, pos, (n - 1) as nat);
    }
}

pub proof fn lemma_bits_bound(bytes: Seq<u8>, pos: int, n: nat)
    ensures
        n <= 8 ==> spec_bits(bytes, pos, n) < 256,
        n == 1 ==> spec_bits(bytes, pos, n) < 2,
        n == 2 ==> spec_bits(bytes, pos, n) < 4,
{
    lemma_bits_below_pow2(bytes, pos, n);
    reveal_with_fuel(spec_pow2, 9);
    if n < 8 {
        lemma_pow2_monotone(n, 8);
    }
}

proof fn lemma_pow2_monotone(a: nat, b: nat)
    requires
        a <= b,
    ensures
        spec_pow2(a) <= spec_pow2(b),
    decreases b - a,
{
    if a < b {
        lemma_pow2_monotone(a, (b - 1) as nat);
    }
}

/// Once one byte of a big-endian run fails, the whole longer run fails
/// with the same error.
pub proof fn lemma_be_bytes_error(bytes: Seq<u8>, pos: int, i: nat, k: nat)
    requires
        i < k,
        spec_read_be_bytes(bytes, pos, i) matches Ok((v, p)) && spec_read_rc(bytes, p) is Err,
    ensures
        spec_read_be_bytes(bytes, pos, k) == Err::<(u64, int), Error>(
            spec_read_rc(bytes, spec_read_be_bytes(bytes, pos, i)->Ok_0.1)->Err_0,
        ),
    decreases k,
{
    if k > i + 1 {
        lemma_be_bytes_error(bytes, pos, i, (k - 1) as nat);
    }
}

/// A byte-aligned `RC` is just the byte.
pub proof fn lemma_aligned_rc(bytes: Seq<u8>, pos: int)
    requires
        0 <= pos,
        pos % 8 == 0,
        pos + 8 <= bytes.len() * 8,
    ensures
        spec_bits(bytes, pos, 8) == bytes[pos / 8] as nat,
{
    let k = pos / 8;
    let x = bytes[k];
    vstd::arithmetic::div_mod::lemma_fundamental_div_mod_converse(pos + 0, 8, k, 0);
    vstd::arithmetic::div_mod::lemma_fundamental_div_mod_converse(pos + 1, 8, k, 1);
    vstd::arithmetic::div_mod::lemma_fundamental_div_mod_converse(pos + 2, 8, k, 2);
    vstd::arithmetic::div_mod::lemma_fundamental_div_mod_converse(pos + 3, 8, k, 3);
    vstd::arithmetic::div_mod::lemma_fundamental_div_mod_converse(pos + 4, 8, k, 4);
    vstd::arithmetic::div_mod::lemma_fundamental_div_mod_converse(pos + 5, 8, k, 5);
    vstd::arithmetic::div_mod::lemma_fundamental_div_mod_converse(pos + 6, 8, k, 6);
    vstd::arithmetic::div_mod::lemma_fundamental_div_mod_converse(pos + 7, 8, k, 7);
    reveal_with_fuel(spec_bits, 9);
    assert(x == ((x >> 7u8) & 1u8) * 128 + ((x >> 6u8) & 1u8) * 64 + ((x >> 5u8) & 1u8) * 32 + ((x
        >> 4u8) & 1u8) * 16 + ((x >> 3u8) & 1u8) * 8 + ((x >> 2u8) & 1u8) * 4 + ((x >> 1u8) & 1u8) * 2
        + ((x >> 0u8) & 1u8)) by (bit_vector);
    assert forall|j: u8| j < 8 implies ((x >> j) & 1u8 == 1u8 || (x >> j) & 1u8 == 0u8) by {
        assert(j < 8 ==> ((x >> j) & 1u8 == 1u8 || (x >> j) & 1u8 == 0u8)) by (bit_vector);
    }
    assert(spec_bit(bytes, pos + 0) == ((x >> 7u8) & 1u8 == 1u8));
    assert(spec_bit(bytes, pos + 1) == ((x >> 6u8) & 1u8 == 1u8));
    assert(spec_bit(bytes, pos + 2) == ((x >> 5u8) & 1u8 == 1u8));
    assert(spec_bit(bytes, pos + 3) == ((x >> 4u8) & 1u8 == 1u8));
    assert(spec_bit(bytes, pos + 4) == ((x >> 3u8) & 1u8 == 1u8));
    assert(spec_bit(bytes, pos + 5) == ((x >> 2u8) & 1u8 == 1u8));
    assert(spec_bit(bytes, pos + 6) == ((x >> 1u8) & 1u8 == 1u8));
    assert(spec_bit(bytes, pos + 7) == ((x >> 0u8) & 1u8 == 1u8));
}

/// A byte-aligned `RC` read, in `Result` form.
pub proof fn lemma_aligned_read_rc(bytes: Seq<u8>, pos: int)
    requires
        0 <= pos,
        pos % 8 == 0,
    ensures
        pos + 8 <= bytes.len() * 8 ==> spec_read_rc(bytes, pos) == Ok::<(u8, int), Error>(
            (bytes[pos / 8], pos + 8),
        ),
        pos + 8 > bytes.len() * 8 ==> spec_read_rc(bytes, pos) == Err::<(u8, int), Error>(
            spec_exhausted(bytes, pos, 8),
        ),
{
    if pos + 8 <= bytes.len() * 8 {
        lemma_aligned_rc(bytes, pos);
    }
}

/// Clearing the bits of `d` below `m` leaves a multiple of `m` no
/// larger than `2^64 - m`.
proof fn lemma_keep_high(d: u64, m: int)
    requires
        m == 0x1_0000_0000 || m == 0x1_0000_0000_0000,
    ensures
        0 <= (d as int) % m < m,
        d - (d as int) % m <= 0x1_0000_0000_0000_0000 - m,
{
    vstd::arithmetic::div_mod::lemma_fundamental_div_mod(d as int, m);
    let q = d as int / m;
    assert(q < 0x1_0000_0000_0000_0000int / m) by {
        if q >= 0x1_0000_0000_0000_0000int / m {
            assert(m * q >= 0x1_0000_0000_0000_0000);
        }
    }
}

/// Bit-level cursor over a byte buffer.
pub struct BitCursor<'a> {
    bytes: &'a [u8],
    pos: usize,
}

impl<'a> BitCursor<'a> {
    /// The buffer being read.
    pub closed spec fn data(&self) -> Seq<u8> {
        self.bytes@
    }

    /// The current bit position.
    pub closed spec fn pos(&self) -> int {
        self.pos as int
    }

    /// The position is within the buffer, whose bit count fits `usize`.
    pub closed spec fn wf(&self) -> bool {
        self.pos <= self.bytes@.len() * 8 && self.bytes@.len() * 8 <= usize::MAX
    }

    /// What well-formedness says of the position and the buffer.
    pub proof fn lemma_wf(&self)
        requires
            self.wf(),
        ensures
            0 <= self.pos() <= self.data().len() * 8,
            self.data().len() * 8 <= usize::MAX,
    {
    }

    /// A cursor at bit 0 of `bytes`.
    pub fn new(bytes: &'a [u8]) -> (c: Self)
        requires
            bytes@.len() * 8 <= usize::MAX,
        ensures
            c.wf(),
            c.data() == bytes@,
            c.pos() == 0,
    {
        BitCursor { bytes, pos: 0 }
    }

    /// The current bit position.
    pub fn position_bits(&self) -> (p: usize)
        ensures
            p == self.pos(),
    {
        self.pos
    }

    /// Bits left to read.
    pub fn remaining_bits(&self) -> (n: usize)
        requires
            self.wf(),
        ensures
            n == self.data().len() * 8 - self.pos(),
    {
        self.bytes.len() * 8 - self.pos
    }

    /// Read up to eight raw bits, big-endian.
    fn read_small(&mut self, n: usize) -> (r: Result<u8>)
        requires
            old(self).wf(),
            n <= 8,
        ensures
            final(self).wf(),
            final(self).data() == old(self).data(),
            match spec_read_bits(old(self).data(), old(self).pos(), n as nat) {
                Ok((v, p)) => r == Ok::<u8, Error>(v as u8) && final(self).pos() == p,
                Err(e) => r == Err::<u8, Error>(e),
            },
    {
        let total = self.bytes.len() * 8;
        if self.pos > total || total - self.pos < n {
            return Err(Error::BitsExhausted { wanted: n, remaining: total - self.pos });
        }
        let ghost p0 = self.pos();
        let mut v: u8 = 0;
        let mut i: usize = 0;
        while i < n
            invariant
                self.wf(),
                self.data() == old(self).data(),
                p0 == old(self).pos(),
                0 <= p0,
                p0 + n <= self.data().len() * 8,
                0 <= i <= n <= 8,
                self.pos() == p0 + i,
                v as nat == spec_bits(self.data(), p0, i as nat),
            decreases n - i,
        {
            proof {
                lemma_bits_bound(self.data(), p0, (i + 1) as nat);
                lemma_bits_bound(self.data(), p0, i as nat);
            }
            let byte = self.bytes[self.pos / 8];
            let sh = 7 - (self.pos % 8) as u8;
            let bit = (byte >> sh) & 1;
            assert(bit == 0 || bit == 1) by {
                assert(((byte >> sh) & 1u8) <= 1u8) by (bit_vector);
            }
            v = v * 2 + bit;
            self.pos += 1;
            i += 1;
        }
        Ok(v)
    }

    /// `B`
    pub fn read_b(&mut self) -> (r: Result<bool>)
        requires
            old(self).wf(),
        ensures
            final(self).wf(),
            final(self).data() == old(self).data(),
            match spec_read_b(old(self).data(), old(self).pos()) {
                Ok((v, p)) => r == Ok::<bool, Error>(v) && final(self).pos() == p,
                Err(e) => r == Err::<bool, Error>(e),
            },
    {
        proof {
            lemma_bits_bound(self.data(), self.pos(), 1);
        }
        let v = self.read_small(1)?;
        Ok(v == 1)
    }

    /// `BB`
    pub fn read_bb(&mut self) -> (r: Result<u8>)
        requires
            old(self).wf(),
        ensures
            final(self).wf(),
            final(self).data() == old(self).data(),
            match spec_read_bb(old(self).data(), old(self).pos()) {
                Ok((v, p)) => r == Ok::<u8, Error>(v) && final(self).pos() == p && v < 4,
                Err(e) => r == Err::<u8, Error>(e),
            },
    {
        proof {
            lemma_bits_bound(self.data(), self.pos(), 2);
        }
        self.read_small(2)
    }

    /// `RC`
    pub fn read_rc(&mut self) -> (r: Result<u8>)
        requires
            old(self).wf(),
        ensures
            final(self).wf(),
            final(self).data() == old(self).data(),
            match spec_read_rc(old(self).data(), old(self).pos()) {
                Ok((v, p)) => r == Ok::<u8, Error>(v) && final(self).pos() == p,
                Err(e) => r == Err::<u8, Error>(e),
            },
    {
        proof {
            lemma_bits_bound(self.data(), self.pos(), 8);
        }
        self.read_small(8)
    }

    /// `RS`
    pub fn read_rs(&mut self) -> (r: Result<u16>)
        requires
            old(self).wf(),
        ensures
            final(self).wf(),
            final(self).data() == old(self).data(),
            match spec_read_rs(old(self).data(), old(self).pos()) {
                Ok((v, p)) => r == Ok::<u16, Error>(v) && final(self).pos() == p,
                Err(e) => r == Err::<u16, Error>(e),
            },
    {
        let lo = self.read_rc()?;
        let hi = self.read_rc()?;
        Ok(lo as u16 + (hi as u16) * 256)
    }

    /// `RL`
    pub fn read_rl(&mut self) -> (r: Result<u32>)
        requires
            old(self).wf(),
        ensures
            final(self).wf(),
            final(self).data() == old(self).data(),
            match spec_read_rl(old(self).data(), old(self).pos()) {
                Ok((v, p)) => r == Ok::<u32, Error>(v) && final(self).pos() == p,
                Err(e) => r == Err::<u32, Error>(e),
            },
    {
        let lo = self.read_rs()?;
        let hi = self.read_rs()?;
        Ok(lo as u32 + (hi as u32) * 65536)
    }

    /// `RD`, as the bit pattern of the double.
    pub fn read_rd(&mut self) -> (r: Result<u64>)
        requires
            old(self).wf(),
        ensures
            final(self).wf(),
            final(self).data() == old(self).data(),
            match spec_read_rd(old(self).data(), old(self).pos()) {
                Ok((v, p)) => r == Ok::<u64, Error>(v) && final(self).pos() == p,
                Err(e) => r == Err::<u64, Error>(e),
            },
    {
        let lo = self.read_rl()?;
        let hi = self.read_rl()?;
        Ok(lo as u64 + (hi as u64) * 0x1_0000_0000)
    }

    /// `BS`, unsigned.
    pub fn read_bs_u(&mut self) -> (r: Result<u16>)
        requires
            old(self).wf(),
        ensures
            final(self).wf(),
            final(self).data() == old(self).data(),
            match spec_read_bs_u(old(self).data(), old(self).pos()) {
                Ok((v, p)) => r == Ok::<u16, Error>(v) && final(self).pos() == p,
                Err(e) => r == Err::<u16, Error>(e),
            },
    {
        let code = self.read_bb()?;
        if code == 0 {
            self.read_rs()
        } else if code == 1 {
            let v = self.read_rc()?;
            Ok(v as u16)
        } else if code == 2 {
            Ok(0)
        } else {
            Ok(256)
        }
    }

    /// `BS`, signed.
    pub fn read_bs(&mut self) -> (r: Result<i16>)
        requires
            old(self).wf(),
        ensures
            final(self).wf(),
            final(self).data() == old(self).data(),
            match spec_read_bs(old(self).data(), old(self).pos()) {
                Ok((v, p)) => r == Ok::<i16, Error>(v) && final(self).pos() == p,
                Err(e) => r == Err::<i16, Error>(e),
            },
    {
        let v = self.read_bs_u()?;
        Ok(v as i16)
    }

    /// `BL`
    pub fn read_bl(&mut self) -> (r: Result<i32>)
        requires
            old(self).wf(),
        ensures
            final(self).wf(),
            final(self).data() == old(self).data(),
            match spec_read_bl(old(self).data(), old(self).pos()) {
                Ok((v, p)) => r == Ok::<i32, Error>(v) && final(self).pos() == p,
                Err(e) => r == Err::<i32, Error>(e),
            },
    {
        let code = self.read_bb()?;
        if code == 0 {
            let v = self.read_rl()?;
            Ok(v as i32)
        } else if code == 1 {
            let v = self.read_rc()?;
            Ok(v as i32)
        } else if code == 2 {
            Ok(0)
        } else {
            Err(Error::ReservedBitPattern { code_type: "BL", pattern: "11" })
        }
    }

    /// `BD`, as the bit pattern of the double.
    pub fn read_bd(&mut self) -> (r: Result<u64>)
        requires
            old(self).wf(),
        ensures
            final(self).wf(),
            final(self).data() == old(self).data(),
            match spec_read_bd(old(self).data(), old(self).pos()) {
                Ok((v, p)) => r == Ok::<u64, Error>(v) && final(self).pos() == p,
                Err(e) => r == Err::<u64, Error>(e),
            },
    {
        let code = self.read_bb()?;
        if code == 0 {
            self.read_rd()
        } else if code == 1 {
            Ok(0x3FF0_0000_0000_0000)
        } else if code == 2 {
            Ok(0)
        } else {
            Err(Error::ReservedBitPattern { code_type: "BD", pattern: "11" })
        }
    }

    /// `H`
    pub fn read_handle(&mut self) -> (r: Result<Handle>)
        requires
            old(self).wf(),
        ensures
            final(self).wf(),
            final(self).data() == old(self).data(),
            match spec_read_handle(old(self).data(), old(self).pos()) {
                Ok((v, p)) => r == Ok::<Handle, Error>(v) && final(self).pos() == p,
                Err(e) => r == Err::<Handle, Error>(e),
            },
    {
        let h = self.read_rc()?;
        let counter = h & 0x0F;
        let code = h >> 4;
        proof {
            assert(h & 0x0F == h % 16 && h >> 4 == h / 16) by (bit_vector);
        }
        let ghost p1 = self.pos();
        let mut value: u64 = 0;
        let mut i: u8 = 0;
        while i < counter
            invariant
                self.wf(),
                self.data() == old(self).data(),
                0 <= i <= counter,
                counter == h % 16,
                code == h / 16,
                spec_read_rc(old(self).data(), old(self).pos()) == Ok::<(u8, int), Error>((h, p1)),
                spec_read_be_bytes(self.data(), p1, i as nat) == Ok::<(u64, int), Error>(
                    (value, self.pos()),
                ),
            decreases counter - i,
        {
            let ghost pc = self.pos();
            let rb = self.read_rc();
            proof {
                if rb is Err {
                    lemma_be_bytes_error(self.data(), p1, i as nat, counter as nat);
                }
            }
            let b = rb?;
            proof {
                let v = value;
                assert((v << 8u64) | (b as u64) == ((v as nat * 256 + b) % 0x1_0000_0000_0000_0000) as u64)
                    by (bit_vector);
            }
            value = (value << 8) | (b as u64);
            i += 1;
        }
        Ok(Handle { code, counter, value })
    }

    /// `DD` against the default bit pattern `d`.
    #[verifier::rlimit(30)]
    #[verifier::spinoff_prover]
    pub fn read_dd(&mut self, d: u64) -> (r: Result<u64>)
        requires
            old(self).wf(),
        ensures
            final(self).wf(),
            final(self).data() == old(self).data(),
            match spec_read_dd(old(self).data(), old(self).pos(), d) {
                Ok((v, p)) => r == Ok::<u64, Error>(v) && final(self).pos() == p,
                Err(e) => r == Err::<u64, Error>(e),
            },
    {
        let code = self.read_bb()?;
        if code == 0 {
            Ok(d)
        } else if code == 1 {
            let lo = self.read_rl()?;
            proof {
                lemma_keep_high(d, 0x1_0000_0000);
            }
            Ok(d - d % 0x1_0000_0000 + lo as u64)
        } else if code == 2 {
            let mid = self.read_rs()?;
            let lo = self.read_rl()?;
            proof {
                lemma_keep_high(d, 0x1_0000_0000_0000);
            }
            Ok(d - d % 0x1_0000_0000_0000 + (mid as u64) * 0x1_0000_0000 + lo as u64)
        } else {
            self.read_rd()
        }
    }

    /// `BL`, unsigned.
    pub fn read_bl_u(&mut self) -> (r: Result<u32>)
        requires
            old(self).wf(),
        ensures
            final(self).wf(),
            final(self).data() == old(self).data(),
            match spec_read_bl_u(old(self).data(), old(self).pos()) {
                Ok((v, p)) => r == Ok::<u32, Error>(v) && final(self).pos() == p,
                Err(e) => r == Err::<u32, Error>(e),
            },
    {
        let v = self.read_bl()?;
        Ok(v as u32)
    }

    /// `MC`: a signed modular char; the message of the error for a
    /// magnitude past `i64` is free text.
    pub fn read_mc(&mut self) -> (r: Result<i64>)
        requires
            old(self).wf(),
        ensures
            final(self).wf(),
            final(self).data() == old(self).data(),
            match spec_read_mc(old(self).data(), old(self).pos()) {
                Ok((v, p)) => r == Ok::<i64, Error>(v) && final(self).pos() == p,
                Err(Error::SectionMap(_)) => r matches Err(Error::SectionMap(_)),
                Err(e) => r == Err::<i64, Error>(e),
            },
    {
        let ghost p0 = self.pos();
        let mut value: u64 = 0;
        let mut shift: u64 = 0;
        let mut negate = false;
        loop
            invariant_except_break
                self.wf(),
                self.data() == old(self).data(),
                p0 == old(self).pos(),
                shift < 64,
                !negate,
                spec_mc_groups(self.data(), self.pos(), value, shift) == spec_mc_groups(self.data(), p0, 0, 0),
            ensures
                self.wf(),
                self.data() == old(self).data(),
                p0 == old(self).pos(),
                spec_mc_groups(self.data(), p0, 0, 0) == Ok::<(u64, bool, int), Error>((value, negate, self.pos())),
            decreases 64 - shift,
        {
            let b = self.read_rc()? as u64;
            let cont = (b & 0x80) != 0;
            let data = if cont { b & 0x7F } else { b & 0x3F };
            value = value | (data << shift);
            shift = shift + if cont { 7 } else { 6 };
            if !cont {
                negate = (b & 0x40) != 0;
                break;
            }
            if shift >= 64 {
                break;
            }
        }
        if value > i64::MAX as u64 {
            return Err(Error::SectionMap("MC value does not fit an i64".to_string()));
        }
        if negate {
            Ok(-(value as i64))
        } else {
            Ok(value as i64)
        }
    }
}

} // verus!
