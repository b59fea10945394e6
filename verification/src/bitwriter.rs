//! Bit-level writer: the inverse of [`crate::bitcursor::BitCursor`].
//!
//! Bits go out most-significant first within each byte, and every
//! encoder appends exactly the bit string that the matching reader of
//! the cursor consumes. The string each encoder appends is a spec
//! function of the value; the read-back laws at the end of this file
//! state that the cursor reads each of them back as the value written.
use vstd::prelude::*;

use crate::bitcursor::{
    spec_bit, spec_bits, spec_one_bits, spec_pow2, spec_read_b, spec_read_bb, spec_read_bd,
    spec_read_be_bytes, spec_read_bits, spec_read_bl, spec_read_bs, spec_read_bs_u, spec_read_dd,
    spec_read_handle, spec_read_rc, spec_read_rd, spec_read_rl, spec_read_rs, Handle,
};
use crate::error::Error;

verus! {

/// The low `n` bits of `v`, most significant first.
pub open spec fn spec_nat_bits(v: nat, n: nat) -> Seq<bool>
    decreases n,
{
    if n == 0 {
        Seq::empty()
    } else {
        spec_nat_bits(v / 2, (n - 1) as nat).push(v % 2 == 1)
    }
}

/// `spec_nat_bits(v, n)` has `n` bits.
pub broadcast proof fn lemma_nat_bits_len(v: nat, n: nat)
    ensures
        #[trigger] spec_nat_bits(v, n).len() == n,
    decreases n,
{
    if n > 0 {
        lemma_nat_bits_len(v / 2, (n - 1) as nat);
    }
}

/// `spec_enc_be_bytes(v, k)` has `8 * k` bits.
pub broadcast proof fn lemma_be_bytes_len(v: nat, k: nat)
    ensures
        #[trigger] spec_enc_be_bytes(v, k).len() == 8 * k,
    decreases k,
{
    broadcast use lemma_nat_bits_len;
    if k > 0 {
        lemma_be_bytes_len(v / 256, (k - 1) as nat);
    }
}

/// `B`
pub open spec fn spec_enc_b(v: bool) -> Seq<bool> {
    seq![v]
}

/// `BB`: the low two bits.
pub open spec fn spec_enc_bb(v: u8) -> Seq<bool> {
    spec_nat_bits(v as nat, 2)
}

/// `RC`: eight bits.
pub open spec fn spec_enc_rc(v: u8) -> Seq<bool> {
    spec_nat_bits(v as nat, 8)
}

/// `RS`: the low byte, then the high byte.
pub open spec fn spec_enc_rs(v: u16) -> Seq<bool> {
    spec_enc_rc((v % 256) as u8) + spec_enc_rc((v / 256) as u8)
}

/// `RL`: the low `RS`, then the high `RS`.
pub open spec fn spec_enc_rl(v: u32) -> Seq<bool> {
    spec_enc_rs((v % 0x1_0000) as u16) + spec_enc_rs((v / 0x1_0000) as u16)
}

/// `RD`: the low `RL`, then the high `RL` of the bit pattern.
pub open spec fn spec_enc_rd(v: u64) -> Seq<bool> {
    spec_enc_rl((v % 0x1_0000_0000) as u32) + spec_enc_rl((v / 0x1_0000_0000) as u32)
}

/// `BS`, unsigned, in its shortest form: `10` for 0, `11` for 256,
/// `01` and a byte below 256, `00` and a raw short otherwise.
pub open spec fn spec_enc_bs_u(v: u16) -> Seq<bool> {
    if v == 0 {
        spec_enc_bb(2)
    } else if v == 256 {
        spec_enc_bb(3)
    } else if v < 256 {
        spec_enc_bb(1) + spec_enc_rc(v as u8)
    } else {
        spec_enc_bb(0) + spec_enc_rs(v)
    }
}

/// `BS`, signed: the unsigned form of its two's-complement pattern.
pub open spec fn spec_enc_bs(v: i16) -> Seq<bool> {
    spec_enc_bs_u(v as u16)
}

/// `BL`, unsigned: `10` for 0, `01` and a byte for 1..=255, `00` and a
/// raw long otherwise.
pub open spec fn spec_enc_bl_u(v: u32) -> Seq<bool> {
    if v == 0 {
        spec_enc_bb(2)
    } else if v < 256 {
        spec_enc_bb(1) + spec_enc_rc(v as u8)
    } else {
        spec_enc_bb(0) + spec_enc_rl(v)
    }
}

/// `BL`, signed: the unsigned form of its two's-complement pattern.
pub open spec fn spec_enc_bl(v: i32) -> Seq<bool> {
    spec_enc_bl_u(v as u32)
}

/// `BD` of a bit pattern: `10` for 0.0, `01` for 1.0, `00` and the raw
/// double otherwise.
pub open spec fn spec_enc_bd(v: u64) -> Seq<bool> {
    if v == 0 {
        spec_enc_bb(2)
    } else if v == spec_one_bits() {
        spec_enc_bb(1)
    } else {
        spec_enc_bb(0) + spec_enc_rd(v)
    }
}

/// `DD` of the bit pattern `v` against the default `d`, in its
/// shortest form: `00` when they are equal, `01` and the low `RL` when
/// only the low four bytes differ, `10`, bytes 4 and 5 as an `RS` and
/// the low `RL` when only the low six differ, `11` and the whole `RD`
/// otherwise.
pub open spec fn spec_enc_dd(v: u64, d: u64) -> Seq<bool> {
    if v == d {
        spec_enc_bb(0)
    } else if v / 0x1_0000_0000 == d / 0x1_0000_0000 {
        spec_enc_bb(1) + spec_enc_rl((v % 0x1_0000_0000) as u32)
    } else if v / 0x1_0000_0000_0000 == d / 0x1_0000_0000_0000 {
        spec_enc_bb(2) + spec_enc_rs(((v / 0x1_0000_0000) % 0x1_0000) as u16) + spec_enc_rl(
            (v % 0x1_0000_0000) as u32,
        )
    } else {
        spec_enc_bb(3) + spec_enc_rd(v)
    }
}

/// `256^k`.
pub open spec fn spec_pow256(k: nat) -> nat
    decreases k,
{
    if k == 0 {
        1
    } else {
        256 * spec_pow256((k - 1) as nat)
    }
}

/// The number of bytes needed to hold `v` (none for zero).
pub open spec fn spec_byte_len(v: nat) -> nat
    decreases v,
{
    if v == 0 {
        0
    } else {
        1 + spec_byte_len(v / 256)
    }
}

/// The low `k` bytes of `v` as `RC`s, most significant first.
pub open spec fn spec_enc_be_bytes(v: nat, k: nat) -> Seq<bool>
    decreases k,
{
    if k == 0 {
        Seq::empty()
    } else {
        spec_enc_be_bytes(v / 256, (k - 1) as nat) + spec_enc_rc((v % 256) as u8)
    }
}

/// `H`: the code in the high nibble and the byte count in the low
/// nibble of one `RC`, then the value's significant bytes, most
/// significant first.
pub open spec fn spec_enc_handle(code: u8, value: u64) -> Seq<bool> {
    spec_enc_rc(((code % 16) * 16 + spec_byte_len(value as nat)) as u8) + spec_enc_be_bytes(
        value as nat,
        spec_byte_len(value as nat),
    )
}

/// The bits of `s` stand in `bytes` from bit `pos` on.
pub open spec fn spec_holds_at(bytes: Seq<u8>, pos: int, s: Seq<bool>) -> bool {
    &&& 0 <= pos
    &&& pos + s.len() <= bytes.len() * 8
    &&& forall|i: int| 0 <= i < s.len() ==> #[trigger] spec_bit(bytes, pos + i) == s[i]
}

/// Accumulates bits most-significant first and packs them into bytes.
#[derive(Debug)]
pub struct BitWriter {
    /// Whole and partial bytes written so far; unwritten bits are zero.
    bytes: Vec<u8>,
    /// Number of bits written.
    nbits: usize,
}

/// Bit `j` (from the top) of the byte `x`.
spec fn byte_bit(x: u8, j: u8) -> bool {
    (x >> ((7 - j) as u8)) & 1u8 == 1u8
}

proof fn lemma_byte_bit_or(x: u8, k: u8, j: u8)
    requires
        k < 8,
        j < 8,
    ensures
        byte_bit(x | (0x80u8 >> k), j) == (j == k || byte_bit(x, j)),
{
    assert(((x | (0x80u8 >> k)) >> ((7 - j) as u8)) & 1u8 == 1u8 <==> (j == k || (x >> ((7 - j) as u8)) & 1u8
        == 1u8)) by (bit_vector)
        requires
            k < 8,
            j < 8,
    ;
}

proof fn lemma_byte_bit_top(b: bool, j: u8)
    requires
        j < 8,
    ensures
        byte_bit(if b { 0x80u8 } else { 0u8 }, j) == (b && j == 0),
{
    assert(((0x80u8 >> ((7 - j) as u8)) & 1u8 == 1u8) == (j == 0) && ((0u8 >> ((7 - j) as u8)) & 1u8
        == 1u8) == false) by (bit_vector)
        requires
            j < 8,
    ;
}

/// `spec_bit` at `i` is bit `i % 8` of byte `i / 8`.
proof fn lemma_spec_bit_split(bytes: Seq<u8>, i: int)
    requires
        0 <= i,
    ensures
        0 <= i % 8 < 8,
        spec_bit(bytes, i) == byte_bit(bytes[i / 8], (i % 8) as u8),
{
    let j = (i % 8) as u8;
    assert((7 - i % 8) as u8 == 7u8 - j);
}

proof fn lemma_div8(i: int, q: int)
    requires
        8 * q <= i < 8 * q + 8,
    ensures
        i / 8 == q,
        i % 8 == i - 8 * q,
{
    vstd::arithmetic::div_mod::lemma_fundamental_div_mod_converse(i, 8, q, i - 8 * q);
}

proof fn lemma_div8_below(i: int, q: int)
    requires
        0 <= i < 8 * q,
    ensures
        i / 8 < q,
{
    vstd::arithmetic::div_mod::lemma_fundamental_div_mod(i, 8);
}

impl BitWriter {
    /// The bits written so far, in order.
    pub closed spec fn bits(&self) -> Seq<bool> {
        Seq::new(self.nbits as nat, |i: int| spec_bit(self.bytes@, i))
    }

    /// Number of bits written.
    pub closed spec fn bit_len(&self) -> nat {
        self.nbits as nat
    }

    /// The byte buffer holds exactly the written bits, zero-padded to a
    /// whole byte.
    pub closed spec fn wf(&self) -> bool {
        &&& self.nbits <= self.bytes@.len() * 8
        &&& self.bytes@.len() * 8 < self.nbits + 8
        &&& forall|i: int|
            self.nbits <= i < self.bytes@.len() * 8 ==> !#[trigger] spec_bit(self.bytes@, i)
    }

    /// The length of the bit string is the bit count.
    pub proof fn lemma_bit_len(&self)
        ensures
            self.bits().len() == self.bit_len(),
    {
    }

    /// An empty writer.
    pub fn new() -> (w: Self)
        ensures
            w.wf(),
            w.bits() == Seq::<bool>::empty(),
    {
        let w = BitWriter { bytes: Vec::new(), nbits: 0 };
        assert(w.bits() =~= Seq::<bool>::empty());
        w
    }

    /// Number of bits written.
    pub fn position_bits(&self) -> (n: usize)
        ensures
            n == self.bits().len(),
    {
        self.nbits
    }

    /// Append one bit.
    fn push_bit(&mut self, b: bool)
        requires
            old(self).wf(),
            old(self).bits().len() < usize::MAX,
        ensures
            final(self).wf(),
            final(self).bits() == old(self).bits().push(b),
    {
        let ghost old_bytes = self.bytes@;
        let n = self.nbits;
        let k = (n % 8) as u8;
        let ghost q = n as int / 8;
        proof {
            vstd::arithmetic::div_mod::lemma_fundamental_div_mod(n as int, 8);
        }
        if k == 0 {
            let byte: u8 = if b { 0x80 } else { 0 };
            self.bytes.push(byte);
            self.nbits = n + 1;
            proof {
                assert(old_bytes.len() == q);
                assert forall|i: int| 0 <= i < 8 * q + 8 implies #[trigger] spec_bit(self.bytes@, i)
                    == if i < n { spec_bit(old_bytes, i) } else { b && i == n } by {
                    lemma_spec_bit_split(self.bytes@, i);
                    if i < n {
                        lemma_div8_below(i, q);
                        lemma_spec_bit_split(old_bytes, i);
                    } else {
                        lemma_div8(i, q);
                        lemma_byte_bit_top(b, (i % 8) as u8);
                    }
                }
                assert(self.bits() =~= old(self).bits().push(b));
            }
        } else {
            let last = self.bytes.len() - 1;
            proof {
                assert(old_bytes.len() == q + 1);
                assert(last == q);
            }
            if b {
                let x = self.bytes[last];
                self.bytes.set(last, x | (0x80u8 >> k));
            }
            self.nbits = n + 1;
            proof {
                assert forall|i: int| 0 <= i < 8 * q + 8 implies #[trigger] spec_bit(self.bytes@, i)
                    == if i < n { spec_bit(old_bytes, i) } else { b && i == n } by {
                    lemma_spec_bit_split(self.bytes@, i);
                    lemma_spec_bit_split(old_bytes, i);
                    if i < 8 * q {
                        lemma_div8_below(i, 8 * q);
                        lemma_div8_below(i, q);
                    } else {
                        lemma_div8(i, q);
                        if b {
                            lemma_byte_bit_or(old_bytes[q], k, (i % 8) as u8);
                        }
                        if i > n {
                            assert(!spec_bit(old_bytes, i));
                        }
                    }
                }
                assert(self.bits() =~= old(self).bits().push(b));
            }
        }
    }

    /// Append the low `n` bits of `v`, most significant first.
    fn push_bits(&mut self, v: u64, n: usize)
        requires
            old(self).wf(),
            old(self).bits().len() + n <= usize::MAX,
        ensures
            final(self).wf(),
            final(self).bits() == old(self).bits() + spec_nat_bits(v as nat, n as nat),
        decreases n,
    {
        broadcast use lemma_nat_bits_len, lemma_be_bytes_len;

        if n == 0 {
            assert(old(self).bits() + spec_nat_bits(v as nat, 0) =~= old(self).bits());
        } else {
            self.push_bits(v / 2, n - 1);
            self.push_bit(v % 2 == 1);
            assert(old(self).bits() + spec_nat_bits(v as nat, n as nat) =~= old(self).bits()
                + spec_nat_bits((v / 2) as nat, (n - 1) as nat) + seq![v % 2 == 1]);
            assert(self.bits() =~= old(self).bits() + spec_nat_bits(v as nat, n as nat));
        }
    }

    /// `B`
    pub fn write_b(&mut self, v: bool)
        requires
            old(self).wf(),
            old(self).bits().len() + 1 <= usize::MAX,
        ensures
            final(self).wf(),
            final(self).bits() == old(self).bits() + spec_enc_b(v),
    {
        broadcast use lemma_nat_bits_len, lemma_be_bytes_len;

        self.push_bit(v);
        assert(old(self).bits().push(v) =~= old(self).bits() + spec_enc_b(v));
    }

    /// `BB`: the low two bits of `v`.
    pub fn write_bb(&mut self, v: u8)
        requires
            old(self).wf(),
            old(self).bits().len() + 2 <= usize::MAX,
        ensures
            final(self).wf(),
            final(self).bits() == old(self).bits() + spec_enc_bb(v),
    {
        broadcast use lemma_nat_bits_len, lemma_be_bytes_len;

        self.push_bits(v as u64, 2);
    }

    /// `RC`
    pub fn write_rc(&mut self, v: u8)
        requires
            old(self).wf(),
            old(self).bits().len() + 8 <= usize::MAX,
        ensures
            final(self).wf(),
            final(self).bits() == old(self).bits() + spec_enc_rc(v),
    {
        broadcast use lemma_nat_bits_len, lemma_be_bytes_len;

        self.push_bits(v as u64, 8);
    }

    /// `RS`
    pub fn write_rs(&mut self, v: u16)
        requires
            old(self).wf(),
            old(self).bits().len() + 16 <= usize::MAX,
        ensures
            final(self).wf(),
            final(self).bits() == old(self).bits() + spec_enc_rs(v),
    {
        broadcast use lemma_nat_bits_len, lemma_be_bytes_len;

        self.write_rc((v % 256) as u8);
        self.write_rc((v / 256) as u8);
        assert(self.bits() =~= old(self).bits() + spec_enc_rs(v));
    }

    /// `RL`
    pub fn write_rl(&mut self, v: u32)
        requires
            old(self).wf(),
            old(self).bits().len() + 32 <= usize::MAX,
        ensures
            final(self).wf(),
            final(self).bits() == old(self).bits() + spec_enc_rl(v),
    {
        broadcast use lemma_nat_bits_len, lemma_be_bytes_len;

        self.write_rs((v % 0x1_0000) as u16);
        self.write_rs((v / 0x1_0000) as u16);
        assert(self.bits() =~= old(self).bits() + spec_enc_rl(v));
    }

    /// `RD`, from the bit pattern of the double.
    pub fn write_rd(&mut self, v: u64)
        requires
            old(self).wf(),
            old(self).bits().len() + 64 <= usize::MAX,
        ensures
            final(self).wf(),
            final(self).bits() == old(self).bits() + spec_enc_rd(v),
    {
        broadcast use lemma_nat_bits_len, lemma_be_bytes_len;

        self.write_rl((v % 0x1_0000_0000) as u32);
        self.write_rl((v / 0x1_0000_0000) as u32);
        assert(self.bits() =~= old(self).bits() + spec_enc_rd(v));
    }

    /// `BS`, unsigned, in its shortest form.
    pub fn write_bs_u(&mut self, v: u16)
        requires
            old(self).wf(),
            old(self).bits().len() + 18 <= usize::MAX,
        ensures
            final(self).wf(),
            final(self).bits() == old(self).bits() + spec_enc_bs_u(v),
    {
        broadcast use lemma_nat_bits_len, lemma_be_bytes_len;

        if v == 0 {
            self.write_bb(2);
        } else if v == 256 {
            self.write_bb(3);
        } else if v < 256 {
            self.write_bb(1);
            self.write_rc(v as u8);
            assert(self.bits() =~= old(self).bits() + spec_enc_bs_u(v));
        } else {
            self.write_bb(0);
            self.write_rs(v);
            assert(self.bits() =~= old(self).bits() + spec_enc_bs_u(v));
        }
    }

    /// `BS`, signed.
    pub fn write_bs(&mut self, v: i16)
        requires
            old(self).wf(),
            old(self).bits().len() + 18 <= usize::MAX,
        ensures
            final(self).wf(),
            final(self).bits() == old(self).bits() + spec_enc_bs(v),
    {
        broadcast use lemma_nat_bits_len, lemma_be_bytes_len;

        self.write_bs_u(v as u16);
    }

    /// `BL`, unsigned, in its shortest form.
    pub fn write_bl_u(&mut self, v: u32)
        requires
            old(self).wf(),
            old(self).bits().len() + 34 <= usize::MAX,
        ensures
            final(self).wf(),
            final(self).bits() == old(self).bits() + spec_enc_bl_u(v),
    {
        broadcast use lemma_nat_bits_len, lemma_be_bytes_len;

        if v == 0 {
            self.write_bb(2);
        } else if v < 256 {
            self.write_bb(1);
            self.write_rc(v as u8);
            assert(self.bits() =~= old(self).bits() + spec_enc_bl_u(v));
        } else {
            self.write_bb(0);
            self.write_rl(v);
            assert(self.bits() =~= old(self).bits() + spec_enc_bl_u(v));
        }
    }

    /// `BL`, signed.
    pub fn write_bl(&mut self, v: i32)
        requires
            old(self).wf(),
            old(self).bits().len() + 34 <= usize::MAX,
        ensures
            final(self).wf(),
            final(self).bits() == old(self).bits() + spec_enc_bl(v),
    {
        broadcast use lemma_nat_bits_len, lemma_be_bytes_len;

        self.write_bl_u(v as u32);
    }

    /// `BD`, from the bit pattern of the double.
    pub fn write_bd(&mut self, v: u64)
        requires
            old(self).wf(),
            old(self).bits().len() + 66 <= usize::MAX,
        ensures
            final(self).wf(),
            final(self).bits() == old(self).bits() + spec_enc_bd(v),
    {
        broadcast use lemma_nat_bits_len, lemma_be_bytes_len;

        if v == 0 {
            self.write_bb(2);
        } else if v == 0x3FF0_0000_0000_0000 {
            self.write_bb(1);
        } else {
            self.write_bb(0);
            self.write_rd(v);
            assert(self.bits() =~= old(self).bits() + spec_enc_bd(v));
        }
    }

    /// `DD`: the bit pattern `v` against the default `d`.
    pub fn write_dd(&mut self, d: u64, v: u64)
        requires
            old(self).wf(),
            old(self).bits().len() + 66 <= usize::MAX,
        ensures
            final(self).wf(),
            final(self).bits() == old(self).bits() + spec_enc_dd(v, d),
    {
        broadcast use lemma_nat_bits_len, lemma_be_bytes_len;

        if v == d {
            self.write_bb(0);
        } else if v / 0x1_0000_0000 == d / 0x1_0000_0000 {
            self.write_bb(1);
            self.write_rl((v % 0x1_0000_0000) as u32);
            assert(self.bits() =~= old(self).bits() + spec_enc_dd(v, d));
        } else if v / 0x1_0000_0000_0000 == d / 0x1_0000_0000_0000 {
            self.write_bb(2);
            self.write_rs(((v / 0x1_0000_0000) % 0x1_0000) as u16);
            self.write_rl((v % 0x1_0000_0000) as u32);
            assert(self.bits() =~= old(self).bits() + spec_enc_dd(v, d));
        } else {
            self.write_bb(3);
            self.write_rd(v);
            assert(self.bits() =~= old(self).bits() + spec_enc_dd(v, d));
        }
    }

    /// The low `k` bytes of `v`, most significant first.
    fn write_be_bytes(&mut self, v: u64, k: usize)
        requires
            old(self).wf(),
            old(self).bits().len() + 8 * k <= usize::MAX,
        ensures
            final(self).wf(),
            final(self).bits() == old(self).bits() + spec_enc_be_bytes(v as nat, k as nat),
        decreases k,
    {
        broadcast use lemma_nat_bits_len, lemma_be_bytes_len;

        if k == 0 {
            assert(old(self).bits() + spec_enc_be_bytes(v as nat, 0) =~= old(self).bits());
        } else {
            self.write_be_bytes(v / 256, k - 1);
            self.write_rc((v % 256) as u8);
            assert(self.bits() =~= old(self).bits() + spec_enc_be_bytes(v as nat, k as nat));
        }
    }

    /// `H`: the low nibble of `code`, the value's byte count, and its
    /// significant bytes.
    pub fn write_handle(&mut self, code: u8, value: u64)
        requires
            old(self).wf(),
            old(self).bits().len() + 72 <= usize::MAX,
        ensures
            final(self).wf(),
            final(self).bits() == old(self).bits() + spec_enc_handle(code, value),
    {
        broadcast use lemma_nat_bits_len, lemma_be_bytes_len;

        proof {
            lemma_byte_len_u64(value);
        }
        let mut len: u8 = 0;
        let mut rest: u64 = value;
        while rest != 0
            invariant
                len + spec_byte_len(rest as nat) == spec_byte_len(value as nat),
                len as nat + spec_byte_len(rest as nat) <= 8,
            decreases rest,
        {
            proof {
                lemma_byte_len_u64(rest);
            }
            rest = rest / 256;
            len += 1;
        }
        proof {
            lemma_byte_len_u64(value);
        }
        self.write_rc((code % 16) * 16 + len);
        self.write_be_bytes(value, len as usize);
        assert(self.bits() =~= old(self).bits() + spec_enc_handle(code, value));
    }

    /// The written bits, zero-padded to a whole byte.
    pub fn into_bytes(self) -> (v: Vec<u8>)
        requires
            self.wf(),
        ensures
            self.bits().len() <= v@.len() * 8 < self.bits().len() + 8,
            forall|i: int|
                0 <= i < v@.len() * 8 ==> #[trigger] spec_bit(v@, i) == (i < self.bits().len()
                    && self.bits()[i]),
    {
        self.bytes
    }
}

/// A `u64` takes at most eight bytes, and its significant bytes hold it.
proof fn lemma_byte_len_u64(v: u64)
    ensures
        spec_byte_len(v as nat) <= 8,
        (v as nat) < spec_pow256(spec_byte_len(v as nat)),
{
    reveal_with_fuel(spec_pow256, 9);
    lemma_byte_len_bound(v as nat, 8);
}

proof fn lemma_byte_len_bound(v: nat, k: nat)
    requires
        v < spec_pow256(k),
    ensures
        spec_byte_len(v) <= k,
        v < spec_pow256(spec_byte_len(v)),
    decreases k,
{
    if v > 0 {
        assert(k > 0);
        lemma_byte_len_bound(v / 256, (k - 1) as nat);
    }
}

proof fn lemma_mod_step(v: nat, m: nat, base: nat)
    requires
        m > 0,
        base > 0,
    ensures
        ((v / base) % m) * base + v % base == v % (base * m),
{
    let a = v / base;
    let r = v % base;
    let q = a / m;
    let s = a % m;
    vstd::arithmetic::div_mod::lemma_fundamental_div_mod(v as int, base as int);
    vstd::arithmetic::div_mod::lemma_fundamental_div_mod(a as int, m as int);
    assert(v == base * (m * q + s) + r);
    assert(v == (base * m) * q + (s * base + r)) by (nonlinear_arith)
        requires
            v == base * (m * q + s) + r,
    ;
    assert(s * base + r < base * m) by (nonlinear_arith)
        requires
            s < m,
            r < base,
    ;
    assert(base * m > 0) by (nonlinear_arith)
        requires
            base > 0,
            m > 0,
    ;
    assert(v == q * (base * m) + (s * base + r)) by (nonlinear_arith)
        requires
            v == (base * m) * q + (s * base + r),
    ;
    vstd::arithmetic::div_mod::lemma_fundamental_div_mod_converse(
        v as int,
        (base * m) as int,
        q as int,
        (s * base + r) as int,
    );
}

/// The bits of a prefix and of the rest of a concatenation stand where
/// the whole did.
pub proof fn lemma_holds_at_concat(bytes: Seq<u8>, pos: int, a: Seq<bool>, b: Seq<bool>)
    requires
        spec_holds_at(bytes, pos, a + b),
    ensures
        spec_holds_at(bytes, pos, a),
        spec_holds_at(bytes, pos + a.len(), b),
{
    assert forall|i: int| 0 <= i < a.len() implies #[trigger] spec_bit(bytes, pos + i) == a[i] by {
        assert((a + b)[i] == a[i]);
    }
    assert forall|i: int| 0 <= i < b.len() implies #[trigger] spec_bit(bytes, pos + a.len() + i)
        == b[i] by {
        assert((a + b)[a.len() + i] == b[i]);
        assert(spec_bit(bytes, pos + (a.len() + i)) == (a + b)[a.len() + i]);
        assert(pos + (a.len() + i) == pos + a.len() + i);
    }
}

/// Reading `n` bits where the low `n` bits of `v` were written gives
/// back `v` modulo `2^n`.
pub proof fn lemma_read_nat_bits(bytes: Seq<u8>, pos: int, v: nat, n: nat)
    requires
        spec_holds_at(bytes, pos, spec_nat_bits(v, n)),
    ensures
        spec_bits(bytes, pos, n) == v % spec_pow2(n),
        spec_read_bits(bytes, pos, n) == Ok::<(nat, int), Error>((v % spec_pow2(n), pos + n)),
    decreases n,
{
    broadcast use lemma_nat_bits_len, lemma_be_bytes_len;

    if n > 0 {
        let prefix = spec_nat_bits(v / 2, (n - 1) as nat);
        assert(spec_nat_bits(v, n) =~= prefix + seq![v % 2 == 1]);
        lemma_holds_at_concat(bytes, pos, prefix, seq![v % 2 == 1]);
        lemma_read_nat_bits(bytes, pos, v / 2, (n - 1) as nat);
        assert(spec_bit(bytes, pos + (n - 1) + 0) == (v % 2 == 1));
        assert(pos + (n - 1) + 0 == pos + n - 1);
        lemma_pow2_pos((n - 1) as nat);
        lemma_mod_step(v, spec_pow2((n - 1) as nat), 2);
    }
}

/// `B` reads back what was written.
pub proof fn lemma_read_b_of(bytes: Seq<u8>, pos: int, v: bool)
    requires
        spec_holds_at(bytes, pos, spec_enc_b(v)),
    ensures
        spec_read_b(bytes, pos) == Ok::<(bool, int), Error>((v, pos + 1)),
{
    broadcast use lemma_nat_bits_len, lemma_be_bytes_len;

    assert(spec_bit(bytes, pos + 0) == v);
    assert(pos + 0 == pos);
    reveal_with_fuel(spec_bits, 2);
}

/// `BB` reads back the low two bits of what was written.
pub proof fn lemma_read_bb_of(bytes: Seq<u8>, pos: int, v: u8)
    requires
        spec_holds_at(bytes, pos, spec_enc_bb(v)),
    ensures
        spec_read_bb(bytes, pos) == Ok::<(u8, int), Error>(((v % 4) as u8, pos + 2)),
{
    broadcast use lemma_nat_bits_len, lemma_be_bytes_len;

    lemma_read_nat_bits(bytes, pos, v as nat, 2);
    reveal_with_fuel(spec_pow2, 3);
}

/// `RC` reads back what was written.
pub proof fn lemma_read_rc_of(bytes: Seq<u8>, pos: int, v: u8)
    requires
        spec_holds_at(bytes, pos, spec_enc_rc(v)),
    ensures
        spec_read_rc(bytes, pos) == Ok::<(u8, int), Error>((v, pos + 8)),
{
    broadcast use lemma_nat_bits_len, lemma_be_bytes_len;

    lemma_read_nat_bits(bytes, pos, v as nat, 8);
    reveal_with_fuel(spec_pow2, 9);
    assert(spec_pow2(8) == 256);
    assert(v as nat % 256 == v);
}

/// `RS` reads back what was written.
pub proof fn lemma_read_rs_of(bytes: Seq<u8>, pos: int, v: u16)
    requires
        spec_holds_at(bytes, pos, spec_enc_rs(v)),
    ensures
        spec_read_rs(bytes, pos) == Ok::<(u16, int), Error>((v, pos + 16)),
{
    broadcast use lemma_nat_bits_len, lemma_be_bytes_len;

    let a = spec_enc_rc((v % 256) as u8);
    let b = spec_enc_rc((v / 256) as u8);
    lemma_holds_at_concat(bytes, pos, a, b);
    lemma_read_rc_of(bytes, pos, (v % 256) as u8);
    lemma_read_rc_of(bytes, pos + 8, (v / 256) as u8);
}

/// `RL` reads back what was written.
pub proof fn lemma_read_rl_of(bytes: Seq<u8>, pos: int, v: u32)
    requires
        spec_holds_at(bytes, pos, spec_enc_rl(v)),
    ensures
        spec_read_rl(bytes, pos) == Ok::<(u32, int), Error>((v, pos + 32)),
{
    broadcast use lemma_nat_bits_len, lemma_be_bytes_len;

    let a = spec_enc_rs((v % 0x1_0000) as u16);
    let b = spec_enc_rs((v / 0x1_0000) as u16);
    lemma_holds_at_concat(bytes, pos, a, b);
    lemma_read_rs_of(bytes, pos, (v % 0x1_0000) as u16);
    lemma_read_rs_of(bytes, pos + 16, (v / 0x1_0000) as u16);
}

/// `RD` reads back the bit pattern that was written.
pub proof fn lemma_read_rd_of(bytes: Seq<u8>, pos: int, v: u64)
    requires
        spec_holds_at(bytes, pos, spec_enc_rd(v)),
    ensures
        spec_read_rd(bytes, pos) == Ok::<(u64, int), Error>((v, pos + 64)),
{
    broadcast use lemma_nat_bits_len, lemma_be_bytes_len;

    let a = spec_enc_rl((v % 0x1_0000_0000) as u32);
    let b = spec_enc_rl((v / 0x1_0000_0000) as u32);
    lemma_holds_at_concat(bytes, pos, a, b);
    lemma_read_rl_of(bytes, pos, (v % 0x1_0000_0000) as u32);
    lemma_read_rl_of(bytes, pos + 32, (v / 0x1_0000_0000) as u32);
}

/// Unsigned `BS` reads back what was written.
pub proof fn lemma_read_bs_u_of(bytes: Seq<u8>, pos: int, v: u16)
    requires
        spec_holds_at(bytes, pos, spec_enc_bs_u(v)),
    ensures
        spec_read_bs_u(bytes, pos) == Ok::<(u16, int), Error>((v, pos + spec_enc_bs_u(v).len())),
{
    broadcast use lemma_nat_bits_len, lemma_be_bytes_len;

    if v == 0 {
        lemma_read_bb_of(bytes, pos, 2);
    } else if v == 256 {
        lemma_read_bb_of(bytes, pos, 3);
    } else if v < 256 {
        lemma_holds_at_concat(bytes, pos, spec_enc_bb(1), spec_enc_rc(v as u8));
        lemma_read_bb_of(bytes, pos, 1);
        lemma_read_rc_of(bytes, pos + 2, v as u8);
    } else {
        lemma_holds_at_concat(bytes, pos, spec_enc_bb(0), spec_enc_rs(v));
        lemma_read_bb_of(bytes, pos, 0);
        lemma_read_rs_of(bytes, pos + 2, v);
    }
}

/// Two's-complement round trips through the unsigned types.
proof fn lemma_signed_casts(a: i16, b: i32)
    by (bit_vector)
    ensures
        ((a as u16) as i16) == a,
        ((b as u32) as i32) == b,
{
}

/// Signed `BS` reads back what was written.
pub proof fn lemma_read_bs_of(bytes: Seq<u8>, pos: int, v: i16)
    requires
        spec_holds_at(bytes, pos, spec_enc_bs(v)),
    ensures
        spec_read_bs(bytes, pos) == Ok::<(i16, int), Error>((v, pos + spec_enc_bs(v).len())),
{
    broadcast use lemma_nat_bits_len, lemma_be_bytes_len;

    lemma_read_bs_u_of(bytes, pos, v as u16);
    lemma_signed_casts(v, 0);
}

/// Signed `BL` reads back what was written.
pub proof fn lemma_read_bl_of(bytes: Seq<u8>, pos: int, v: i32)
    requires
        spec_holds_at(bytes, pos, spec_enc_bl(v)),
    ensures
        spec_read_bl(bytes, pos) == Ok::<(i32, int), Error>((v, pos + spec_enc_bl(v).len())),
{
    broadcast use lemma_nat_bits_len, lemma_be_bytes_len;

    let u = v as u32;
    lemma_signed_casts(0, v);
    if u == 0 {
        lemma_read_bb_of(bytes, pos, 2);
    } else if u < 256 {
        lemma_holds_at_concat(bytes, pos, spec_enc_bb(1), spec_enc_rc(u as u8));
        lemma_read_bb_of(bytes, pos, 1);
        lemma_read_rc_of(bytes, pos + 2, u as u8);
        assert(((u as u8) as i32) == v);
    } else {
        lemma_holds_at_concat(bytes, pos, spec_enc_bb(0), spec_enc_rl(u));
        lemma_read_bb_of(bytes, pos, 0);
        lemma_read_rl_of(bytes, pos + 2, u);
    }
}

/// `BD` reads back the bit pattern that was written.
pub proof fn lemma_read_bd_of(bytes: Seq<u8>, pos: int, v: u64)
    requires
        spec_holds_at(bytes, pos, spec_enc_bd(v)),
    ensures
        spec_read_bd(bytes, pos) == Ok::<(u64, int), Error>((v, pos + spec_enc_bd(v).len())),
{
    broadcast use lemma_nat_bits_len, lemma_be_bytes_len;

    if v == 0 {
        lemma_read_bb_of(bytes, pos, 2);
    } else if v == spec_one_bits() {
        lemma_read_bb_of(bytes, pos, 1);
    } else {
        lemma_holds_at_concat(bytes, pos, spec_enc_bb(0), spec_enc_rd(v));
        lemma_read_bb_of(bytes, pos, 0);
        lemma_read_rd_of(bytes, pos + 2, v);
    }
}

/// `DD` reads back the bit pattern that was written, against the same
/// default.
pub proof fn lemma_read_dd_of(bytes: Seq<u8>, pos: int, v: u64, d: u64)
    requires
        spec_holds_at(bytes, pos, spec_enc_dd(v, d)),
    ensures
        spec_read_dd(bytes, pos, d) == Ok::<(u64, int), Error>((v, pos + spec_enc_dd(v, d).len())),
{
    broadcast use lemma_nat_bits_len, lemma_be_bytes_len;

    if v == d {
        lemma_read_bb_of(bytes, pos, 0);
    } else if v / 0x1_0000_0000 == d / 0x1_0000_0000 {
        let lo = (v % 0x1_0000_0000) as u32;
        lemma_holds_at_concat(bytes, pos, spec_enc_bb(1), spec_enc_rl(lo));
        lemma_read_bb_of(bytes, pos, 1);
        lemma_read_rl_of(bytes, pos + 2, lo);
        vstd::arithmetic::div_mod::lemma_fundamental_div_mod(v as int, 0x1_0000_0000);
        vstd::arithmetic::div_mod::lemma_fundamental_div_mod(d as int, 0x1_0000_0000);
    } else if v / 0x1_0000_0000_0000 == d / 0x1_0000_0000_0000 {
        let mid = ((v / 0x1_0000_0000) % 0x1_0000) as u16;
        let lo = (v % 0x1_0000_0000) as u32;
        lemma_holds_at_concat(bytes, pos, spec_enc_bb(2) + spec_enc_rs(mid), spec_enc_rl(lo));
        lemma_holds_at_concat(bytes, pos, spec_enc_bb(2), spec_enc_rs(mid));
        lemma_read_bb_of(bytes, pos, 2);
        lemma_read_rs_of(bytes, pos + 2, mid);
        lemma_read_rl_of(bytes, pos + 18, lo);
        lemma_split48(v);
        lemma_split48(d);
    } else {
        lemma_holds_at_concat(bytes, pos, spec_enc_bb(3), spec_enc_rd(v));
        lemma_read_bb_of(bytes, pos, 3);
        lemma_read_rd_of(bytes, pos + 2, v);
    }
}

proof fn lemma_split48(v: u64)
    ensures
        v as int == (v as int / 0x1_0000_0000_0000) * 0x1_0000_0000_0000 + ((v as int / 0x1_0000_0000)
            % 0x1_0000) * 0x1_0000_0000 + v as int % 0x1_0000_0000,
        v as int % 0x1_0000_0000_0000 == ((v as int / 0x1_0000_0000) % 0x1_0000) * 0x1_0000_0000
            + v as int % 0x1_0000_0000,
{
    let a = v as int;
    vstd::arithmetic::div_mod::lemma_fundamental_div_mod(a, 0x1_0000_0000);
    vstd::arithmetic::div_mod::lemma_fundamental_div_mod(a / 0x1_0000_0000, 0x1_0000);
    vstd::arithmetic::div_mod::lemma_fundamental_div_mod(a, 0x1_0000_0000_0000);
    vstd::arithmetic::div_mod::lemma_div_denominator(a, 0x1_0000_0000, 0x1_0000);
}

/// Big-endian bytes read back the low `k` bytes of what was written.
proof fn lemma_read_be_bytes_of(bytes: Seq<u8>, pos: int, v: nat, k: nat)
    requires
        k <= 8,
        spec_holds_at(bytes, pos, spec_enc_be_bytes(v, k)),
    ensures
        spec_read_be_bytes(bytes, pos, k) == Ok::<(u64, int), Error>(
            ((v % spec_pow256(k)) as u64, pos + 8 * k),
        ),
        spec_enc_be_bytes(v, k).len() == 8 * k,
    decreases k,
{
    broadcast use lemma_nat_bits_len, lemma_be_bytes_len;

    if k > 0 {
        let a = spec_enc_be_bytes(v / 256, (k - 1) as nat);
        let b = spec_enc_rc((v % 256) as u8);
        lemma_holds_at_concat(bytes, pos, a, b);
        lemma_read_be_bytes_of(bytes, pos, v / 256, (k - 1) as nat);
        lemma_read_rc_of(bytes, pos + 8 * (k - 1), (v % 256) as u8);
        lemma_pow256_le((k - 1) as nat);
        lemma_mod_step(v, spec_pow256((k - 1) as nat), 256);
        lemma_pow256_le(k);
        assert((v % spec_pow256(k)) < 0x1_0000_0000_0000_0000);
    }
}

proof fn lemma_pow2_pos(n: nat)
    ensures
        spec_pow2(n) > 0,
    decreases n,
{
    if n > 0 {
        lemma_pow2_pos((n - 1) as nat);
    }
}

proof fn lemma_pow256_le(k: nat)
    requires
        k <= 8,
    ensures
        0 < spec_pow256(k) <= 0x1_0000_0000_0000_0000,
    decreases k,
{
    reveal_with_fuel(spec_pow256, 9);
}

/// `H` reads back the code nibble, the byte count and the value.
pub proof fn lemma_read_handle_of(bytes: Seq<u8>, pos: int, code: u8, value: u64)
    requires
        spec_holds_at(bytes, pos, spec_enc_handle(code, value)),
    ensures
        spec_read_handle(bytes, pos) == Ok::<(Handle, int), Error>(
            (
                Handle {
                    code: code % 16,
                    counter: spec_byte_len(value as nat) as u8,
                    value,
                },
                pos + spec_enc_handle(code, value).len(),
            ),
        ),
{
    broadcast use lemma_nat_bits_len, lemma_be_bytes_len;

    let len = spec_byte_len(value as nat);
    lemma_byte_len_u64(value);
    let h = ((code % 16) * 16 + len) as u8;
    lemma_holds_at_concat(
        bytes,
        pos,
        spec_enc_rc(h),
        spec_enc_be_bytes(value as nat, len),
    );
    lemma_read_rc_of(bytes, pos, h);
    assert(h % 16 == len);
    assert(h / 16 == code % 16);
    lemma_read_be_bytes_of(bytes, pos + 8, value as nat, len);
    vstd::arithmetic::div_mod::lemma_small_mod(value as nat, spec_pow256(len));
}

/// What a writer packs is what it wrote: its bytes hold its bits from
/// bit 0.
pub proof fn lemma_packed_bits(w: BitWriter, v: Seq<u8>)
    requires
        w.bits().len() <= v.len() * 8,
        forall|i: int|
            0 <= i < v.len() * 8 ==> #[trigger] spec_bit(v, i) == (i < w.bits().len()
                && w.bits()[i]),
    ensures
        spec_holds_at(v, 0, w.bits()),
{
    assert forall|i: int| 0 <= i < w.bits().len() implies #[trigger] spec_bit(v, 0 + i)
        == w.bits()[i] by {
        assert(0 + i == i);
    }
}

/// What one encoder appended stands in the packed bytes from the bit
/// at which it started: with the read-back laws above, a cursor over
/// `into_bytes` reads every written value back in order.
pub proof fn lemma_written_bits_hold(
    w: BitWriter,
    v: Seq<u8>,
    pre: Seq<bool>,
    s: Seq<bool>,
    post: Seq<bool>,
)
    requires
        w.bits() == pre + s + post,
        w.bits().len() <= v.len() * 8,
        forall|i: int|
            0 <= i < v.len() * 8 ==> #[trigger] spec_bit(v, i) == (i < w.bits().len()
                && w.bits()[i]),
    ensures
        spec_holds_at(v, pre.len() as int, s),
{
    lemma_packed_bits(w, v);
    lemma_holds_at_concat(v, 0, pre + s, post);
    lemma_holds_at_concat(v, 0, pre, s);
}

} // verus!
