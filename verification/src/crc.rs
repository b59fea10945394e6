//! The two CRCs of the format: the 8-bit-indexed CRC-16 (reflected
//! polynomial `0xA001`) of handle-map sections and file headers, and
//! the CRC-32 (reflected polynomial `0xEDB88320`, inverted on entry and
//! exit) of the R2004 file-open header.
use vstd::prelude::*;

use crate::le::spec_le32;

verus! {

/// One polynomial step of the reflected CRC.
pub open spec fn spec_crc_shift(c: u16) -> u16 {
    if c & 1 == 1 {
        (c >> 1u16) ^ 0xA001u16
    } else {
        c >> 1u16
    }
}

/// `n` polynomial steps.
pub open spec fn spec_crc_shifts(c: u16, n: nat) -> u16
    decreases n,
{
    if n == 0 {
        c
    } else {
        spec_crc_shifts(spec_crc_shift(c), (n - 1) as nat)
    }
}

/// The CRC after one more byte.
pub open spec fn spec_crc_byte(c: u16, b: u8) -> u16 {
    spec_crc_shifts(c ^ (b as u16), 8)
}

/// The CRC of `data` from `seed`.
pub open spec fn spec_crc8(seed: u16, data: Seq<u8>) -> u16
    decreases data.len(),
{
    if data.len() == 0 {
        seed
    } else {
        spec_crc_byte(spec_crc8(seed, data.drop_last()), data.last())
    }
}

/// Compute the CRC of `data` starting from `seed`.
pub fn crc8(seed: u16, data: &[u8]) -> (c: u16)
    ensures
        c == spec_crc8(seed, data@),
{
    let mut c = seed;
    let mut i: usize = 0;
    while i < data.len()
        invariant
            0 <= i <= data@.len(),
            c == spec_crc8(seed, data@.subrange(0, i as int)),
        decreases data@.len() - i,
    {
        proof {
            assert(data@.subrange(0, i + 1).drop_last() =~= data@.subrange(0, i as int));
        }
        let mut x = c ^ (data[i] as u16);
        let ghost x0 = x;
        let mut k: usize = 0;
        while k < 8
            invariant
                0 <= k <= 8,
                spec_crc_shifts(x, (8 - k) as nat) == spec_crc_shifts(x0, 8),
            decreases 8 - k,
        {
            x = if x & 1 == 1 {
                (x >> 1) ^ 0xA001
            } else {
                x >> 1
            };
            k += 1;
        }
        c = x;
        i += 1;
    }
    proof {
        assert(data@.subrange(0, data@.len() as int) =~= data@);
    }
    c
}

/// One step of the CRC-16/ARC register: halve it, and when a one
/// falls out XOR in `0xA001`, the generator `x^16 + x^15 + x^2 + 1`
/// (`0x8005`) with its bits reversed.
pub open spec fn spec_arc_step(x: u16) -> u16 {
    if x % 2 == 1 {
        (x / 2) ^ 0xA001u16
    } else {
        x / 2
    }
}

/// `0xA001` is `0x8005` with its sixteen bits reversed.
pub proof fn lemma_arc_polynomial_is_reflected()
    ensures
        forall|k: u16| k < 16 ==> ((0xA001u16 >> k) & 1 == (0x8005u16 >> (15 - k) as u16) & 1),
{
    assert(forall|k: u16| k < 16 ==> ((0xA001u16 >> k) & 1 == (0x8005u16 >> (15 - k) as u16) & 1))
        by (bit_vector);
}

proof fn lemma_shift_is_arc_step(c: u16)
    ensures
        spec_crc_shift(c) == spec_arc_step(c),
{
    assert((c >> 1u16) == c / 2 && ((c & 1 == 1) == (c % 2 == 1))) by (bit_vector);
}

/// [`crc8`] is CRC-16/ARC: from `seed`, the empty input leaves the
/// register as it is, and each further byte is XORed into its low
/// eight bits, followed by eight CRC-16/ARC register steps.
pub proof fn lemma_crc8_is_crc16_arc(seed: u16, data: Seq<u8>, b: u8)
    ensures
        spec_crc8(seed, Seq::empty()) == seed,
        spec_crc8(seed, data.push(b)) == ({
            let x = spec_crc8(seed, data) ^ (b as u16);
            spec_arc_step(
                spec_arc_step(
                    spec_arc_step(spec_arc_step(spec_arc_step(spec_arc_step(spec_arc_step(spec_arc_step(x)))))),
                ),
            )
        }),
{
    assert(data.push(b).drop_last() =~= data);
    let x = spec_crc8(seed, data) ^ (b as u16);
    reveal_with_fuel(spec_crc_shifts, 9);
    lemma_shift_is_arc_step(x);
    let x1 = spec_crc_shift(x);
    lemma_shift_is_arc_step(x1);
    let x2 = spec_crc_shift(x1);
    lemma_shift_is_arc_step(x2);
    let x3 = spec_crc_shift(x2);
    lemma_shift_is_arc_step(x3);
    let x4 = spec_crc_shift(x3);
    lemma_shift_is_arc_step(x4);
    let x5 = spec_crc_shift(x4);
    lemma_shift_is_arc_step(x5);
    let x6 = spec_crc_shift(x5);
    lemma_shift_is_arc_step(x6);
    let x7 = spec_crc_shift(x6);
    lemma_shift_is_arc_step(x7);
}

/// The CRC of two pieces is the CRC of the second continued from the
/// CRC of the first.
pub proof fn lemma_crc8_concat(seed: u16, a: Seq<u8>, b: Seq<u8>)
    ensures
        spec_crc8(seed, a + b) == spec_crc8(spec_crc8(seed, a), b),
    decreases b.len(),
{
    if b.len() == 0 {
        assert(a + b =~= a);
    } else {
        lemma_crc8_concat(seed, a, b.drop_last());
        assert((a + b).drop_last() =~= a + b.drop_last());
    }
}

/// One polynomial step of the CRC-32.
pub open spec fn spec_crc32_shift(c: u32) -> u32 {
    if c % 2 == 1 {
        (c / 2) ^ 0xEDB8_8320u32
    } else {
        c / 2
    }
}

/// `n` polynomial steps.
pub open spec fn spec_crc32_shifts(c: u32, n: nat) -> u32
    decreases n,
{
    if n == 0 {
        c
    } else {
        spec_crc32_shifts(spec_crc32_shift(c), (n - 1) as nat)
    }
}

/// The register after `data`, from the register `c`.
pub open spec fn spec_crc32_register(c: u32, data: Seq<u8>) -> u32
    decreases data.len(),
{
    if data.len() == 0 {
        c
    } else {
        spec_crc32_shifts(spec_crc32_register(c, data.drop_last()) ^ (data.last() as u32), 8)
    }
}

/// The CRC-32 of `data` continuing from the CRC `seed` (0 to start):
/// the register starts at the complement of `seed` and is complemented
/// at the end.
pub open spec fn spec_crc32(seed: u32, data: Seq<u8>) -> u32 {
    (0xFFFF_FFFFu32 - spec_crc32_register((0xFFFF_FFFFu32 - seed) as u32, data)) as u32
}

/// Compute the CRC-32 of `data` continuing from `seed`.
pub fn crc32(seed: u32, data: &[u8]) -> (c: u32)
    ensures
        c == spec_crc32(seed, data@),
{
    let mut c: u32 = 0xFFFF_FFFF - seed;
    let ghost c0 = c;
    let mut i: usize = 0;
    while i < data.len()
        invariant
            0 <= i <= data@.len(),
            c0 == (0xFFFF_FFFFu32 - seed) as u32,
            c == spec_crc32_register(c0, data@.subrange(0, i as int)),
        decreases data@.len() - i,
    {
        proof {
            assert(data@.subrange(0, i + 1).drop_last() =~= data@.subrange(0, i as int));
        }
        let mut x = c ^ (data[i] as u32);
        let ghost x0 = x;
        let mut k: usize = 0;
        while k < 8
            invariant
                0 <= k <= 8,
                spec_crc32_shifts(x, (8 - k) as nat) == spec_crc32_shifts(x0, 8),
            decreases 8 - k,
        {
            x = if x % 2 == 1 {
                (x / 2) ^ 0xEDB8_8320
            } else {
                x / 2
            };
            k += 1;
        }
        c = x;
        i += 1;
    }
    proof {
        assert(data@.subrange(0, data@.len() as int) =~= data@);
    }
    0xFFFF_FFFF - c
}

/// `buf` with its four bytes from `at` set to zero.
pub open spec fn spec_zero_slot(buf: Seq<u8>, at: int) -> Seq<u8> {
    buf.subrange(0, at) + seq![0u8, 0u8, 0u8, 0u8] + buf.subrange(at + 4, buf.len() as int)
}

/// Splice a CRC-32 into `buf`: zero the four bytes from `at`, take the
/// CRC-32 of the whole buffer from `seed`, and store it there
/// little-endian. Returns the CRC.
pub fn embed_crc32(buf: &mut Vec<u8>, at: usize, seed: u32) -> (c: u32)
    requires
        at + 4 <= old(buf)@.len(),
    ensures
        c == spec_crc32(seed, spec_zero_slot(old(buf)@, at as int)),
        final(buf)@ == old(buf)@.subrange(0, at as int) + spec_le32(c) + old(buf)@.subrange(
            at + 4,
            old(buf)@.len() as int,
        ),
{
    let n = buf.len();
    assert(at + 4 <= n);
    buf.set(at, 0);
    buf.set(at + 1, 0);
    buf.set(at + 2, 0);
    buf.set(at + 3, 0);
    proof {
        assert(buf@ =~= spec_zero_slot(old(buf)@, at as int));
    }
    let c = crc32(seed, buf.as_slice());
    buf.set(at, (c % 256) as u8);
    buf.set(at + 1, ((c / 256) % 256) as u8);
    buf.set(at + 2, ((c / 65536) % 256) as u8);
    buf.set(at + 3, (c / 16777216) as u8);
    proof {
        assert(buf@ =~= old(buf)@.subrange(0, at as int) + spec_le32(c) + old(buf)@.subrange(
            at + 4,
            old(buf)@.len() as int,
        ));
    }
    c
}

} // verus!
