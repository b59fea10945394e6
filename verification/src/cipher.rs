//! The R2004+ file-open header cipher: the 0x6C-byte block at file
//! offset 0x80 is XORed with a fixed byte sequence drawn from a linear
//! congruential generator seeded with 1.
use vstd::prelude::*;

verus! {

/// Length of the encrypted header block.
pub const MAGIC_LEN: usize = 0x6C;

/// The generator's state after `n` steps from the seed 1:
/// `s' = s * 0x343FD + 0x269EC3 (mod 2^32)`.
pub open spec fn spec_lcg(n: nat) -> u32
    decreases n,
{
    if n == 0 {
        1
    } else {
        spec_lcg((n - 1) as nat).wrapping_mul(0x343FD).wrapping_add(0x269EC3)
    }
}

/// Byte `i` of the sequence: bits 16..24 of the state after `i + 1` steps.
pub open spec fn spec_magic_byte(i: nat) -> u8 {
    ((spec_lcg(i + 1) >> 16u32) & 0xFF) as u8
}

/// `data` XORed, byte by byte, with the sequence from its start.
pub open spec fn spec_xor_magic(data: Seq<u8>) -> Seq<u8> {
    Seq::new(data.len(), |i: int| data[i] ^ spec_magic_byte(i as nat))
}

/// XOR `data` with the sequence; the cipher is its own inverse, so
/// this both encrypts and decrypts. Only the first [`MAGIC_LEN`]
/// bytes are ever encrypted.
pub fn xor_with_magic(data: &[u8]) -> (out: Vec<u8>)
    requires
        data@.len() <= MAGIC_LEN,
    ensures
        out@ == spec_xor_magic(data@),
{
    let mut out: Vec<u8> = Vec::new();
    let mut seed: u32 = 1;
    let mut i: usize = 0;
    while i < data.len()
        invariant
            i <= data@.len() <= MAGIC_LEN,
            seed == spec_lcg(i as nat),
            out@.len() == i,
            forall|j: int| 0 <= j < i ==> out@[j] == data@[j] ^ spec_magic_byte(j as nat),
        decreases data@.len() - i,
    {
        seed = seed.wrapping_mul(0x343FD).wrapping_add(0x269EC3);
        let m = ((seed >> 16) & 0xFF) as u8;
        out.push(data[i] ^ m);
        i += 1;
    }
    proof {
        assert(out@ =~= spec_xor_magic(data@));
    }
    out
}

/// XORing twice with the sequence gives the data back.
pub proof fn lemma_xor_magic_involution(data: Seq<u8>)
    ensures
        spec_xor_magic(spec_xor_magic(data)) == data,
{
    assert forall|i: int| 0 <= i < data.len() implies #[trigger] spec_xor_magic(spec_xor_magic(data))[i]
        == data[i] by {
        let a = data[i];
        let m = spec_magic_byte(i as nat);
        assert((a ^ m) ^ m == a) by (bit_vector);
    }
    assert(spec_xor_magic(spec_xor_magic(data)) =~= data);
}

/// The generator of the sequence, in integers: the state is 1 at the
/// start, and each step multiplies by `0x343FD`, adds `0x269EC3` and
/// keeps the remainder modulo 2^32.
pub open spec fn spec_generator_state(n: nat) -> int
    decreases n,
{
    if n == 0 {
        1
    } else {
        (spec_generator_state((n - 1) as nat) * 0x343FD + 0x269EC3) % 0x1_0000_0000
    }
}

proof fn lemma_lcg_is_generator(n: nat)
    ensures
        spec_lcg(n) as int == spec_generator_state(n),
    decreases n,
{
    if n > 0 {
        lemma_lcg_is_generator((n - 1) as nat);
        let s = spec_lcg((n - 1) as nat);
        let m: int = 0x1_0000_0000;
        let prod = (s as int) * 0x343FD;
        assert(s.wrapping_mul(0x343FD) as int == prod % m);
        let w = s.wrapping_mul(0x343FD);
        assert(w.wrapping_add(0x269EC3) as int == (w as int + 0x269EC3) % m) by {
            if w as int + 0x269EC3 >= m {
                vstd::arithmetic::div_mod::lemma_small_mod((w as int + 0x269EC3 - m) as nat, m as nat);
                vstd::arithmetic::div_mod::lemma_mod_add_multiples_vanish(w as int + 0x269EC3 - m, m);
            } else {
                vstd::arithmetic::div_mod::lemma_small_mod((w as int + 0x269EC3) as nat, m as nat);
            }
        }
        vstd::arithmetic::div_mod::lemma_add_mod_noop(prod, 0x269EC3, m);
        vstd::arithmetic::div_mod::lemma_small_mod(0x269EC3nat, m as nat);
        vstd::arithmetic::div_mod::lemma_mod_twice(prod, m);
    }
}

/// The cipher XORs byte `i` of the data with bits 16 to 23 of the
/// generator's state after `i + 1` steps, for every `i`; the bytes of
/// the result are those and no others.
pub proof fn lemma_xor_magic_keystream(data: Seq<u8>, i: int)
    requires
        0 <= i < data.len(),
    ensures
        spec_xor_magic(data).len() == data.len(),
        spec_xor_magic(data)[i] == data[i] ^ (((spec_generator_state((i + 1) as nat) / 0x10000) % 0x100) as u8),
{
    lemma_lcg_is_generator((i + 1) as nat);
    let s = spec_lcg((i + 1) as nat);
    assert(((s >> 16u32) & 0xFF) as u8 == ((s / 0x10000) % 0x100) as u8) by (bit_vector);
}

} // verus!
