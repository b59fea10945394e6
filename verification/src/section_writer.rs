//! R2004-family data section pages: one section's bytes, compressed
//! and framed as a single page.
//!
//! ```text
//! 0x00  u32  page type 0x4163043B          \
//! 0x04  u32  section number                 |
//! 0x08  u32  compressed size                |  32-byte header, each
//! 0x0C  u32  decompressed size              |  word XORed with
//! 0x10  u64  start offset (0: one page)     |  0x4164536B ^ page offset
//! 0x18  u32  header checksum                |
//! 0x1C  u32  data checksum                 /
//! 0x20  ...  LZ77 stream, then zeros to a multiple of 32 bytes
//! ```
//!
//! The data checksum is the page checksum of the LZ77 stream from seed
//! 0; the header checksum is the page checksum, from the data checksum,
//! of the header before masking with its own word left at zero.
use vstd::prelude::*;

use crate::error::{Error, Result};
use crate::le::{push_bytes, push_u32_le, spec_le32, spec_zero_bytes};
use crate::lz77::{spec_decompress, DecompressLimits};
use crate::lz77_encode::{compress, lemma_compress_len, lemma_compress_roundtrip, spec_compress};

verus! {

/// Page type of a data section page.
pub const DATA_PAGE_TYPE: u32 = 0x4163_043B;

/// The constant each header word is masked with, before the page's
/// file offset is folded in.
pub const PAGE_MASK: u32 = 0x4164_536B;

/// The page checksum works through its input in chunks of this many
/// bytes, reducing both sums after each.
pub const CHECKSUM_CHUNK: usize = 0x15B0;

/// The modulus of the page checksum's two sums.
pub const CHECKSUM_MODULUS: u64 = 0xFFF1;

/// The two running sums over `chunk`, from `(s1, s2)`: each byte is
/// added to the first sum, and the first sum to the second.
pub open spec fn spec_sums(s1: int, s2: int, chunk: Seq<u8>) -> (int, int)
    decreases chunk.len(),
{
    if chunk.len() == 0 {
        (s1, s2)
    } else {
        let (a, b) = spec_sums(s1, s2, chunk.drop_last());
        (a + chunk.last(), b + a + chunk.last())
    }
}

/// The sums over `data`, chunk by chunk, each reduced modulo `0xFFF1`
/// after its chunk.
pub open spec fn spec_chunked_sums(s1: int, s2: int, data: Seq<u8>) -> (int, int)
    decreases data.len(),
{
    if data.len() == 0 {
        (s1, s2)
    } else {
        let k = if data.len() < CHECKSUM_CHUNK { data.len() as int } else { CHECKSUM_CHUNK as int };
        let (a, b) = spec_sums(s1, s2, data.take(k));
        spec_chunked_sums(a % 0xFFF1, b % 0xFFF1, data.skip(k))
    }
}

/// The page checksum of `data` from `seed`: the sums start at the low
/// and high halves of the seed; the result holds the second sum in its
/// high half and the first in its low half.
#[verifier::opaque]
pub open spec fn spec_page_checksum(seed: u32, data: Seq<u8>) -> u32 {
    let (a, b) = spec_chunked_sums((seed % 65536) as int, (seed / 65536) as int, data);
    (b * 65536 + a % 65536) as u32
}

/// The page checksum of `data` from `seed`.
pub fn page_checksum(seed: u32, data: &[u8]) -> (c: u32)
    ensures
        c == spec_page_checksum(seed, data@),
{
    reveal(spec_page_checksum);
    let n = data.len();
    proof {
        assert(data@.skip(0) =~= data@);
    }
    let mut s1: u64 = (seed % 65536) as u64;
    let mut s2: u64 = (seed / 65536) as u64;
    let mut pos: usize = 0;
    while pos < n
        invariant
            n == data@.len(),
            0 <= pos <= n,
            s1 < 65536,
            s2 < 65536,
            spec_chunked_sums(s1 as int, s2 as int, data@.skip(pos as int))
                == spec_chunked_sums((seed % 65536) as int, (seed / 65536) as int, data@),
        decreases n - pos,
    {
        let k: usize = if n - pos < CHECKSUM_CHUNK { n - pos } else { CHECKSUM_CHUNK };
        let ghost rest = data@.skip(pos as int);
        let ghost a0 = s1;
        let ghost b0 = s2;
        let mut j: usize = 0;
        while j < k
            invariant
                n == data@.len(),
                pos + k <= n,
                k <= CHECKSUM_CHUNK,
                0 <= j <= k,
                a0 < 65536,
                b0 < 65536,
                s1 <= 65535 + 255 * j,
                s2 <= 65535 + 1_500_000 * j,
                (s1 as int, s2 as int) == spec_sums(a0 as int, b0 as int, data@.subrange(pos as int, pos + j)),
            decreases k - j,
        {
            proof {
                assert(data@.subrange(pos as int, pos + j + 1).drop_last() =~= data@.subrange(pos as int, pos + j));
            }
            s1 = s1 + data[pos + j] as u64;
            s2 = s2 + s1;
            j += 1;
        }
        proof {
            assert(rest.take(k as int) =~= data@.subrange(pos as int, pos + k));
            assert(rest.skip(k as int) =~= data@.skip(pos + k));
        }
        s1 = s1 % CHECKSUM_MODULUS;
        s2 = s2 % CHECKSUM_MODULUS;
        pos = pos + k;
    }
    proof {
        assert(data@.skip(n as int) =~= Seq::<u8>::empty());
    }
    (s2 * 65536 + s1 % 65536) as u32
}

/// One section framed as a data page.
#[derive(Debug, Clone)]
pub struct BuiltSection {
    /// The whole page: masked header, LZ77 stream, padding.
    pub bytes: Vec<u8>,
    /// Length of the LZ77 stream.
    pub compressed_size: u32,
    /// Length of the section's own bytes.
    pub decompressed_size: u32,
}

/// The 32-byte page header before masking.
pub open spec fn spec_page_header(number: u32, comp: u32, decomp: u32, header_sum: u32, data_sum: u32) -> Seq<u8> {
    spec_le32(DATA_PAGE_TYPE) + spec_le32(number) + spec_le32(comp) + spec_le32(decomp) + spec_le32(0)
        + spec_le32(0) + spec_le32(header_sum) + spec_le32(data_sum)
}

/// The same header with every word XORed with `m`.
pub open spec fn spec_masked_header(number: u32, comp: u32, decomp: u32, header_sum: u32, data_sum: u32, m: u32) -> Seq<u8> {
    spec_le32(DATA_PAGE_TYPE ^ m) + spec_le32(number ^ m) + spec_le32(comp ^ m) + spec_le32(decomp ^ m)
        + spec_le32(0u32 ^ m) + spec_le32(0u32 ^ m) + spec_le32(header_sum ^ m) + spec_le32(data_sum ^ m)
}

/// The zero bytes that bring a length `n` up to a multiple of 32.
pub open spec fn spec_pad32(n: nat) -> Seq<u8> {
    spec_zero_bytes(if n % 32 == 0 { 0 } else { (32 - n % 32) as nat })
}

/// The page of `input` as section `number` at file offset `offset`,
/// given its LZ77 stream `c`.
pub open spec fn spec_page(input: Seq<u8>, c: Seq<u8>, number: u32, offset: u32) -> Seq<u8> {
    let comp = c.len() as u32;
    let decomp = input.len() as u32;
    let data_sum = spec_page_checksum(0, c);
    let header_sum = spec_page_checksum(data_sum, spec_page_header(number, comp, decomp, 0, data_sum));
    let framed = spec_masked_header(number, comp, decomp, header_sum, data_sum, PAGE_MASK ^ offset) + c;
    framed + spec_pad32(framed.len())
}

/// Append zeros until the length is a multiple of 32.
pub fn pad_to_32(out: &mut Vec<u8>)
    requires
        old(out)@.len() + 32 <= usize::MAX,
    ensures
        final(out)@ == old(out)@ + spec_pad32(old(out)@.len()),
{
    let ghost start = out@;
    while out.len() % 32 != 0
        invariant
            start.len() + 32 <= usize::MAX,
            start.len() <= out@.len() < start.len() + 32,
            out@.len() % 32 != 0 ==> out@.len() - start.len() < (32 - start.len() % 32) % 32,
            out@.len() % 32 == 0 ==> out@.len() - start.len() == (32 - start.len() % 32) % 32,
            out@ == start + spec_zero_bytes((out@.len() - start.len()) as nat),
        decreases start.len() + 32 - out@.len(),
    {
        out.push(0);
        proof {
            assert(out@ =~= start + spec_zero_bytes((out@.len() - start.len()) as nat));
        }
    }
    proof {
        assert(spec_pad32(start.len()) =~= spec_zero_bytes((out@.len() - start.len()) as nat));
    }
}

/// Frame `input` as the single data page of section `number`, to be
/// written at file offset `page_offset`. Fails exactly when the
/// compressor refuses the input (lengths 1 to 3).
pub fn build_section(input: &[u8], number: u32, page_offset: u32) -> (r: Result<BuiltSection>)
    requires
        input@.len() + 1024 <= usize::MAX / 2,
    ensures
        match spec_compress(input@) {
            Ok(c) => r matches Ok(b) && b.bytes@ == spec_page(input@, c, number, page_offset)
                && b.compressed_size == c.len() as u32 && b.decompressed_size == input@.len() as u32,
            Err(e) => r == Err::<BuiltSection, Error>(e),
        },
{
    proof {
        lemma_compress_len(input@);
    }
    let compressed = compress(input)?;
    let comp = compressed.len() as u32;
    let decomp = input.len() as u32;
    let data_sum = page_checksum(0, compressed.as_slice());
    let mut plain: Vec<u8> = Vec::new();
    push_u32_le(&mut plain, DATA_PAGE_TYPE);
    push_u32_le(&mut plain, number);
    push_u32_le(&mut plain, comp);
    push_u32_le(&mut plain, decomp);
    push_u32_le(&mut plain, 0);
    push_u32_le(&mut plain, 0);
    push_u32_le(&mut plain, 0);
    push_u32_le(&mut plain, data_sum);
    proof {
        assert(plain@ =~= spec_page_header(number, comp, decomp, 0, data_sum));
    }
    let header_sum = page_checksum(data_sum, plain.as_slice());
    let m = PAGE_MASK ^ page_offset;
    let mut out: Vec<u8> = Vec::new();
    push_u32_le(&mut out, DATA_PAGE_TYPE ^ m);
    push_u32_le(&mut out, number ^ m);
    push_u32_le(&mut out, comp ^ m);
    push_u32_le(&mut out, decomp ^ m);
    push_u32_le(&mut out, 0u32 ^ m);
    push_u32_le(&mut out, 0u32 ^ m);
    push_u32_le(&mut out, header_sum ^ m);
    push_u32_le(&mut out, data_sum ^ m);
    push_bytes(&mut out, compressed.as_slice());
    proof {
        assert(out@ =~= spec_masked_header(number, comp, decomp, header_sum, data_sum, m) + compressed@);
    }
    pad_to_32(&mut out);
    Ok(BuiltSection { bytes: out, compressed_size: comp, decompressed_size: decomp })
}

/// A page holds its LZ77 stream right after the 32-byte header.
proof fn lemma_page_holds_stream(input: Seq<u8>, c: Seq<u8>, number: u32, offset: u32)
    ensures
        spec_page(input, c, number, offset).subrange(32, 32 + c.len() as int) == c,
{
    let comp = c.len() as u32;
    let decomp = input.len() as u32;
    let data_sum = spec_page_checksum(0, c);
    let header_sum = spec_page_checksum(data_sum, spec_page_header(number, comp, decomp, 0, data_sum));
    let h = spec_masked_header(number, comp, decomp, header_sum, data_sum, PAGE_MASK ^ offset);
    let framed = h + c;
    assert(h.len() == 32);
    assert(framed.subrange(32, 32 + c.len() as int) =~= c);
    assert((framed + spec_pad32(framed.len())).subrange(32, 32 + c.len() as int) =~= c);
}

/// Every page holds its section's LZ77 stream just after the 32-byte
/// header, and that stream decompresses to the section's bytes.
pub proof fn lemma_page_payload_roundtrip(input: Seq<u8>, number: u32, offset: u32, limits: DecompressLimits)
    requires
        !(1 <= input.len() <= 3),
        input.len() <= limits.max_output_bytes,
        input.len() <= isize::MAX,
    ensures
        spec_compress(input) matches Ok(c) && spec_page(input, c, number, offset).subrange(32, 32 + c.len() as int) == c
            && spec_decompress(c, limits) == Ok::<Seq<u8>, Error>(input),
{
    lemma_compress_roundtrip(input, limits);
    lemma_page_holds_stream(input, spec_compress(input).unwrap(), number, offset);
}

} // verus!
