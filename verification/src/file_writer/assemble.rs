//! The last stages of the writer: the file-open header with its CRC-32
//! spliced in, and the bytes of the whole file.
//!
//! ```text
//! 0x00  16-byte version block
//! 0x10  zeros
//! 0x80  0x6C-byte file-open header, XORed with the magic sequence
//! 0xEC  zeros
//! 0x100 data pages, Section Page Map page, Section Info page
//! ```
use vstd::prelude::*;

use crate::cipher::{lemma_xor_magic_involution, spec_xor_magic, xor_with_magic, MAGIC_LEN};
use crate::crc::{embed_crc32, spec_crc32, spec_zero_slot};
use crate::error::{Error, Result};
use crate::file_writer::scaffold::NamedBuiltSection;
use crate::file_writer::system_pages::{
    build_system_pages, spec_concat, spec_full_page_map, spec_section_info, spec_system_page, SystemPageAssembly,
    PAGE_MAP_TYPE, SECTION_MAP_TYPE,
};
use crate::file_writer::{build_version_header, lemma_magic_roundtrip, spec_version_header};
use crate::header::{spec_common, spec_common_parse, spec_decrypted_block, spec_file_id, spec_magic_array, CommonHeader};
use crate::le::{
    le_write_u32, le_write_u64, lemma_le32_roundtrip, lemma_le64_roundtrip, lemma_le_at, push_bytes, spec_le32,
    spec_le32_value, spec_le64, spec_le64_value, spec_splice, spec_zero_bytes, zero_bytes,
};
use crate::version::Version;

verus! {

/// The file-open header before its CRC: the file id and its NUL; the
/// last page's number at 0x28 and the offset just past it at 0x2C; the
/// page count at 0x40; the page map's number at 0x50 and its address
/// (its file offset less 0x100) at 0x54; the section info's number at
/// 0x5C; zeros elsewhere, the CRC slot at 0x68 included.
pub open spec fn spec_plain_open_header(last_page: u32, last_end: u64, pages: u32, map_page: u32, map_addr: u64) -> Seq<u8> {
    spec_file_id() + spec_zero_bytes(0x1D) + spec_le32(last_page) + spec_le64(last_end) + spec_zero_bytes(12)
        + spec_le32(pages) + spec_zero_bytes(12) + spec_le32(map_page) + spec_le64(map_addr) + spec_le32(last_page)
        + spec_zero_bytes(12)
}

/// The file-open header: the plain header with the CRC-32 of its 0x6C
/// bytes (the CRC slot zero), from seed 0, at 0x68.
pub open spec fn spec_open_header(plain: Seq<u8>) -> Seq<u8> {
    plain.take(0x68) + spec_le32(spec_crc32(0, plain))
}

/// The file-open header for an assembly of `pages` pages in all.
pub open spec fn spec_header_of(a: SystemPageAssembly, pages: u32) -> Seq<u8> {
    spec_open_header(
        spec_plain_open_header(
            a.section_info_page_number as u32,
            (a.section_info_file_offset + a.section_info_bytes@.len()) as u64,
            pages,
            a.page_map_page_number as u32,
            if a.page_map_file_offset >= 0x100 { (a.page_map_file_offset - 0x100) as u64 } else { 0 },
        ),
    )
}

/// Build the decrypted file-open header of an assembly of
/// `total_pages` pages.
fn build_decrypted_file_open_header(a: &SystemPageAssembly, total_pages: u32) -> (block: Vec<u8>)
    requires
        a.section_info_file_offset + a.section_info_bytes@.len() <= u64::MAX,
    ensures
        block@ == spec_header_of(*a, total_pages),
        block@.len() == MAGIC_LEN,
{
    let mut block = zero_bytes(MAGIC_LEN);
    let id: [u8; 11] = [0x41, 0x63, 0x46, 0x73, 0x73, 0x46, 0x63, 0x41, 0x4A, 0x4D, 0x42];
    let mut k: usize = 0;
    while k < 11
        invariant
            k <= 11,
            id@ == spec_file_id(),
            block@.len() == MAGIC_LEN,
            block@ == id@.take(k as int) + spec_zero_bytes((MAGIC_LEN - k) as nat),
        decreases 11 - k,
    {
        block.set(k, id[k]);
        k += 1;
        proof {
            assert(block@ =~= id@.take(k as int) + spec_zero_bytes((MAGIC_LEN - k) as nat));
        }
    }
    let last_page = a.section_info_page_number as u32;
    let last_end = a.section_info_file_offset + a.section_info_bytes.len() as u64;
    let map_page = a.page_map_page_number as u32;
    let map_addr = a.page_map_file_offset.saturating_sub(0x100);
    le_write_u32(&mut block, 0x28, last_page);
    le_write_u64(&mut block, 0x2C, last_end);
    le_write_u32(&mut block, 0x40, total_pages);
    le_write_u32(&mut block, 0x50, map_page);
    le_write_u64(&mut block, 0x54, map_addr);
    le_write_u32(&mut block, 0x5C, last_page);
    let ghost plain = spec_plain_open_header(last_page, last_end, total_pages, map_page, map_addr);
    proof {
        assert(block@ =~= plain);
        assert(spec_zero_slot(plain, 0x68) =~= plain);
    }
    let c = embed_crc32(&mut block, 0x68, 0);
    proof {
        assert(block@ =~= spec_open_header(plain));
    }
    block
}

/// The bytes of a file of release `version` with the given data pages
/// and system pages `map` and `info`.
pub open spec fn spec_file(version: Version, built: Seq<NamedBuiltSection>, map: Seq<u8>, info: Seq<u8>) -> Seq<u8> {
    let concat = spec_concat(built);
    let plain = spec_plain_open_header(
        (built.len() + 2) as u32,
        (0x100 + concat.len() + map.len() + info.len()) as u64,
        (built.len() + 2) as u32,
        (built.len() + 1) as u32,
        concat.len() as u64,
    );
    spec_version_header(version) + spec_zero_bytes(0x70) + spec_xor_magic(spec_open_header(plain)) + spec_zero_bytes(
        0x14,
    ) + concat + map + info
}

/// The system pages of `built`: the section info of its descriptions,
/// and a page map listing both pages with their own sizes.
pub open spec fn spec_system_pages_of(built: Seq<NamedBuiltSection>, map: Seq<u8>, info: Seq<u8>) -> bool {
    &&& spec_system_page(SECTION_MAP_TYPE, spec_section_info(built)) == Ok::<Seq<u8>, Error>(info)
    &&& spec_system_page(PAGE_MAP_TYPE, spec_full_page_map(built, map.len() as u32, info.len() as u32)) == Ok::<
        Seq<u8>,
        Error,
    >(map)
}

/// Write a whole R2004-family file: the version block, the encrypted
/// file-open header, then the data pages and the two system pages.
/// Any other release is refused as unsupported.
pub fn assemble_dwg_bytes(built: &[NamedBuiltSection], version: Version) -> (r: Result<Vec<u8>>)
    requires
        built@.len() + 2 <= i32::MAX,
        built@.len() * 256 + 4096 <= usize::MAX / 2,
        spec_concat(built@).len() <= usize::MAX / 4,
    ensures
        !version.spec_is_r2004_family() ==> r matches Err(Error::Unsupported { .. }),
        version.spec_is_r2004_family() ==> (r matches Ok(v) && exists|map: Seq<u8>, info: Seq<u8>|
            spec_system_pages_of(built@, map, info) && v@ == spec_file(version, built@, map, info)),
{
    if !version.is_r2004_family() {
        return Err(
            Error::Unsupported {
                feature: "assemble_dwg_bytes: only the R2004 family (R2004/R2010/R2013/R2018) can be written".to_string(),
            },
        );
    }
    let assembly = build_system_pages(built)?;
    let total_pages = (built.len() as u32) + 2;
    let decrypted = build_decrypted_file_open_header(&assembly, total_pages);

    let mut out: Vec<u8> = Vec::new();
    let v_header = build_version_header(version);
    push_bytes(&mut out, &v_header);
    let pad = zero_bytes(0x70);
    push_bytes(&mut out, pad.as_slice());
    let encrypted = xor_with_magic(decrypted.as_slice());
    push_bytes(&mut out, encrypted.as_slice());
    let gap = zero_bytes(0x14);
    push_bytes(&mut out, gap.as_slice());
    push_bytes(&mut out, assembly.data_pages_concat.as_slice());
    push_bytes(&mut out, assembly.page_map_bytes.as_slice());
    push_bytes(&mut out, assembly.section_info_bytes.as_slice());
    proof {
        let map = assembly.page_map_bytes@;
        let info = assembly.section_info_bytes@;
        assert(spec_system_pages_of(built@, map, info));
        assert(spec_header_of(assembly, total_pages) == spec_open_header(
            spec_plain_open_header(
                (built@.len() + 2) as u32,
                (0x100 + spec_concat(built@).len() + map.len() + info.len()) as u64,
                (built@.len() + 2) as u32,
                (built@.len() + 1) as u32,
                spec_concat(built@).len() as u64,
            ),
        ));
        assert(out@ =~= spec_file(version, built@, map, info));
    }
    Ok(out)
}

/// A 32-bit field written at `at` reads back.
proof fn lemma_field32(b: Seq<u8>, at: int, v: u32)
    requires
        0 <= at,
        at + 4 <= b.len(),
        b.subrange(at, at + 4) == spec_le32(v),
    ensures
        spec_le32_value(b, at) == v,
{
    lemma_le_at(b, at);
    lemma_le32_roundtrip(v);
}

/// A 64-bit field written at `at` reads back.
proof fn lemma_field64(b: Seq<u8>, at: int, v: u64)
    requires
        0 <= at,
        at + 8 <= b.len(),
        b.subrange(at, at + 8) == spec_le64(v),
    ensures
        spec_le64_value(b, at) == v,
{
    lemma_le_at(b, at);
    lemma_le64_roundtrip(v);
}

/// Every field of a written file-open header reads back, and its CRC
/// is that of the block with its slot zeroed.
proof fn lemma_open_header_fields(last_page: u32, last_end: u64, pages: u32, map_page: u32, map_addr: u64)
    ensures
        ({
            let hdr = spec_open_header(spec_plain_open_header(last_page, last_end, pages, map_page, map_addr));
            &&& hdr.len() == 0x6C
            &&& hdr.subrange(0, 11) == spec_file_id()
            &&& spec_le32_value(hdr, 0x28) == last_page
            &&& spec_le64_value(hdr, 0x2C) == last_end
            &&& spec_le32_value(hdr, 0x40) == pages
            &&& spec_le32_value(hdr, 0x50) == map_page
            &&& spec_le64_value(hdr, 0x54) == map_addr
            &&& spec_le32_value(hdr, 0x5C) == last_page
            &&& spec_le32_value(hdr, 0x68) == spec_crc32(0, spec_zero_slot(hdr, 0x68))
        }),
{
    let plain = spec_plain_open_header(last_page, last_end, pages, map_page, map_addr);
    let hdr = spec_open_header(plain);
    assert(plain.len() == 0x6C);
    assert(hdr.subrange(0, 11) =~= spec_file_id());
    assert(hdr.subrange(0x28, 0x2C) =~= spec_le32(last_page));
    lemma_field32(hdr, 0x28, last_page);
    assert(hdr.subrange(0x2C, 0x34) =~= spec_le64(last_end));
    lemma_field64(hdr, 0x2C, last_end);
    assert(hdr.subrange(0x40, 0x44) =~= spec_le32(pages));
    lemma_field32(hdr, 0x40, pages);
    assert(hdr.subrange(0x50, 0x54) =~= spec_le32(map_page));
    lemma_field32(hdr, 0x50, map_page);
    assert(hdr.subrange(0x54, 0x5C) =~= spec_le64(map_addr));
    lemma_field64(hdr, 0x54, map_addr);
    assert(hdr.subrange(0x5C, 0x60) =~= spec_le32(last_page));
    lemma_field32(hdr, 0x5C, last_page);
    assert(spec_zero_slot(hdr, 0x68) =~= plain);
    assert(hdr.subrange(0x68, 0x6C) =~= spec_le32(spec_crc32(0, plain)));
    lemma_field32(hdr, 0x68, spec_crc32(0, plain));
}

/// A written file opens with its release's magic and decrypts, at
/// 0x80, to the header that was written.
proof fn lemma_file_layout(version: Version, built: Seq<NamedBuiltSection>, map: Seq<u8>, info: Seq<u8>, hdr: Seq<u8>)
    requires
        hdr.len() == 0x6C,
        hdr == spec_open_header(
            spec_plain_open_header(
                (built.len() + 2) as u32,
                (0x100 + spec_concat(built).len() + map.len() + info.len()) as u64,
                (built.len() + 2) as u32,
                (built.len() + 1) as u32,
                spec_concat(built).len() as u64,
            ),
        ),
    ensures
        ({
            let f = spec_file(version, built, map, info);
            &&& f.len() == 0x100 + spec_concat(built).len() + map.len() + info.len()
            &&& spec_decrypted_block(f) == hdr
            &&& spec_magic_array(f)@ == version.spec_magic()
        }),
{
    let f = spec_file(version, built, map, info);
    assert(f.subrange(0x80, 0xEC) =~= spec_xor_magic(hdr));
    lemma_xor_magic_involution(hdr);
    assert(spec_magic_array(f)@ =~= version.spec_magic());
}

/// What the writer assembles, the header parser reads back: the magic
/// names the release written, the decrypted block opens with the file
/// id, each page number and address the writer put in the block is read
/// back (the last page's end being the file's length), and the stored
/// CRC is the CRC-32 of the block with its slot zeroed.
pub proof fn lemma_written_header_reads_back(version: Version, built: Seq<NamedBuiltSection>, map: Seq<u8>, info: Seq<u8>)
    requires
        version.spec_is_r2004_family(),
        0x100 + spec_concat(built).len() + map.len() + info.len() <= u64::MAX,
        built.len() + 2 <= u32::MAX,
    ensures
        ({
            let f = spec_file(version, built, map, info);
            let blk = spec_decrypted_block(f);
            &&& f.len() >= 0xEC
            &&& spec_common_parse(f) == Ok::<CommonHeader, Error>(spec_common(f, version))
            &&& blk.subrange(0, 11) == spec_file_id()
            &&& spec_le32_value(blk, 0x28) == built.len() + 2
            &&& spec_le64_value(blk, 0x2C) == f.len()
            &&& spec_le32_value(blk, 0x40) == built.len() + 2
            &&& spec_le32_value(blk, 0x50) == built.len() + 1
            &&& spec_le64_value(blk, 0x54) == spec_concat(built).len()
            &&& spec_le32_value(blk, 0x5C) == built.len() + 2
            &&& spec_le32_value(blk, 0x68) == spec_crc32(0, spec_zero_slot(blk, 0x68))
        }),
{
    let concat = spec_concat(built);
    let n = built.len();
    let last_end = (0x100 + concat.len() + map.len() + info.len()) as u64;
    lemma_open_header_fields((n + 2) as u32, last_end, (n + 2) as u32, (n + 1) as u32, concat.len() as u64);
    let hdr = spec_open_header(spec_plain_open_header((n + 2) as u32, last_end, (n + 2) as u32, (n + 1) as u32, concat.len() as u64));
    lemma_file_layout(version, built, map, info, hdr);
    let f = spec_file(version, built, map, info);
    lemma_magic_roundtrip(version, spec_magic_array(f));
}

} // verus!
