//! The third stage of the writer: the Section Page Map and Section
//! Info system pages, and the data pages laid end to end.
//!
//! ```text
//! system page   u32 page type, u32 body length, u32 LZ77 length,
//!               u32 compression type (2), u32 checksum (0); the LZ77
//!               stream of the body; zeros to a multiple of 32 bytes
//! page map      per page: i32 number, u32 size (a negative number
//!               adds four zero u32s)
//! section info  u32 count, u32 2, u32 0x7400, u32 0, u32 0; per
//!               section: u64 size, u32 page count, u32 max page size,
//!               u32 0, u32 compressed, u32 section id, u32 encrypted,
//!               64-byte zero-padded name, then per page u32 number,
//!               u32 data size, u64 start offset
//! ```
use vstd::prelude::*;

use vstd::string::StringSliceAdditionalSpecFns;
use vstd::utf8::encode_utf8;

use crate::error::{Error, Result};
use crate::file_writer::scaffold::NamedBuiltSection;
use crate::le::{le_write_u32, push_bytes, push_u32_le, push_u64_le, spec_le32, spec_le64, spec_splice, spec_zero_bytes, zero_bytes};
use crate::lz77_encode::{compress, lemma_ext_bytes_len, spec_compress};
use crate::section_writer::{pad_to_32, spec_pad32};

verus! {

/// Page type of a Section Page Map system page.
pub const PAGE_MAP_TYPE: u32 = 0x4163_0E3B;

/// Page type of a Section Info system page.
pub const SECTION_MAP_TYPE: u32 = 0x4163_003B;

/// Length of a system page's plaintext header.
pub const SYSTEM_HEADER_SIZE: usize = 0x14;

/// Compression type of every system page written: LZ77.
pub const COMP_TYPE_LZ77: u32 = 2;

/// Largest decompressed data page, as written in every description.
pub const MAX_DECOMP_PAGE_SIZE: u32 = 0x7400;

/// One row of the Section Page Map.
#[derive(Debug, Clone, Copy)]
pub struct PageMapRow {
    /// Page number; negative for a gap.
    pub number: i32,
    pub size: u32,
}

/// A row's bytes: number and size, and four zero words after a gap.
pub open spec fn spec_row_bytes(r: PageMapRow) -> Seq<u8> {
    spec_le32(r.number as u32) + spec_le32(r.size) + if r.number < 0 { spec_zero_bytes(16) } else { Seq::empty() }
}

/// The page map body: the rows' bytes in order.
pub open spec fn spec_page_map(rows: Seq<PageMapRow>) -> Seq<u8>
    decreases rows.len(),
{
    if rows.len() == 0 {
        Seq::empty()
    } else {
        spec_page_map(rows.drop_last()) + spec_row_bytes(rows.last())
    }
}

/// Encode the page map body.
fn encode_page_map(rows: &[PageMapRow]) -> (out: Vec<u8>)
    ensures
        out@ == spec_page_map(rows@),
{
    let mut out: Vec<u8> = Vec::new();
    let mut i: usize = 0;
    while i < rows.len()
        invariant
            i <= rows@.len(),
            out@ == spec_page_map(rows@.take(i as int)),
        decreases rows@.len() - i,
    {
        let row = rows[i];
        proof {
            assert(rows@.take(i + 1).drop_last() =~= rows@.take(i as int));
        }
        push_u32_le(&mut out, row.number as u32);
        push_u32_le(&mut out, row.size);
        if row.number < 0 {
            let z = zero_bytes(16);
            push_bytes(&mut out, z.as_slice());
        } else {
            assert(out@ =~= out@ + Seq::<u8>::empty());
        }
        i += 1;
    }
    proof {
        assert(rows@.take(rows@.len() as int) =~= rows@);
    }
    out
}

/// One page of a section, as its description lists it.
#[derive(Debug, Clone, Copy)]
pub struct SectionPageRef {
    pub page_number: u32,
    pub data_size: u32,
    pub start_offset: u64,
}

/// The page references' bytes.
pub open spec fn spec_refs(refs: Seq<SectionPageRef>) -> Seq<u8>
    decreases refs.len(),
{
    if refs.len() == 0 {
        Seq::empty()
    } else {
        let r = refs.last();
        spec_refs(refs.drop_last()) + spec_le32(r.page_number) + spec_le32(r.data_size) + spec_le64(r.start_offset)
    }
}

/// One section's description.
#[derive(Debug, Clone)]
pub struct SectionInfoEntry {
    pub size: u64,
    pub max_decomp: u32,
    pub compressed: u32,
    pub section_id: u32,
    pub encrypted: u32,
    pub name: String,
    pub page_refs: Vec<SectionPageRef>,
}

/// A name in its 64-byte field: cut to 64 bytes, or padded with zeros.
pub open spec fn spec_name_field(b: Seq<u8>) -> Seq<u8> {
    if b.len() >= 64 {
        b.take(64)
    } else {
        b + spec_zero_bytes((64 - b.len()) as nat)
    }
}

/// A description's bytes, given its fields.
#[verifier::opaque]
pub open spec fn spec_description(
    size: u64,
    max_decomp: u32,
    compressed: u32,
    section_id: u32,
    encrypted: u32,
    name: Seq<u8>,
    refs: Seq<SectionPageRef>,
) -> Seq<u8> {
    spec_le64(size) + spec_le32(refs.len() as u32) + spec_le32(max_decomp) + spec_le32(0) + spec_le32(compressed)
        + spec_le32(section_id) + spec_le32(encrypted) + spec_name_field(name) + spec_refs(refs)
}

/// An entry's description bytes.
pub open spec fn spec_entry_bytes(e: SectionInfoEntry) -> Seq<u8> {
    spec_description(e.size, e.max_decomp, e.compressed, e.section_id, e.encrypted, encode_utf8(e.name@), e.page_refs@)
}

/// The descriptions' bytes, in order.
pub open spec fn spec_entries_bytes(es: Seq<SectionInfoEntry>) -> Seq<u8>
    decreases es.len(),
{
    if es.len() == 0 {
        Seq::empty()
    } else {
        spec_entries_bytes(es.drop_last()) + spec_entry_bytes(es.last())
    }
}

/// The five-word header of the Section Info body.
pub open spec fn spec_info_header(count: nat) -> Seq<u8> {
    spec_le32(count as u32) + spec_le32(COMP_TYPE_LZ77) + spec_le32(MAX_DECOMP_PAGE_SIZE) + spec_le32(0) + spec_le32(0)
}

/// Append a name in its 64-byte field.
fn push_name_field(out: &mut Vec<u8>, nb: &[u8])
    ensures
        final(out)@ == old(out)@ + spec_name_field(nb@),
{
    let take: usize = if nb.len() < 64 { nb.len() } else { 64 };
    let mut k: usize = 0;
    while k < take
        invariant
            take <= nb@.len(),
            take <= 64,
            k <= take,
            out@ == old(out)@ + nb@.take(k as int),
        decreases take - k,
    {
        out.push(nb[k]);
        k += 1;
        proof {
            assert(out@ =~= old(out)@ + nb@.take(k as int));
        }
    }
    let z = zero_bytes(64 - take);
    push_bytes(out, z.as_slice());
    proof {
        if nb@.len() < 64 {
            assert(nb@.take(take as int) =~= nb@);
        }
        assert(out@ =~= old(out)@ + spec_name_field(nb@));
    }
}

/// Append the page references.
fn push_refs(out: &mut Vec<u8>, refs: &Vec<SectionPageRef>)
    ensures
        final(out)@ == old(out)@ + spec_refs(refs@),
{
    let mut j: usize = 0;
    while j < refs.len()
        invariant
            j <= refs@.len(),
            out@ == old(out)@ + spec_refs(refs@.take(j as int)),
        decreases refs@.len() - j,
    {
        let r = refs[j];
        proof {
            assert(refs@.take(j + 1).drop_last() =~= refs@.take(j as int));
        }
        push_u32_le(out, r.page_number);
        push_u32_le(out, r.data_size);
        push_u64_le(out, r.start_offset);
        j += 1;
        proof {
            assert(out@ =~= old(out)@ + spec_refs(refs@.take(j as int)));
        }
    }
    proof {
        assert(refs@.take(refs@.len() as int) =~= refs@);
    }
}

fn push_description(out: &mut Vec<u8>, e: &SectionInfoEntry)
    ensures
        final(out)@ == old(out)@ + spec_entry_bytes(*e),
{
    reveal(spec_description);
    push_u64_le(out, e.size);
    push_u32_le(out, e.page_refs.len() as u32);
    push_u32_le(out, e.max_decomp);
    push_u32_le(out, 0);
    push_u32_le(out, e.compressed);
    push_u32_le(out, e.section_id);
    push_u32_le(out, e.encrypted);
    push_name_field(out, e.name.as_str().as_bytes());
    push_refs(out, &e.page_refs);
    proof {
        assert(out@ =~= old(out)@ + spec_entry_bytes(*e));
    }
}

/// Encode the Section Info body.
fn encode_section_info(entries: &[SectionInfoEntry]) -> (out: Vec<u8>)
    ensures
        out@ == spec_info_header(entries@.len()) + spec_entries_bytes(entries@),
{
    let mut out: Vec<u8> = Vec::new();
    push_u32_le(&mut out, entries.len() as u32);
    push_u32_le(&mut out, COMP_TYPE_LZ77);
    push_u32_le(&mut out, MAX_DECOMP_PAGE_SIZE);
    push_u32_le(&mut out, 0);
    push_u32_le(&mut out, 0);
    let ghost head = out@;
    proof {
        assert(head =~= spec_info_header(entries@.len()));
    }
    let mut i: usize = 0;
    while i < entries.len()
        invariant
            i <= entries@.len(),
            out@ == head + spec_entries_bytes(entries@.take(i as int)),
        decreases entries@.len() - i,
    {
        proof {
            assert(entries@.take(i + 1).drop_last() =~= entries@.take(i as int));
        }
        push_description(&mut out, &entries[i]);
        i += 1;
        proof {
            assert(out@ =~= head + spec_entries_bytes(entries@.take(i as int)));
        }
    }
    proof {
        assert(entries@.take(entries@.len() as int) =~= entries@);
    }
    out
}

/// A system page framing `body` as page type `t`.
#[verifier::opaque]
pub open spec fn spec_system_page(t: u32, body: Seq<u8>) -> core::result::Result<Seq<u8>, Error> {
    match spec_compress(body) {
        Ok(c) => {
            let framed = spec_le32(t) + spec_le32(body.len() as u32) + spec_le32(c.len() as u32) + spec_le32(
                COMP_TYPE_LZ77,
            ) + spec_le32(0) + c;
            Ok(framed + spec_pad32(framed.len()))
        },
        Err(e) => Err(e),
    }
}

/// Frame `body` as a system page of type `page_type`.
fn build_system_page(page_type: u32, body: &[u8]) -> (r: Result<Vec<u8>>)
    requires
        body@.len() + 1024 <= usize::MAX / 2,
    ensures
        match spec_system_page(page_type, body@) {
            Ok(p) => r matches Ok(v) && v@ == p,
            Err(e) => r == Err::<Vec<u8>, Error>(e),
        },
{
    reveal(spec_system_page);
    proof {
        if body@.len() > 18 {
            lemma_ext_bytes_len((body@.len() - 18) as nat);
        }
    }
    let compressed = compress(body)?;
    let decomp_size = body.len() as u32;
    let comp_size = compressed.len() as u32;
    let mut out = zero_bytes(SYSTEM_HEADER_SIZE);
    le_write_u32(&mut out, 0, page_type);
    le_write_u32(&mut out, 4, decomp_size);
    le_write_u32(&mut out, 8, comp_size);
    le_write_u32(&mut out, 12, COMP_TYPE_LZ77);
    le_write_u32(&mut out, 16, 0);
    proof {
        assert(out@ =~= spec_le32(page_type) + spec_le32(decomp_size) + spec_le32(comp_size) + spec_le32(COMP_TYPE_LZ77)
            + spec_le32(0));
    }
    push_bytes(&mut out, compressed.as_slice());
    pad_to_32(&mut out);
    Ok(out)
}

/// What the third stage produces: both system pages and the data
/// pages laid end to end.
#[derive(Debug, Clone)]
pub struct SystemPageAssembly {
    /// The whole Section Page Map page.
    pub page_map_bytes: Vec<u8>,
    /// The whole Section Info page.
    pub section_info_bytes: Vec<u8>,
    /// Every data page in order, the first meant for file offset 0x100.
    pub data_pages_concat: Vec<u8>,
    /// File offset of the Section Page Map page.
    pub page_map_file_offset: u64,
    /// File offset of the Section Info page.
    pub section_info_file_offset: u64,
    /// Page number of the Section Page Map.
    pub page_map_page_number: i32,
    /// Page number of the Section Info.
    pub section_info_page_number: i32,
}

/// The data pages laid end to end.
pub open spec fn spec_concat(built: Seq<NamedBuiltSection>) -> Seq<u8>
    decreases built.len(),
{
    if built.len() == 0 {
        Seq::empty()
    } else {
        spec_concat(built.drop_last()) + built.last().built.bytes@
    }
}

/// The page map rows of the data pages: page `i + 1` of each page's
/// length.
pub open spec fn spec_rows(built: Seq<NamedBuiltSection>) -> Seq<PageMapRow> {
    Seq::new(built.len(), |i: int| PageMapRow { number: (i + 1) as i32, size: built[i].built.bytes@.len() as u32 })
}

/// The description of data page `i`: one page of the section's
/// compressed length, starting at offset 0.
pub open spec fn spec_built_description(b: NamedBuiltSection, i: int) -> Seq<u8> {
    spec_description(
        b.built.decompressed_size as u64,
        MAX_DECOMP_PAGE_SIZE,
        COMP_TYPE_LZ77,
        b.number,
        0,
        encode_utf8(b.name@),
        seq![SectionPageRef { page_number: ((i + 1) as i32) as u32, data_size: b.built.compressed_size, start_offset: 0 }],
    )
}

/// The descriptions of the data pages, in order.
pub open spec fn spec_built_descriptions(built: Seq<NamedBuiltSection>) -> Seq<u8>
    decreases built.len(),
{
    if built.len() == 0 {
        Seq::empty()
    } else {
        spec_built_descriptions(built.drop_last()) + spec_built_description(built.last(), built.len() - 1)
    }
}

/// The Section Info body for the data pages.
pub open spec fn spec_section_info(built: Seq<NamedBuiltSection>) -> Seq<u8> {
    spec_info_header(built.len()) + spec_built_descriptions(built)
}

/// The page map body once the two system pages, numbered after the
/// data pages, are listed with sizes `pm` and `si`.
pub open spec fn spec_full_page_map(built: Seq<NamedBuiltSection>, pm: u32, si: u32) -> Seq<u8> {
    spec_page_map(
        spec_rows(built).push(PageMapRow { number: (built.len() + 1) as i32, size: pm }).push(
            PageMapRow { number: (built.len() + 2) as i32, size: si },
        ),
    )
}

/// The length of a page map whose page numbers are all positive: eight
/// bytes a row.
proof fn lemma_page_map_len(rows: Seq<PageMapRow>)
    requires
        forall|i: int| 0 <= i < rows.len() ==> #[trigger] rows[i].number >= 0,
    ensures
        spec_page_map(rows).len() == 8 * rows.len(),
    decreases rows.len(),
{
    if rows.len() > 0 {
        lemma_page_map_len(rows.drop_last());
    }
}

/// A system page's length depends on the length of its body alone.
proof fn lemma_system_page_len(t1: u32, a: Seq<u8>, t2: u32, b: Seq<u8>)
    requires
        a.len() == b.len(),
        a.len() > 3,
    ensures
        spec_system_page(t1, a) matches Ok(pa) && spec_system_page(t2, b) matches Ok(pb) && pa.len() == pb.len(),
{
    reveal(spec_system_page);
}

/// With every data page numbered positively, the full page map holds
/// eight bytes a page.
proof fn lemma_full_page_map_len(built: Seq<NamedBuiltSection>, pm: u32, si: u32)
    requires
        built.len() + 2 <= i32::MAX,
    ensures
        spec_full_page_map(built, pm, si).len() == 8 * (built.len() + 2),
{
    let rows = spec_rows(built).push(PageMapRow { number: (built.len() + 1) as i32, size: pm }).push(
        PageMapRow { number: (built.len() + 2) as i32, size: si },
    );
    assert forall|i: int| 0 <= i < rows.len() implies #[trigger] rows[i].number >= 0 by {
        if i < built.len() {
            assert(rows[i] == spec_rows(built)[i]);
        }
    }
    lemma_page_map_len(rows);
}

/// Every description of a data page is 112 bytes long.
proof fn lemma_descriptions_len(built: Seq<NamedBuiltSection>)
    ensures
        spec_built_descriptions(built).len() == 112 * built.len(),
    decreases built.len(),
{
    if built.len() > 0 {
        lemma_descriptions_len(built.drop_last());
        reveal(spec_description);
        let b = built.last();
        let name = encode_utf8(b.name@);
        assert(spec_name_field(name).len() == 64);
        let r = SectionPageRef { page_number: (built.len() as i32) as u32, data_size: b.built.compressed_size, start_offset: 0 };
        assert(seq![r].drop_last() =~= Seq::<SectionPageRef>::empty());
        assert(spec_refs(Seq::<SectionPageRef>::empty()) =~= Seq::<u8>::empty());
        assert(spec_refs(seq![r]).len() == 16);
    }
}

/// A system page is at most twice its body, plus a little.
proof fn lemma_system_page_bound(t: u32, body: Seq<u8>)
    requires
        body.len() > 3,
    ensures
        spec_system_page(t, body) matches Ok(p) && p.len() <= 2 * body.len() + 64,
{
    reveal(spec_system_page);
    if body.len() > 18 {
        lemma_ext_bytes_len((body.len() - 18) as nat);
    }
}

/// The data pages end to end, their page map rows, and their
/// descriptions.
fn lay_out_data_pages(built: &[NamedBuiltSection]) -> (r: (Vec<u8>, Vec<PageMapRow>, Vec<SectionInfoEntry>))
    requires
        built@.len() + 2 <= i32::MAX,
    ensures
        r.0@ == spec_concat(built@),
        r.1@ == spec_rows(built@),
        r.2@.len() == built@.len(),
        spec_entries_bytes(r.2@) == spec_built_descriptions(built@),
{
    let n = built.len();
    let mut data_pages_concat: Vec<u8> = Vec::new();
    let mut rows: Vec<PageMapRow> = Vec::new();
    let mut entries: Vec<SectionInfoEntry> = Vec::new();
    let mut i: usize = 0;
    while i < n
        invariant
            n == built@.len(),
            n + 2 <= i32::MAX,
            i <= n,
            data_pages_concat@ == spec_concat(built@.take(i as int)),
            rows@ == spec_rows(built@.take(i as int)),
            entries@.len() == i,
            spec_entries_bytes(entries@) == spec_built_descriptions(built@.take(i as int)),
        decreases n - i,
    {
        let b = &built[i];
        let page_number = (i + 1) as i32;
        let page_size = b.built.bytes.len() as u32;
        proof {
            assert(built@.take(i + 1).drop_last() =~= built@.take(i as int));
        }
        let ghost prev_entries = entries@;
        push_bytes(&mut data_pages_concat, b.built.bytes.as_slice());
        rows.push(PageMapRow { number: page_number, size: page_size });
        let page_ref = SectionPageRef { page_number: page_number as u32, data_size: b.built.compressed_size, start_offset: 0 };
        let mut refs: Vec<SectionPageRef> = Vec::new();
        refs.push(page_ref);
        let entry = SectionInfoEntry {
            size: b.built.decompressed_size as u64,
            max_decomp: MAX_DECOMP_PAGE_SIZE,
            compressed: COMP_TYPE_LZ77,
            section_id: b.number,
            encrypted: 0,
            name: b.name.clone(),
            page_refs: refs,
        };
        proof {
            assert(entry.page_refs@ =~= seq![page_ref]);
            assert(spec_entry_bytes(entry) == spec_built_description(built@[i as int], i as int));
        }
        entries.push(entry);
        i += 1;
        proof {
            assert(entries@.drop_last() =~= prev_entries);
            assert(rows@ =~= spec_rows(built@.take(i as int)));
        }
    }
    proof {
        assert(built@.take(n as int) =~= built@);
    }
    (data_pages_concat, rows, entries)
}

/// Build the page map and the section info until the sizes the page
/// map lists for the two are their own.
fn settle_system_pages(
    rows: &Vec<PageMapRow>,
    section_info_body: &Vec<u8>,
    Ghost(built): Ghost<Seq<NamedBuiltSection>>,
) -> (r: Result<(Vec<u8>, Vec<u8>)>)
    requires
        rows@ == spec_rows(built),
        built.len() * 256 + 4096 <= usize::MAX / 2,
        built.len() + 2 <= i32::MAX,
        section_info_body@ == spec_section_info(built),
    ensures
        r matches Ok((pm, si)) && {
            &&& spec_system_page(SECTION_MAP_TYPE, spec_section_info(built)) == Ok::<Seq<u8>, Error>(si@)
            &&& spec_system_page(PAGE_MAP_TYPE, spec_full_page_map(built, pm@.len() as u32, si@.len() as u32))
                == Ok::<Seq<u8>, Error>(pm@)
            &&& pm@.len() <= 16 * built.len() + 128
            &&& si@.len() <= 224 * built.len() + 104
        },
{
    let n = rows.len();
    let page_map_page_number = (n + 1) as i32;
    let section_info_page_number = (n + 2) as i32;
    let ghost probe = spec_full_page_map(built, 0, 0);
    proof {
        lemma_full_page_map_len(built, 0, 0);
        lemma_descriptions_len(built);
        lemma_system_page_bound(PAGE_MAP_TYPE, probe);
        lemma_system_page_bound(SECTION_MAP_TYPE, section_info_body@);
    }
    let ghost pm_len = spec_system_page(PAGE_MAP_TYPE, probe)->Ok_0.len();
    let ghost si_len = spec_system_page(SECTION_MAP_TYPE, section_info_body@)->Ok_0.len();
    let mut page_map_size_guess: u32 = 0x100;
    let mut section_info_size_guess: u32 = 0x200;
    loop
        invariant
            rows@ == spec_rows(built),
            n == built.len(),
            n * 256 + 4096 <= usize::MAX / 2,
            n + 2 <= i32::MAX,
            page_map_page_number == n + 1,
            section_info_page_number == n + 2,
            section_info_body@ == spec_section_info(built),
            section_info_body@.len() == 20 + 112 * n,
            probe == spec_full_page_map(built, 0, 0),
            probe.len() == 8 * (n + 2),
            spec_system_page(PAGE_MAP_TYPE, probe) matches Ok(p) && p.len() == pm_len,
            spec_system_page(SECTION_MAP_TYPE, section_info_body@) matches Ok(p) && p.len() == si_len,
            pm_len <= 16 * n + 128,
            si_len <= 224 * n + 104,
        decreases (if page_map_size_guess == pm_len as u32 && section_info_size_guess == si_len as u32 { 0int } else { 1int }),
    {
        let mut full_rows = rows.clone();
        full_rows.push(PageMapRow { number: page_map_page_number, size: page_map_size_guess });
        full_rows.push(PageMapRow { number: section_info_page_number, size: section_info_size_guess });
        proof {
            assert(full_rows@ =~= spec_rows(built).push(PageMapRow { number: (n + 1) as i32, size: page_map_size_guess }).push(
                PageMapRow { number: (n + 2) as i32, size: section_info_size_guess },
            ));
            lemma_full_page_map_len(built, page_map_size_guess, section_info_size_guess);
        }
        let page_map_body = encode_page_map(full_rows.as_slice());
        proof {
            lemma_system_page_len(PAGE_MAP_TYPE, page_map_body@, PAGE_MAP_TYPE, probe);
        }
        let page_map_bytes = match build_system_page(PAGE_MAP_TYPE, page_map_body.as_slice()) {
            Ok(v) => v,
            Err(e) => {
                return Err(e);
            },
        };
        let section_info_bytes = match build_system_page(SECTION_MAP_TYPE, section_info_body.as_slice()) {
            Ok(v) => v,
            Err(e) => {
                return Err(e);
            },
        };
        let new_pm = page_map_bytes.len() as u32;
        let new_si = section_info_bytes.len() as u32;
        if new_pm == page_map_size_guess && new_si == section_info_size_guess {
            return Ok((page_map_bytes, section_info_bytes));
        }
        page_map_size_guess = new_pm;
        section_info_size_guess = new_si;
    }
}

/// Build both system pages and lay out the data pages. The data pages
/// take page numbers 1, 2, ... in order from file offset 0x100; the
/// page map follows them as the next page, the section info after it.
/// The page map lists every page with its size, its own and the
/// section info's included: the sizes it records are those of the
/// pages returned.
pub fn build_system_pages(built: &[NamedBuiltSection]) -> (r: Result<SystemPageAssembly>)
    requires
        built@.len() + 2 <= i32::MAX,
        built@.len() * 256 + 4096 <= usize::MAX / 2,
        spec_concat(built@).len() <= usize::MAX / 2,
    ensures
        r matches Ok(a) && {
            &&& a.data_pages_concat@ == spec_concat(built@)
            &&& a.page_map_page_number == built@.len() + 1
            &&& a.section_info_page_number == built@.len() + 2
            &&& a.page_map_file_offset == 0x100 + spec_concat(built@).len()
            &&& a.section_info_file_offset == a.page_map_file_offset + a.page_map_bytes@.len()
            &&& spec_system_page(SECTION_MAP_TYPE, spec_section_info(built@)) == Ok::<Seq<u8>, Error>(
                a.section_info_bytes@,
            )
            &&& spec_system_page(
                PAGE_MAP_TYPE,
                spec_full_page_map(built@, a.page_map_bytes@.len() as u32, a.section_info_bytes@.len() as u32),
            ) == Ok::<Seq<u8>, Error>(a.page_map_bytes@)
            &&& a.page_map_bytes@.len() <= 16 * built@.len() + 128
            &&& a.section_info_bytes@.len() <= 224 * built@.len() + 104
        },
{
    let n = built.len();
    let (data_pages_concat, rows, entries) = lay_out_data_pages(built);
    let section_info_body = encode_section_info(entries.as_slice());
    let page_map_page_number = (n + 1) as i32;
    let section_info_page_number = (n + 2) as i32;
    let page_map_file_offset = 0x100 + data_pages_concat.len() as u64;
    let (page_map_bytes, section_info_bytes) = settle_system_pages(&rows, &section_info_body, Ghost(built@))?;
    let section_info_file_offset = page_map_file_offset + page_map_bytes.len() as u64;
    Ok(SystemPageAssembly {
        page_map_bytes,
        section_info_bytes,
        data_pages_concat,
        page_map_file_offset,
        section_info_file_offset,
        page_map_page_number,
        section_info_page_number,
    })
}

} // verus!
