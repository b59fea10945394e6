//! File header parsers for both DWG format families.
//!
//! The families agree on the first 0x15 bytes and diverge after them:
//!
//! - R13 to R15: a flat list of 9-byte section-locator records;
//! - R2004 and later: a 0x6C-byte block at offset 0x80, XORed with the
//!   sequence of [`crate::cipher`], that locates the section page map.
use vstd::prelude::*;

use vstd::string::StringExecFns;

use crate::cipher::{spec_xor_magic, xor_with_magic, MAGIC_LEN};
use crate::error::{Error, Result};
use crate::le::{
    le_read_u16, le_read_u32, le_read_u64, lemma_le_at, spec_le16_value, spec_le32_value, spec_le64_value,
};
use crate::section::{spec_kind_of_record, Section, SectionKind};
use crate::text::{push_decimal, spec_decimal_digits};
use crate::version::Version;

verus! {

/// The parsed prefix all DWG files share.
#[derive(Debug, Clone, Copy, PartialEq, Eq)]
pub struct CommonHeader {
    pub version: Version,
    /// Byte 0x0B: maintenance release version.
    pub maint_version: u8,
    /// Bytes 0x0D to 0x10: image seeker (R13 to R15) or preview address.
    pub image_seeker: u32,
    /// Bytes 0x13 and 0x14: the drawing code page.
    pub codepage: u16,
}

/// The common prefix of `b`, given its magic recognised as `version`.
pub open spec fn spec_common(b: Seq<u8>, version: Version) -> CommonHeader {
    CommonHeader {
        version,
        maint_version: b[0x0B],
        image_seeker: spec_le32_value(b, 0x0D),
        codepage: spec_le16_value(b, 0x13),
    }
}

/// The first six bytes of `b`, as an array.
pub open spec fn spec_magic_array(b: Seq<u8>) -> [u8; 6] {
    [b[0], b[1], b[2], b[3], b[4], b[5]]
}

/// What [`CommonHeader::parse`] gives for `b`.
pub open spec fn spec_common_parse(b: Seq<u8>) -> core::result::Result<CommonHeader, Error> {
    if b.len() < 0x15 {
        Err(Error::Truncated { offset: 0, wanted: 0x15, len: b.len() as u64 })
    } else {
        match Version::spec_from_magic(spec_magic_array(b)) {
            Err(e) => Err(e),
            Ok(v) => Ok(spec_common(b, v)),
        }
    }
}

impl CommonHeader {
    /// Parse the first 0x15 bytes that both families agree on.
    pub fn parse(bytes: &[u8]) -> (res: Result<CommonHeader>)
        ensures
            res == spec_common_parse(bytes@),
    {
        if bytes.len() < 0x15 {
            return Err(Error::Truncated { offset: 0, wanted: 0x15, len: bytes.len() as u64 });
        }
        let magic: [u8; 6] = [bytes[0], bytes[1], bytes[2], bytes[3], bytes[4], bytes[5]];
        assert(magic == spec_magic_array(bytes@));
        let version = match Version::from_magic(&magic) {
            Ok(v) => v,
            Err(e) => {
                return Err(e);
            },
        };
        proof {
            lemma_le_at(bytes@, 0x0D);
            lemma_le_at(bytes@, 0x13);
        }
        Ok(
            CommonHeader {
                version,
                maint_version: bytes[0x0B],
                image_seeker: le_read_u32(&bytes[0x0D..0x11]),
                codepage: le_read_u16(&bytes[0x13..0x15]),
            },
        )
    }
}

// ----------------------------------------------------------------
// R13 to R15.
// ----------------------------------------------------------------

/// An R13 to R15 section-locator record: a record number, then a
/// little-endian `u32` seeker (absolute offset) and size.
#[derive(Debug, Clone, Copy, PartialEq, Eq)]
pub struct LocatorRecord {
    pub number: u8,
    pub seeker: u32,
    pub size: u32,
}

/// The locator record at byte `i` of `b`.
pub open spec fn spec_locator(b: Seq<u8>, i: int) -> LocatorRecord {
    LocatorRecord { number: b[i], seeker: spec_le32_value(b, i + 1), size: spec_le32_value(b, i + 5) }
}

impl LocatorRecord {
    /// On-disk size of a record.
    pub const SIZE: usize = 9;

    /// Parse one record from the first nine bytes of `bytes`.
    pub fn parse(bytes: &[u8]) -> (res: Result<LocatorRecord>)
        ensures
            bytes@.len() < 9 ==> res matches Err(Error::SectionLocator(_)),
            bytes@.len() >= 9 ==> res == Ok::<LocatorRecord, Error>(spec_locator(bytes@, 0)),
    {
        if bytes.len() < LocatorRecord::SIZE {
            return Err(Error::SectionLocator("locator record needs 9 bytes".to_string()));
        }
        proof {
            lemma_le_at(bytes@, 1);
            lemma_le_at(bytes@, 5);
        }
        Ok(
            LocatorRecord {
                number: bytes[0],
                seeker: le_read_u32(&bytes[1..5]),
                size: le_read_u32(&bytes[5..9]),
            },
        )
    }
}

/// Fully parsed R13 to R15 header: common prefix and locator table.
#[derive(Debug, Clone)]
pub struct R13R15Header {
    pub common: CommonHeader,
    pub locator_count: u32,
    pub locators: Vec<LocatorRecord>,
}

/// The decimal digits of `n`, without leading zeros.
pub open spec fn spec_decimal(n: u8) -> Seq<char> {
    let d = |x: int| ((x + 48) as u8) as char;
    let v = n as int;
    if v < 10 {
        seq![d(v)]
    } else if v < 100 {
        seq![d(v / 10), d(v % 10)]
    } else {
        seq![d(v / 100), d((v / 10) % 10), d(v % 10)]
    }
}

/// The name the reader gives the section of locator record `n`.
pub open spec fn spec_record_name(n: u8) -> Seq<char> {
    match n {
        0 => "HEADER"@,
        1 => "CLASSES"@,
        2 => "OBJECT_MAP"@,
        3 => "UNKNOWN_C3"@,
        4 => "MEASUREMENT"@,
        _ => "RECORD_"@ + spec_decimal(n),
    }
}

/// The digits of a byte value, one to three of them.
proof fn lemma_decimal_digits_of_byte(n: u8)
    ensures
        spec_decimal_digits(n as nat) == spec_decimal(n),
{
    reveal_with_fuel(spec_decimal_digits, 3);
    let v = n as nat;
    if v >= 100 {
        assert(v / 10 / 10 == v / 100);
    }
    assert(spec_decimal_digits(v) =~= spec_decimal(n));
}

/// The decimal digits of `n`.
fn decimal_text(n: u8) -> (s: String)
    ensures
        s@ == spec_decimal(n),
{
    let mut s = String::new();
    push_decimal(&mut s, n as u64);
    proof {
        lemma_decimal_digits_of_byte(n);
        assert(s@ =~= spec_decimal(n));
    }
    s
}

/// The first string followed by the second.
pub(crate) fn concat_text(a: &str, b: &str) -> (s: String)
    ensures
        s@ == a@ + b@,
{
    let mut s = String::from_str(a);
    s.append(b);
    s
}

/// The name the reader gives the section of locator record `n`.
fn record_name(n: u8) -> (s: String)
    ensures
        s@ == spec_record_name(n),
{
    match n {
        0 => "HEADER".to_owned(),
        1 => "CLASSES".to_owned(),
        2 => "OBJECT_MAP".to_owned(),
        3 => "UNKNOWN_C3".to_owned(),
        4 => "MEASUREMENT".to_owned(),
        _ => {
            let digits = decimal_text(n);
            concat_text("RECORD_", digits.as_str())
        },
    }
}

/// `s` is the section the reader lists for locator record `r`.
pub open spec fn spec_section_of(s: Section, r: LocatorRecord) -> bool {
    &&& s.name@ == spec_record_name(r.number)
    &&& s.kind == spec_kind_of_record(r.number)
    &&& s.offset == r.seeker as u64
    &&& s.size == r.size as u64
    &&& !s.compressed
    &&& !s.encrypted
}

impl R13R15Header {
    /// At offset 0x15 a little-endian `u32` count, then that many
    /// 9-byte locator records.
    pub fn parse(bytes: &[u8]) -> (res: Result<R13R15Header>)
        ensures
            match spec_common_parse(bytes@) {
                    Err(e) => res == Err::<R13R15Header, Error>(e),
                    Ok(c) => if bytes@.len() < 0x19 {
                        res == Err::<R13R15Header, Error>(
                            Error::Truncated { offset: 0x15, wanted: 4, len: bytes@.len() as u64 },
                        )
                    } else {
                        let count = spec_le32_value(bytes@, 0x15);
                        if bytes@.len() < 0x19 + count * 9 {
                            res == Err::<R13R15Header, Error>(
                                Error::Truncated {
                                    offset: 0x19,
                                    wanted: #[verifier::truncate] ((count * 9) as usize),
                                    len: bytes@.len() as u64,
                                },
                            )
                        } else {
                            res matches Ok(h) && h.common == c && h.locator_count == count && h.locators@
                                == Seq::new(count as nat, |k: int| spec_locator(bytes@, 0x19 + 9 * k))
                        }
                    },
                },
    {
        let common = match CommonHeader::parse(bytes) {
            Ok(c) => c,
            Err(e) => {
                return Err(e);
            },
        };
        if bytes.len() < 0x19 {
            return Err(Error::Truncated { offset: 0x15, wanted: 4, len: bytes.len() as u64 });
        }
        proof {
            lemma_le_at(bytes@, 0x15);
        }
        let locator_count = le_read_u32(&bytes[0x15..0x19]);
        let wanted: u64 = (locator_count as u64) * 9;
        if (bytes.len() as u64) < 0x19 + wanted {
            return Err(
                Error::Truncated {
                    offset: 0x19,
                    wanted: #[verifier::truncate] (wanted as usize),
                    len: bytes.len() as u64,
                },
            );
        }
        let mut locators: Vec<LocatorRecord> = Vec::new();
        let mut i: usize = 0;
        let n = bytes.len();
        while i < locator_count as usize
            invariant
                n == bytes@.len(),
                0x19 + locator_count * 9 <= bytes@.len(),
                i <= locator_count,
                locators@ == Seq::new(i as nat, |k: int| spec_locator(bytes@, 0x19 + 9 * k)),
            decreases locator_count - i,
        {
            assert(i * 9 + 9 <= locator_count * 9) by (nonlinear_arith)
                requires
                    i < locator_count,
            ;
            let start = 0x19 + i * 9;
            let end = start + 9;
            let rec = match LocatorRecord::parse(&bytes[start..end]) {
                Ok(r) => r,
                Err(e) => {
                    return Err(e);
                },
            };
            proof {
                let sub = bytes@.subrange(start as int, end as int);
                assert(sub[0] == bytes@[start as int]);
                assert(sub.subrange(1, 5) =~= bytes@.subrange(start + 1, start + 5));
                assert(sub.subrange(5, 9) =~= bytes@.subrange(start + 5, start + 9));
                lemma_le_at(sub, 1);
                lemma_le_at(sub, 5);
                lemma_le_at(bytes@, start + 1);
                lemma_le_at(bytes@, start + 5);
            }
            locators.push(rec);
            i += 1;
            proof {
                assert(locators@ =~= Seq::new(i as nat, |k: int| spec_locator(bytes@, 0x19 + 9 * k)));
            }
        }
        Ok(R13R15Header { common, locator_count, locators })
    }

    /// The sections the locator records describe, in record order;
    /// none is compressed or encrypted.
    pub fn into_sections(&self) -> (v: Vec<Section>)
        ensures
            v@.len() == self.locators@.len(),
            forall|k: int| 0 <= k < v@.len() ==> spec_section_of(#[trigger] v@[k], self.locators@[k]),
    {
        let mut out: Vec<Section> = Vec::new();
        let mut i: usize = 0;
        while i < self.locators.len()
            invariant
                i <= self.locators@.len(),
                out@.len() == i,
                forall|k: int| 0 <= k < i ==> spec_section_of(#[trigger] out@[k], self.locators@[k]),
            decreases self.locators@.len() - i,
        {
            let r = self.locators[i];
            let s = Section {
                name: record_name(r.number),
                kind: SectionKind::from_r13_record(r.number),
                offset: r.seeker as u64,
                size: r.size as u64,
                compressed: false,
                encrypted: false,
            };
            let ghost before = out@;
            out.push(s);
            proof {
                assert forall|k: int| 0 <= k < i + 1 implies spec_section_of(#[trigger] out@[k], self.locators@[k]) by {
                    if k < i {
                        assert(out@[k] == before[k]);
                    }
                }
            }
            i += 1;
        }
        out
    }
}

// ----------------------------------------------------------------
// R2004 and later.
// ----------------------------------------------------------------

/// The R2004+ file-open header: the plaintext fields and those of the
/// decrypted 0x6C-byte block at file offset 0x80.
#[derive(Debug, Clone)]
pub struct R2004Header {
    pub common: CommonHeader,
    /// Bytes 0x18 to 0x1B.
    pub security_flags: u32,
    /// Bytes 0x20 to 0x23: summary info address.
    pub summary_info_addr: u32,
    /// Bytes 0x24 to 0x27: VBA project address (0 if absent).
    pub vba_project_addr: u32,
    /// Decrypted 0x00: `"AcFssFcAJMB"` and a NUL.
    pub file_id: [u8; 12],
    /// Decrypted 0x28.
    pub last_section_page_id: u32,
    /// Decrypted 0x2C.
    pub last_section_page_end: u64,
    /// Decrypted 0x34: the second header's address.
    pub second_header_addr: u64,
    /// Decrypted 0x3C.
    pub gap_amount: u32,
    /// Decrypted 0x40.
    pub section_page_amount: u32,
    /// Decrypted 0x50.
    pub section_page_map_id: u32,
    /// Decrypted 0x54 (add 0x100 for the file offset).
    pub section_page_map_addr: u64,
    /// Decrypted 0x5C.
    pub section_map_id: u32,
    /// Decrypted 0x60.
    pub section_page_array_size: u32,
    /// Decrypted 0x64.
    pub gap_array_size: u32,
    /// Decrypted 0x68: the stored CRC-32 of the block.
    pub crc32_stored: u32,
}

/// The decrypted block of an R2004+ file.
pub open spec fn spec_decrypted_block(b: Seq<u8>) -> Seq<u8> {
    spec_xor_magic(b.subrange(0x80, 0x80 + MAGIC_LEN))
}

/// The eleven characters of the decrypted file id.
pub open spec fn spec_file_id() -> Seq<u8> {
    seq![0x41u8, 0x63, 0x46, 0x73, 0x73, 0x46, 0x63, 0x41, 0x4A, 0x4D, 0x42]
}

/// Every field of `h` is read from `b`, whose common prefix is `c`.
pub open spec fn spec_r2004_fields(h: R2004Header, b: Seq<u8>, c: CommonHeader) -> bool {
    let blk = spec_decrypted_block(b);
    &&& h.common == c
    &&& h.security_flags == spec_le32_value(b, 0x18)
    &&& h.summary_info_addr == spec_le32_value(b, 0x20)
    &&& h.vba_project_addr == spec_le32_value(b, 0x24)
    &&& h.file_id@ == blk.subrange(0, 12)
    &&& h.last_section_page_id == spec_le32_value(blk, 0x28)
    &&& h.last_section_page_end == spec_le64_value(blk, 0x2C)
    &&& h.second_header_addr == spec_le64_value(blk, 0x34)
    &&& h.gap_amount == spec_le32_value(blk, 0x3C)
    &&& h.section_page_amount == spec_le32_value(blk, 0x40)
    &&& h.section_page_map_id == spec_le32_value(blk, 0x50)
    &&& h.section_page_map_addr == spec_le64_value(blk, 0x54)
    &&& h.section_map_id == spec_le32_value(blk, 0x5C)
    &&& h.section_page_array_size == spec_le32_value(blk, 0x60)
    &&& h.gap_array_size == spec_le32_value(blk, 0x64)
    &&& h.crc32_stored == spec_le32_value(blk, 0x68)
}

impl R2004Header {
    /// Parse the first 0xEC bytes of an R2004+ file: the plaintext
    /// prefix, then the decrypted block.
    ///
    /// Fails with `Truncated` under 0xEC bytes, with the common
    /// prefix's error, with `R2004Decrypt` for a release outside the
    /// R2004 family (R2007 has a layout of its own) or when the
    /// decrypted block does not open with the file id.
    pub fn parse(bytes: &[u8]) -> (res: Result<R2004Header>)
        ensures
            bytes@.len() < 0xEC ==> res == Err::<R2004Header, Error>(
                Error::Truncated { offset: 0, wanted: 0xEC, len: bytes@.len() as u64 },
            ),
            bytes@.len() >= 0xEC ==> match spec_common_parse(bytes@) {
                    Err(e) => res == Err::<R2004Header, Error>(e),
                    Ok(c) => if !c.version.is_r2004_family() {
                        res matches Err(Error::R2004Decrypt(_))
                    } else if spec_decrypted_block(bytes@).subrange(0, 11) != spec_file_id() {
                        res matches Err(Error::R2004Decrypt(_))
                    } else {
                        res matches Ok(h) && spec_r2004_fields(h, bytes@, c)
                    },
                },
    {
        if bytes.len() < 0xEC {
            return Err(Error::Truncated { offset: 0, wanted: 0xEC, len: bytes.len() as u64 });
        }
        let common = match CommonHeader::parse(bytes) {
            Ok(c) => c,
            Err(e) => {
                return Err(e);
            },
        };
        if !common.version.is_r2004_family() {
            return Err(
                Error::R2004Decrypt(
                    "expected an R2004-family version (R2004/R2010/R2013/R2018); R2007 has its own layout".to_string(),
                ),
            );
        }
        proof {
            lemma_le_at(bytes@, 0x18);
            lemma_le_at(bytes@, 0x20);
            lemma_le_at(bytes@, 0x24);
        }
        let security_flags = le_read_u32(&bytes[0x18..0x1C]);
        let summary_info_addr = le_read_u32(&bytes[0x20..0x24]);
        let vba_project_addr = le_read_u32(&bytes[0x24..0x28]);
        let block = xor_with_magic(&bytes[0x80..0x80 + MAGIC_LEN]);
        assert(block@ == spec_decrypted_block(bytes@));
        if !opens_with_file_id(block.as_slice()) {
            return Err(Error::R2004Decrypt("decrypted file id is not AcFssFcAJMB".to_string()));
        }
        Ok(block_fields(common, security_flags, summary_info_addr, vba_project_addr, block.as_slice()))
    }
}

/// Whether a decrypted block opens with the file id.
fn opens_with_file_id(blk: &[u8]) -> (b: bool)
    requires
        blk@.len() == MAGIC_LEN,
    ensures
        b == (blk@.subrange(0, 11) == spec_file_id()),
{
    let expected: [u8; 11] = [0x41, 0x63, 0x46, 0x73, 0x73, 0x46, 0x63, 0x41, 0x4A, 0x4D, 0x42];
    let mut k: usize = 0;
    while k < 11
        invariant
            k <= 11,
            blk@.len() == MAGIC_LEN,
            expected@ == spec_file_id(),
            forall|j: int| 0 <= j < k ==> blk@[j] == spec_file_id()[j],
        decreases 11 - k,
    {
        if blk[k] != expected[k] {
            proof {
                assert(blk@.subrange(0, 11)[k as int] != spec_file_id()[k as int]);
            }
            return false;
        }
        k += 1;
    }
    proof {
        assert(blk@.subrange(0, 11) =~= spec_file_id());
    }
    true
}

/// The header from its plaintext fields and the decrypted block.
fn block_fields(
    common: CommonHeader,
    security_flags: u32,
    summary_info_addr: u32,
    vba_project_addr: u32,
    b: &[u8],
) -> (h: R2004Header)
    requires
        b@.len() == MAGIC_LEN,
    ensures
        h.common == common,
        h.security_flags == security_flags,
        h.summary_info_addr == summary_info_addr,
        h.vba_project_addr == vba_project_addr,
        h.file_id@ == b@.subrange(0, 12),
        h.last_section_page_id == spec_le32_value(b@, 0x28),
        h.last_section_page_end == spec_le64_value(b@, 0x2C),
        h.second_header_addr == spec_le64_value(b@, 0x34),
        h.gap_amount == spec_le32_value(b@, 0x3C),
        h.section_page_amount == spec_le32_value(b@, 0x40),
        h.section_page_map_id == spec_le32_value(b@, 0x50),
        h.section_page_map_addr == spec_le64_value(b@, 0x54),
        h.section_map_id == spec_le32_value(b@, 0x5C),
        h.section_page_array_size == spec_le32_value(b@, 0x60),
        h.gap_array_size == spec_le32_value(b@, 0x64),
        h.crc32_stored == spec_le32_value(b@, 0x68),
{
    let file_id: [u8; 12] = [b[0], b[1], b[2], b[3], b[4], b[5], b[6], b[7], b[8], b[9], b[10], b[11]];
    proof {
        assert(file_id@ =~= b@.subrange(0, 12));
        lemma_le_at(b@, 0x28);
        lemma_le_at(b@, 0x2C);
        lemma_le_at(b@, 0x34);
        lemma_le_at(b@, 0x3C);
        lemma_le_at(b@, 0x40);
        lemma_le_at(b@, 0x50);
        lemma_le_at(b@, 0x54);
        lemma_le_at(b@, 0x5C);
        lemma_le_at(b@, 0x60);
        lemma_le_at(b@, 0x64);
        lemma_le_at(b@, 0x68);
    }
    R2004Header {
        common,
        security_flags,
        summary_info_addr,
        vba_project_addr,
        file_id,
        last_section_page_id: le_read_u32(&b[0x28..0x2C]),
        last_section_page_end: le_read_u64(&b[0x2C..0x34]),
        second_header_addr: le_read_u64(&b[0x34..0x3C]),
        gap_amount: le_read_u32(&b[0x3C..0x40]),
        section_page_amount: le_read_u32(&b[0x40..0x44]),
        section_page_map_id: le_read_u32(&b[0x50..0x54]),
        section_page_map_addr: le_read_u64(&b[0x54..0x5C]),
        section_map_id: le_read_u32(&b[0x5C..0x60]),
        section_page_array_size: le_read_u32(&b[0x60..0x64]),
        gap_array_size: le_read_u32(&b[0x64..0x68]),
        crc32_stored: le_read_u32(&b[0x68..0x6C]),
    }
}

} // verus!
