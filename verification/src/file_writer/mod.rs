//! The DWG file writer: named sections in, the bytes of an R2004-family
//! file out. This module holds the version block that opens every file
//! and the check of section names against those the format defines;
//! [`scaffold`] collects and frames the sections.
use vstd::prelude::*;

pub mod assemble;
pub mod scaffold;
pub mod system_pages;

pub use assemble::assemble_dwg_bytes;
pub use scaffold::{NamedBuiltSection, WriterScaffold};
pub use system_pages::{build_system_pages, SystemPageAssembly};

use vstd::string::StringSliceAdditionalSpecFns;

use crate::error::{Error, Result};
use crate::header::concat_text;
use crate::version::Version;

verus! {

/// The section names the reader and the writer recognise.
pub const KNOWN_SECTION_NAMES: [&'static str; 16] = [
    "AcDb:AcDbObjects",
    "AcDb:AppInfo",
    "AcDb:AppInfoHistory",
    "AcDb:AuxHeader",
    "AcDb:Classes",
    "AcDb:FileDepList",
    "AcDb:Handles",
    "AcDb:Header",
    "AcDb:ObjFreeSpace",
    "AcDb:ObjectsSection",
    "AcDb:Preview",
    "AcDb:RevHistory",
    "AcDb:Security",
    "AcDb:Signature",
    "AcDb:SummaryInfo",
    "AcDb:Template",
];

/// `name` is one of [`KNOWN_SECTION_NAMES`], byte for byte.
pub open spec fn spec_is_known_section(name: &str) -> bool {
    exists|i: int|
        0 <= i < KNOWN_SECTION_NAMES@.len() && #[trigger] KNOWN_SECTION_NAMES@[i].spec_bytes() == name.spec_bytes()
}

/// Whether two byte strings are equal.
pub(crate) fn bytes_eq(a: &[u8], b: &[u8]) -> (r: bool)
    ensures
        r == (a@ == b@),
{
    if a.len() != b.len() {
        return false;
    }
    let mut i: usize = 0;
    while i < a.len()
        invariant
            a@.len() == b@.len(),
            i <= a@.len(),
            forall|j: int| 0 <= j < i ==> a@[j] == b@[j],
        decreases a@.len() - i,
    {
        if a[i] != b[i] {
            return false;
        }
        i += 1;
    }
    proof {
        assert(a@ =~= b@);
    }
    true
}

/// Check a section name against [`KNOWN_SECTION_NAMES`] before it is
/// written: a name the reader does not know could not be found again.
/// The refusal names the offending name.
pub fn validate_section_name(name: &str) -> (r: Result<()>)
    ensures
        r is Ok <==> spec_is_known_section(name),
        r is Err ==> (r matches Err(Error::Unsupported { feature }) && feature@ == "unknown section name \""@
            + name@ + "\"; expected one of the AcDb:* names of KNOWN_SECTION_NAMES"@),
{
    let names = KNOWN_SECTION_NAMES;
    let nb = name.as_bytes();
    let mut i: usize = 0;
    while i < names.len()
        invariant
            names@ == KNOWN_SECTION_NAMES@,
            nb@ == name.spec_bytes(),
            i <= names@.len(),
            forall|j: int| 0 <= j < i ==> #[trigger] names@[j].spec_bytes() != name.spec_bytes(),
        decreases names@.len() - i,
    {
        let candidate: &str = names[i];
        if bytes_eq(candidate.as_bytes(), nb) {
            return Ok(());
        }
        i += 1;
    }
    let head = concat_text("unknown section name \"", name);
    Err(
        Error::Unsupported {
            feature: concat_text(head.as_str(), "\"; expected one of the AcDb:* names of KNOWN_SECTION_NAMES"),
        },
    )
}

/// The six-byte `$ACADVER` magic of a release.
pub fn version_magic_bytes(version: Version) -> (m: [u8; 6])
    ensures
        m@ == version.spec_magic(),
{
    let m: [u8; 6] = match version {
        Version::R14 => [0x41, 0x43, 0x31, 0x30, 0x31, 0x34],
        Version::R2000 => [0x41, 0x43, 0x31, 0x30, 0x31, 0x35],
        Version::R2004 => [0x41, 0x43, 0x31, 0x30, 0x31, 0x38],
        Version::R2007 => [0x41, 0x43, 0x31, 0x30, 0x32, 0x31],
        Version::R2010 => [0x41, 0x43, 0x31, 0x30, 0x32, 0x34],
        Version::R2013 => [0x41, 0x43, 0x31, 0x30, 0x32, 0x37],
        Version::R2018 => [0x41, 0x43, 0x31, 0x30, 0x33, 0x32],
    };
    proof {
        assert(m@ =~= version.spec_magic());
    }
    m
}

/// The byte at offset 0x0D of the version block: `0x1F` from R2004 on.
pub open spec fn spec_marker(version: Version) -> u8 {
    if version == Version::R14 || version == Version::R2000 {
        0x00
    } else {
        0x1F
    }
}

/// The first 16 bytes of a file: the magic, five reserved zeros, the
/// maintenance release (0), a zero, the marker, two zeros.
pub open spec fn spec_version_header(version: Version) -> Seq<u8> {
    version.spec_magic() + seq![0u8, 0, 0, 0, 0, 0, 0, spec_marker(version), 0, 0]
}

/// Build the 16-byte version block that opens a file.
pub fn build_version_header(version: Version) -> (h: [u8; 16])
    ensures
        h@ == spec_version_header(version),
{
    let m = version_magic_bytes(version);
    let marker: u8 = match version {
        Version::R2004 | Version::R2007 | Version::R2010 | Version::R2013 | Version::R2018 => 0x1F,
        _ => 0x00,
    };
    let h: [u8; 16] = [m[0], m[1], m[2], m[3], m[4], m[5], 0, 0, 0, 0, 0, 0, 0, marker, 0, 0];
    proof {
        assert(h@ =~= spec_version_header(version));
    }
    h
}

/// The magic the writer puts first is the one the reader recognises:
/// it parses back to the same release.
pub proof fn lemma_magic_roundtrip(version: Version, magic: [u8; 6])
    requires
        magic@ == version.spec_magic(),
    ensures
        Version::spec_from_magic(magic) == Ok::<Version, Error>(version),
{
    assert(magic@[0] == 0x41 && magic@[1] == 0x43 && magic@[2] == 0x31 && magic@[3] == 0x30);
    assert(Version::R14.spec_magic() != Version::R2000.spec_magic() ==> true);
    match version {
        Version::R14 => {},
        Version::R2000 => {
            assert(magic@[5] != Version::R14.spec_magic()[5]);
        },
        Version::R2004 => {
            assert(magic@[5] != Version::R14.spec_magic()[5]);
            assert(magic@[5] != Version::R2000.spec_magic()[5]);
        },
        Version::R2007 => {
            assert(magic@[4] != Version::R14.spec_magic()[4]);
            assert(magic@[4] != Version::R2000.spec_magic()[4]);
            assert(magic@[4] != Version::R2004.spec_magic()[4]);
        },
        Version::R2010 => {
            assert(magic@[4] != Version::R14.spec_magic()[4]);
            assert(magic@[4] != Version::R2000.spec_magic()[4]);
            assert(magic@[4] != Version::R2004.spec_magic()[4]);
            assert(magic@[5] != Version::R2007.spec_magic()[5]);
        },
        Version::R2013 => {
            assert(magic@[4] != Version::R14.spec_magic()[4]);
            assert(magic@[4] != Version::R2000.spec_magic()[4]);
            assert(magic@[4] != Version::R2004.spec_magic()[4]);
            assert(magic@[5] != Version::R2007.spec_magic()[5]);
            assert(magic@[5] != Version::R2010.spec_magic()[5]);
        },
        Version::R2018 => {
            assert(magic@[4] != Version::R14.spec_magic()[4]);
            assert(magic@[4] != Version::R2000.spec_magic()[4]);
            assert(magic@[4] != Version::R2004.spec_magic()[4]);
            assert(magic@[4] != Version::R2007.spec_magic()[4]);
            assert(magic@[4] != Version::R2010.spec_magic()[4]);
            assert(magic@[4] != Version::R2013.spec_magic()[4]);
        },
    }
}

} // verus!
