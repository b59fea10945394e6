//! DWG format releases, as named by the six-byte `$ACADVER` magic.
use vstd::prelude::*;

verus! {

/// A DWG format release.
#[derive(Debug, Clone, Copy, PartialEq, Eq, Structural)]
pub enum Version {
    /// `AC1014`
    R14,
    /// `AC1015` (2000 – 2002)
    R2000,
    /// `AC1018` (2004 – 2006)
    R2004,
    /// `AC1021` (2007 – 2009)
    R2007,
    /// `AC1024` (2010 – 2012)
    R2010,
    /// `AC1027` (2013 – 2017)
    R2013,
    /// `AC1032` (2018 and later)
    R2018,
}

impl Version {
    /// The releases that share the R2004 section-page container.
    pub open spec fn spec_is_r2004_family(self) -> bool {
        self == Version::R2004 || self == Version::R2010 || self == Version::R2013
            || self == Version::R2018
    }

    /// R2004 or any later release.
    pub open spec fn spec_is_r2004_plus(self) -> bool {
        self != Version::R14 && self != Version::R2000
    }

    /// R2013 or any later release.
    pub open spec fn spec_is_r2013_plus(self) -> bool {
        self == Version::R2013 || self == Version::R2018
    }

    /// R2007 or any later release.
    pub open spec fn spec_is_r2007_plus(self) -> bool {
        self == Version::R2007 || self == Version::R2010 || self == Version::R2013
            || self == Version::R2018
    }

    /// R2010 or any later release.
    pub open spec fn spec_is_r2010_plus(self) -> bool {
        self == Version::R2010 || self == Version::R2013 || self == Version::R2018
    }

    #[verifier::when_used_as_spec(spec_is_r2004_family)]
    pub fn is_r2004_family(self) -> (b: bool)
        ensures
            b == self.spec_is_r2004_family(),
    {
        match self {
            Version::R2004 | Version::R2010 | Version::R2013 | Version::R2018 => true,
            _ => false,
        }
    }

    #[verifier::when_used_as_spec(spec_is_r2004_plus)]
    pub fn is_r2004_plus(self) -> (b: bool)
        ensures
            b == self.spec_is_r2004_plus(),
    {
        match self {
            Version::R14 | Version::R2000 => false,
            _ => true,
        }
    }

    #[verifier::when_used_as_spec(spec_is_r2013_plus)]
    pub fn is_r2013_plus(self) -> (b: bool)
        ensures
            b == self.spec_is_r2013_plus(),
    {
        match self {
            Version::R2013 | Version::R2018 => true,
            _ => false,
        }
    }

    #[verifier::when_used_as_spec(spec_is_r2007_plus)]
    pub fn is_r2007_plus(self) -> (b: bool)
        ensures
            b == self.spec_is_r2007_plus(),
    {
        match self {
            Version::R2007 | Version::R2010 | Version::R2013 | Version::R2018 => true,
            _ => false,
        }
    }

    #[verifier::when_used_as_spec(spec_is_r2010_plus)]
    pub fn is_r2010_plus(self) -> (b: bool)
        ensures
            b == self.spec_is_r2010_plus(),
    {
        match self {
            Version::R2010 | Version::R2013 | Version::R2018 => true,
            _ => false,
        }
    }

    /// The six ASCII bytes of the release's `$ACADVER` magic.
    pub open spec fn spec_magic(self) -> Seq<u8> {
        let d = match self {
            Version::R14 => seq![0x31u8, 0x34u8],
            Version::R2000 => seq![0x31u8, 0x35u8],
            Version::R2004 => seq![0x31u8, 0x38u8],
            Version::R2007 => seq![0x32u8, 0x31u8],
            Version::R2010 => seq![0x32u8, 0x34u8],
            Version::R2013 => seq![0x32u8, 0x37u8],
            Version::R2018 => seq![0x33u8, 0x32u8],
        };
        seq![0x41u8, 0x43u8, 0x31u8, 0x30u8] + d
    }

    /// Recognise a six-byte magic: `NotDwg` unless it starts with
    /// `AC10`, `UnsupportedVersion` for an `AC10xx` no release uses.
    pub open spec fn spec_from_magic(magic: [u8; 6]) -> core::result::Result<Version, crate::error::Error> {
        let m = magic@;
        if !(m[0] == 0x41 && m[1] == 0x43 && m[2] == 0x31 && m[3] == 0x30) {
            Err(crate::error::Error::NotDwg { got: magic })
        } else if m == Version::R14.spec_magic() {
            Ok(Version::R14)
        } else if m == Version::R2000.spec_magic() {
            Ok(Version::R2000)
        } else if m == Version::R2004.spec_magic() {
            Ok(Version::R2004)
        } else if m == Version::R2007.spec_magic() {
            Ok(Version::R2007)
        } else if m == Version::R2010.spec_magic() {
            Ok(Version::R2010)
        } else if m == Version::R2013.spec_magic() {
            Ok(Version::R2013)
        } else if m == Version::R2018.spec_magic() {
            Ok(Version::R2018)
        } else {
            Err(crate::error::Error::UnsupportedVersion(magic))
        }
    }

    /// Parse the six-byte magic at the start of a file.
    pub fn from_magic(magic: &[u8; 6]) -> (r: crate::error::Result<Version>)
        ensures
            r == Version::spec_from_magic(*magic),
    {
        let m = *magic;
        if !(m[0] == 0x41 && m[1] == 0x43 && m[2] == 0x31 && m[3] == 0x30) {
            return Err(crate::error::Error::NotDwg { got: m });
        }
        let (a, b) = (m[4], m[5]);
        proof {
            assert(m@ =~= seq![0x41u8, 0x43u8, 0x31u8, 0x30u8] + seq![a, b]);
        }
        if a == 0x31 && b == 0x34 {
            Ok(Version::R14)
        } else if a == 0x31 && b == 0x35 {
            Ok(Version::R2000)
        } else if a == 0x31 && b == 0x38 {
            Ok(Version::R2004)
        } else if a == 0x32 && b == 0x31 {
            Ok(Version::R2007)
        } else if a == 0x32 && b == 0x34 {
            Ok(Version::R2010)
        } else if a == 0x32 && b == 0x37 {
            Ok(Version::R2013)
        } else if a == 0x33 && b == 0x32 {
            Ok(Version::R2018)
        } else {
            proof {
                assert(m@[4] == a && m@[5] == b);
            }
            Err(crate::error::Error::UnsupportedVersion(m))
        }
    }
}

} // verus!
