//! Sections of a DWG file as the reader lists them.
use vstd::prelude::*;

verus! {

/// What a section holds, for the R13 to R15 section-locator records.
#[derive(Debug, Clone, Copy, PartialEq, Eq, Structural)]
pub enum SectionKind {
    /// Record 0: the header variables.
    Header,
    /// Record 1: the class definitions.
    Classes,
    /// Record 2: the object map (handles).
    ObjectMap,
    /// Record 3: undocumented.
    UnknownC3,
    /// Record 4: the measurement variable.
    Measurement,
    /// Any other record number.
    Other(u8),
}

/// The kind of an R13 to R15 locator record number.
pub open spec fn spec_kind_of_record(n: u8) -> SectionKind {
    match n {
        0 => SectionKind::Header,
        1 => SectionKind::Classes,
        2 => SectionKind::ObjectMap,
        3 => SectionKind::UnknownC3,
        4 => SectionKind::Measurement,
        _ => SectionKind::Other(n),
    }
}

impl SectionKind {
    /// The kind of an R13 to R15 locator record number.
    pub fn from_r13_record(n: u8) -> (k: SectionKind)
        ensures
            k == spec_kind_of_record(n),
    {
        match n {
            0 => SectionKind::Header,
            1 => SectionKind::Classes,
            2 => SectionKind::ObjectMap,
            3 => SectionKind::UnknownC3,
            4 => SectionKind::Measurement,
            _ => SectionKind::Other(n),
        }
    }
}

/// One section of a file.
#[derive(Debug, Clone)]
pub struct Section {
    /// Its name.
    pub name: String,
    /// What it holds.
    pub kind: SectionKind,
    /// Absolute file offset.
    pub offset: u64,
    /// Size in bytes.
    pub size: u64,
    /// Whether its pages are compressed.
    pub compressed: bool,
    /// Whether its pages are encrypted.
    pub encrypted: bool,
}

} // verus!
