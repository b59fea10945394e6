//! The error type shared by every parser and writer of the crate.
use vstd::prelude::*;

verus! {

/// Every way a parse or an encode can fail.
///
/// Messages carried as `String` are free text for humans; the
/// numeric fields are what callers should match on.
#[derive(Debug)]
#[allow(inconsistent_fields)]
pub enum Error {
    /// The first six bytes are not an `AC10xx` magic.
    NotDwg { got: [u8; 6] },
    /// An `AC10xx` magic that names no supported release.
    UnsupportedVersion([u8; 6]),
    /// A fixed-size read ran past the end of its buffer.
    Truncated { offset: u64, wanted: usize, len: u64 },
    /// A bit-level read ran past the end of its buffer.
    BitsExhausted { wanted: usize, remaining: usize },
    /// A stored checksum disagrees with the computed one.
    CrcMismatch { context: String, expected: u16, actual: u16 },
    /// The R2004+ file-open header did not decrypt to its file id.
    R2004Decrypt(String),
    /// A section locator record is malformed.
    SectionLocator(String),
    /// A prefix code met a bit pattern the format reserves.
    ReservedBitPattern { code_type: &'static str, pattern: &'static str },
    /// LZ77: the stream ended before its terminator.
    Lz77Truncated,
    /// LZ77: a back-reference points before the start of the output.
    Lz77InvalidOffset,
    /// LZ77: an opcode in the reserved range `0x00..=0x0F`.
    Lz77InvalidOpcode { opcode: u8, pos: usize, out_len: usize },
    /// LZ77: the literal-only encoder cannot express a length of 1, 2 or 3.
    Lz77UnencodableLength(usize),
    /// LZ77: the output would exceed the configured ceiling.
    Lz77OutputLimitExceeded { limit: usize },
    /// LZ77: one back-reference copy is longer than the configured ceiling.
    Lz77BackrefTooLong { length: usize, limit: usize },
    /// A section map, handle map or record count is malformed.
    SectionMap(String),
    /// A BLL value needs more than 56 bits.
    BllOverflow { value: u64 },
    /// A 3B value outside `{0, 2, 6, 7}`.
    Invalid3B { value: u8 },
    /// A feature the format defines that this crate does not implement.
    Unsupported { feature: String },
    /// One record of a handle-driven object walk failed to parse.
    ObjectWalk { handle: u64, offset: u64, reason: String },
    /// An object walk visited more records than its limit allows.
    WalkerLimitExceeded { limit: usize, seen: usize },
    /// A strict object walk met a type code the format reserves.
    UnknownObjectType { type_code: u16, offset: u64 },
}

/// Shorthand used by every fallible function of the crate.
pub type Result<T> = core::result::Result<T, Error>;

} // verus!
