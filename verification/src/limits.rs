//! Caller-configurable safety limits.
//!
//! Every fallible parse path honours a cap on a count, a size or an
//! iteration. Three profiles are offered for each limit struct:
//! `paranoid` (every cap ten times lower than `safe`, for untrusted
//! uploads), `safe` (the default), and `permissive` (ten times higher,
//! for stress fixtures).
use vstd::prelude::*;

use crate::lz77::DecompressLimits;

verus! {

/// Caps applied at each parser's count-read site.
#[derive(Debug, Clone, Copy, PartialEq, Eq)]
pub struct ParseLimits {
    /// Maximum entries the handle-map parser will accept.
    pub max_handle_entries: usize,
    /// Maximum per-entity error strings retained by a dispatch summary.
    pub max_retained_dispatch_errors: usize,
    /// Maximum iterations of the per-entity XDATA loop.
    pub max_xdata_iterations: usize,
    /// Maximum class-map entries.
    pub max_class_entries: usize,
    /// Maximum LWPOLYLINE point / bulge / width / id count.
    pub max_lwpolyline_count: usize,
    /// Maximum IMAGE clip-boundary vertex count.
    pub max_image_clip_verts: usize,
    /// Maximum LEADER polyline points.
    pub max_leader_points: usize,
    /// Maximum SPLINE knots / control points / fit points (per collection).
    pub max_spline_count: usize,
}

impl ParseLimits {
    pub open spec fn spec_safe() -> ParseLimits {
        ParseLimits {
            max_handle_entries: 1_000_000,
            max_retained_dispatch_errors: 1_000,
            max_xdata_iterations: 256,
            max_class_entries: 4_096,
            max_lwpolyline_count: 1_000_000,
            max_image_clip_verts: 100_000,
            max_leader_points: 100_000,
            max_spline_count: 100_000,
        }
    }

    pub open spec fn spec_paranoid() -> ParseLimits {
        ParseLimits {
            max_handle_entries: 100_000,
            max_retained_dispatch_errors: 100,
            max_xdata_iterations: 25,
            max_class_entries: 409,
            max_lwpolyline_count: 100_000,
            max_image_clip_verts: 10_000,
            max_leader_points: 10_000,
            max_spline_count: 10_000,
        }
    }

    pub open spec fn spec_permissive() -> ParseLimits {
        ParseLimits {
            max_handle_entries: 10_000_000,
            max_retained_dispatch_errors: 10_000,
            max_xdata_iterations: 2_560,
            max_class_entries: 40_960,
            max_lwpolyline_count: 10_000_000,
            max_image_clip_verts: 1_000_000,
            max_leader_points: 1_000_000,
            max_spline_count: 1_000_000,
        }
    }

    /// Every count of `self` is that of `other` divided by 10 (rounded
    /// down).
    pub open spec fn tenth_of(self, other: ParseLimits) -> bool {
        &&& self.max_handle_entries == other.max_handle_entries / 10
        &&& self.max_retained_dispatch_errors == other.max_retained_dispatch_errors / 10
        &&& self.max_xdata_iterations == other.max_xdata_iterations / 10
        &&& self.max_class_entries == other.max_class_entries / 10
        &&& self.max_lwpolyline_count == other.max_lwpolyline_count / 10
        &&& self.max_image_clip_verts == other.max_image_clip_verts / 10
        &&& self.max_leader_points == other.max_leader_points / 10
        &&& self.max_spline_count == other.max_spline_count / 10
    }

    /// Every field of `self` is strictly below the same field of `other`.
    pub open spec fn all_below(self, other: ParseLimits) -> bool {
        &&& self.max_handle_entries < other.max_handle_entries
        &&& self.max_retained_dispatch_errors < other.max_retained_dispatch_errors
        &&& self.max_xdata_iterations < other.max_xdata_iterations
        &&& self.max_class_entries < other.max_class_entries
        &&& self.max_lwpolyline_count < other.max_lwpolyline_count
        &&& self.max_image_clip_verts < other.max_image_clip_verts
        &&& self.max_leader_points < other.max_leader_points
        &&& self.max_spline_count < other.max_spline_count
    }

    /// The default profile, sized for regular workstation drawings.
    pub fn safe() -> (r: ParseLimits)
        ensures
            r == ParseLimits::spec_safe(),
    {
        ParseLimits {
            max_handle_entries: 1_000_000,
            max_retained_dispatch_errors: 1_000,
            max_xdata_iterations: 256,
            max_class_entries: 4_096,
            max_lwpolyline_count: 1_000_000,
            max_image_clip_verts: 100_000,
            max_leader_points: 100_000,
            max_spline_count: 100_000,
        }
    }

    /// Every cap ten times lower than [`Self::safe`].
    pub fn paranoid() -> (r: ParseLimits)
        ensures
            r == ParseLimits::spec_paranoid(),
    {
        ParseLimits {
            max_handle_entries: 100_000,
            max_retained_dispatch_errors: 100,
            max_xdata_iterations: 25,
            max_class_entries: 409,
            max_lwpolyline_count: 100_000,
            max_image_clip_verts: 10_000,
            max_leader_points: 10_000,
            max_spline_count: 10_000,
        }
    }

    /// Every cap ten times higher than [`Self::safe`].
    pub fn permissive() -> (r: ParseLimits)
        ensures
            r == ParseLimits::spec_permissive(),
    {
        ParseLimits {
            max_handle_entries: 10_000_000,
            max_retained_dispatch_errors: 10_000,
            max_xdata_iterations: 2_560,
            max_class_entries: 40_960,
            max_lwpolyline_count: 10_000_000,
            max_image_clip_verts: 1_000_000,
            max_leader_points: 1_000_000,
            max_spline_count: 1_000_000,
        }
    }
}

impl Default for ParseLimits {
    fn default() -> (r: ParseLimits)
        ensures
            r == ParseLimits::spec_safe(),
    {
        ParseLimits::safe()
    }
}

/// Caps on handle-driven graph iteration.
#[derive(Debug, Clone, Copy, PartialEq, Eq)]
pub struct WalkerLimits {
    /// Maximum handles visited in one walk.
    pub max_handles: usize,
    /// Maximum bytes scanned across one walk.
    pub max_scan_bytes: usize,
    /// Maximum depth of block-expansion nesting.
    pub max_block_nesting: usize,
}

impl WalkerLimits {
    pub open spec fn spec_safe() -> WalkerLimits {
        WalkerLimits { max_handles: 1_000_000, max_scan_bytes: (512 * 1024 * 1024) as usize, max_block_nesting: 128 }
    }

    pub open spec fn spec_paranoid() -> WalkerLimits {
        WalkerLimits { max_handles: 100_000, max_scan_bytes: (64 * 1024 * 1024) as usize, max_block_nesting: 32 }
    }

    pub open spec fn spec_permissive() -> WalkerLimits {
        WalkerLimits {
            max_handles: 10_000_000,
            max_scan_bytes: (4 * 1024 * 1024 * 1024) as usize,
            max_block_nesting: 512,
        }
    }

    /// Every field of `self` is strictly below the same field of `other`.
    pub open spec fn all_below(self, other: WalkerLimits) -> bool {
        &&& self.max_handles < other.max_handles
        &&& self.max_scan_bytes < other.max_scan_bytes
        &&& self.max_block_nesting < other.max_block_nesting
    }

    /// The default profile; fits every real-world drawing.
    pub fn safe() -> (r: WalkerLimits)
        ensures
            r == WalkerLimits::spec_safe(),
    {
        WalkerLimits { max_handles: 1_000_000, max_scan_bytes: 512 * 1024 * 1024, max_block_nesting: 128 }
    }

    /// Tighter profile for untrusted uploads.
    pub fn paranoid() -> (r: WalkerLimits)
        ensures
            r == WalkerLimits::spec_paranoid(),
    {
        WalkerLimits { max_handles: 100_000, max_scan_bytes: 64 * 1024 * 1024, max_block_nesting: 32 }
    }

    /// Looser profile for stress fixtures; its 4 GiB scan cap needs a
    /// 64-bit `usize`.
    pub fn permissive() -> (r: WalkerLimits)
        requires
            usize::BITS == 64,
        ensures
            r == WalkerLimits::spec_permissive(),
    {
        WalkerLimits {
            max_handles: 10_000_000,
            max_scan_bytes: 4 * 1024 * 1024 * 1024,
            max_block_nesting: 512,
        }
    }
}

impl Default for WalkerLimits {
    fn default() -> (r: WalkerLimits)
        ensures
            r == WalkerLimits::spec_safe(),
    {
        WalkerLimits::safe()
    }
}

/// The top-level profile applied when a file is opened.
#[derive(Debug, Clone, Copy, PartialEq, Eq)]
pub struct OpenLimits {
    /// Maximum file size the open path will read.
    pub max_file_bytes: u64,
    /// Maximum decompressed bytes of one section.
    pub max_section_bytes: usize,
    /// LZ77 caps applied to every section unpack.
    pub decompress: DecompressLimits,
    /// Parser caps.
    pub parse: ParseLimits,
    /// Graph-iteration caps.
    pub walker: WalkerLimits,
}

impl OpenLimits {
    pub open spec fn spec_safe() -> OpenLimits {
        OpenLimits {
            max_file_bytes: (1024 * 1024 * 1024) as u64,
            max_section_bytes: (256 * 1024 * 1024) as usize,
            decompress: DecompressLimits::spec_default(),
            parse: ParseLimits::spec_safe(),
            walker: WalkerLimits::spec_safe(),
        }
    }

    pub open spec fn spec_paranoid() -> OpenLimits {
        OpenLimits {
            max_file_bytes: (100 * 1024 * 1024) as u64,
            max_section_bytes: (16 * 1024 * 1024) as usize,
            decompress: DecompressLimits::spec_default(),
            parse: ParseLimits::spec_paranoid(),
            walker: WalkerLimits::spec_paranoid(),
        }
    }

    pub open spec fn spec_permissive() -> OpenLimits {
        OpenLimits {
            max_file_bytes: (16 * 1024 * 1024 * 1024) as u64,
            max_section_bytes: (4 * 1024 * 1024 * 1024) as usize,
            decompress: DecompressLimits::spec_permissive(),
            parse: ParseLimits::spec_permissive(),
            walker: WalkerLimits::spec_permissive(),
        }
    }

    /// The default profile.
    pub fn safe() -> (r: OpenLimits)
        ensures
            r == OpenLimits::spec_safe(),
    {
        OpenLimits {
            max_file_bytes: 1024 * 1024 * 1024,
            max_section_bytes: 256 * 1024 * 1024,
            decompress: DecompressLimits::default(),
            parse: ParseLimits::safe(),
            walker: WalkerLimits::safe(),
        }
    }

    /// Tighter profile for web-upload contexts.
    pub fn paranoid() -> (r: OpenLimits)
        ensures
            r == OpenLimits::spec_paranoid(),
    {
        OpenLimits {
            max_file_bytes: 100 * 1024 * 1024,
            max_section_bytes: 16 * 1024 * 1024,
            decompress: DecompressLimits::default(),
            parse: ParseLimits::paranoid(),
            walker: WalkerLimits::paranoid(),
        }
    }

    /// Looser profile for stress fixtures; its 4 GiB section cap needs
    /// a 64-bit `usize`.
    pub fn permissive() -> (r: OpenLimits)
        requires
            usize::BITS == 64,
        ensures
            r == OpenLimits::spec_permissive(),
    {
        OpenLimits {
            max_file_bytes: 16 * 1024 * 1024 * 1024,
            max_section_bytes: 4 * 1024 * 1024 * 1024,
            decompress: DecompressLimits::permissive(),
            parse: ParseLimits::permissive(),
            walker: WalkerLimits::permissive(),
        }
    }
}

impl Default for OpenLimits {
    fn default() -> (r: OpenLimits)
        ensures
            r == OpenLimits::spec_safe(),
    {
        OpenLimits::safe()
    }
}

/// The three profiles are strictly ordered: every cap of `paranoid`
/// is below the matching cap of `safe`, and every cap of `safe` is
/// below the matching cap of `permissive`; the same holds of the
/// file and section size caps and of the nested parse and walker
/// profiles of [`OpenLimits`]. (The permissive 4 GiB caps exist only
/// where `usize` is 64 bits wide.)
pub proof fn lemma_profiles_strictly_ordered()
    requires
        usize::BITS == 64,
    ensures
        ParseLimits::spec_paranoid().all_below(ParseLimits::spec_safe()),
        ParseLimits::spec_safe().all_below(ParseLimits::spec_permissive()),
        WalkerLimits::spec_paranoid().all_below(WalkerLimits::spec_safe()),
        WalkerLimits::spec_safe().all_below(WalkerLimits::spec_permissive()),
        OpenLimits::spec_paranoid().max_file_bytes < OpenLimits::spec_safe().max_file_bytes,
        OpenLimits::spec_safe().max_file_bytes < OpenLimits::spec_permissive().max_file_bytes,
        OpenLimits::spec_paranoid().max_section_bytes < OpenLimits::spec_safe().max_section_bytes,
        OpenLimits::spec_safe().max_section_bytes < OpenLimits::spec_permissive().max_section_bytes,
        OpenLimits::spec_paranoid().parse.all_below(OpenLimits::spec_safe().parse),
        OpenLimits::spec_safe().parse.all_below(OpenLimits::spec_permissive().parse),
        OpenLimits::spec_paranoid().walker.all_below(OpenLimits::spec_safe().walker),
        OpenLimits::spec_safe().walker.all_below(OpenLimits::spec_permissive().walker),
{
}

/// The parse profiles are a factor of ten apart: every count of
/// `paranoid` is a tenth of the matching count of `safe` (rounded
/// down), and every count of `safe` is a tenth of the matching count
/// of `permissive`.
pub proof fn lemma_parse_profiles_tenfold()
    ensures
        ParseLimits::spec_paranoid().tenth_of(ParseLimits::spec_safe()),
        ParseLimits::spec_safe().tenth_of(ParseLimits::spec_permissive()),
{
}

} // verus!
