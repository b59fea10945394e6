//! Reader and writer building blocks for Autodesk DWG drawings
//! (R13 through R2018), with every parsing and encoding routine
//! verified against its contract.
use vstd::prelude::*;

pub mod bitcursor;
pub mod bitwriter;
pub mod cipher;
pub mod crc;
pub mod entities;
pub mod error;
pub mod file_writer;
pub mod gltf;
pub mod graph;
pub mod handle_allocator;
pub mod handle_map;
pub mod header;
pub mod header_vars;
pub mod le;
pub mod limits;
pub mod lz77;
pub mod lz77_encode;
pub mod metadata;
pub mod object;
pub mod object_type;
pub mod section;
pub mod section_writer;
pub mod text;
pub mod version;

pub use bitcursor::BitCursor;
pub use error::{Error, Result};
pub use handle_map::{HandleEntry, HandleMap};
pub use header_vars::HeaderVars;
pub use limits::{ParseLimits, WalkerLimits};
pub use metadata::{AppInfo, FileDepList, FileDependency, Preview, SummaryInfo};
pub use object::{ObjectWalker, RawObject};
pub use object_type::ObjectType;
pub use section::{Section, SectionKind};
pub use version::Version;
