//! Core of an overlap-ingestion pipeline for long-read error correction:
//! parsing, validation, deduplication and boundary extension of pairwise
//! read-overlap records.

pub mod extend;
pub mod overlap;
pub mod pairs;
pub mod parse;
pub mod registry;
pub mod select;
pub mod validate;

pub use extend::extend_overlap;
pub use extend::extend_overlaps;
pub use overlap::CigarOp;
pub use overlap::Overlap;
pub use overlap::Strand;
pub use parse::parse_paf;
pub use parse::OverlapParser;
pub use parse::ParseError;
pub use registry::build_registry;
pub use registry::Registry;
pub use select::find_primary_overlaps;
pub use validate::is_valid_overlap;
pub use validate::OL_THRESHOLD;
