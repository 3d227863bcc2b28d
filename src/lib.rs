//! Locates a byte signature, with wildcard positions, inside the memory
//! image of a module loaded in the current process, and insists that the
//! signature occurs exactly once.

mod error;
mod loader;
mod pattern;
mod region;
mod scanner;

pub use error::ModuleSigScanError;
pub use loader::{
    is_first_loadable, is_selected, path_ends_with, resolution, segment_region, select_region,
    LoadedObject, ProgramHeader, PT_LOAD,
};
pub use pattern::{
    all_wildcards, byte_matches, exact_signature, lemma_absent_signature_not_found, lemma_all_wildcards,
    lemma_exact_signature_matches_occurrence, lemma_single_match_gives_offset,
    lemma_two_matches_give_multiple, lemma_unique_exact_occurrence_found,
    lemma_wildcard_accepts_any_byte, occurs_at, scan, scan_outcome, sig_matches_at,
};
pub use region::MemoryRegion;
pub use scanner::{
    lemma_long_signature_not_found, lemma_unloaded_module_is_invalid, located, Scanner,
};
