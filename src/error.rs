use vstd::prelude::*;

verus! {

/// Why a scan produced no address.
#[derive(Debug, Clone, Copy, PartialEq, Eq, Structural, PartialOrd, Ord)]
pub enum ModuleSigScanError {
    /// Failed to find the signature
    NotFound,
    /// Found multiple occurrences of the signature
    MultipleFound,
    /// Unable to open the specified module
    InvalidModule,
    /// The signature has no elements, so it matches nowhere in particular
    EmptySignature,
}

} // verus!
