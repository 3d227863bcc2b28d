use vstd::prelude::*;
use vstd::utf8::encode_utf8;

use crate::error::ModuleSigScanError;
use crate::loader::{is_selected, path_ends_with, resolution, select_region, LoadedObject};
use crate::pattern::{scan, scan_outcome, sig_matches_at};
use crate::region::MemoryRegion;

verus! {

/// The address that a scan finds in a resolved region: the region's base
/// plus the offset of the signature's only occurrence in `memory`, the
/// region's bytes. A failed resolution is passed on as it is, before any
/// byte is looked at; a region without base or without bytes is an invalid
/// module.
pub open spec fn located(
    resolved: Result<MemoryRegion, ModuleSigScanError>,
    memory: Seq<u8>,
    signature: Seq<Option<u8>>,
) -> Result<usize, ModuleSigScanError> {
    match resolved {
        Err(e) => Err(e),
        Ok(reg) => if reg.is_degenerate() {
            Err(ModuleSigScanError::InvalidModule)
        } else {
            match scan_outcome(memory, signature) {
                Ok(off) => Ok((reg.base + off) as usize),
                Err(e) => Err(e),
            }
        },
    }
}

/// Finds signatures in one module of the current process, named by the end
/// of its path.
pub struct Scanner {
    module_name: String,
}

impl View for Scanner {
    type V = Seq<char>;

    /// The module name that the scanner is bound to.
    closed spec fn view(&self) -> Seq<char> {
        self.module_name@
    }
}

impl Scanner {
    /// The bytes of the module name, as the loader's paths hold them.
    pub open spec fn name_bytes(&self) -> Seq<u8> {
        encode_utf8(self@)
    }

    /// A scanner bound to the module `name`. Construction looks at no
    /// memory: the module is looked up on each scan, since it may be
    /// unloaded and loaded again in between. An empty name is kept too: the
    /// loader reports the main program under an empty path.
    pub fn for_module(name: &str) -> (r: Option<Scanner>)
        ensures
            r matches Some(s) && s@ == name@,
    {
        Some(Scanner { module_name: name.to_string() })
    }

    /// The module name that the scanner is bound to.
    pub fn module_name(&self) -> (r: &str)
        ensures
            r@ == self@,
    {
        self.module_name.as_str()
    }

    /// The region of the module's first loadable segment among the loaded
    /// `objects`, or `InvalidModule`.
    pub fn resolve(&self, objects: &[LoadedObject]) -> (r: Result<MemoryRegion, ModuleSigScanError>)
        ensures
            r == resolution(objects@, self.name_bytes()),
            r matches Ok(reg) ==> reg.wf(),
    {
        let name = self.module_name.as_str().as_bytes();
        select_region(objects, name)
    }

    /// The absolute address of the only occurrence of `signature` in the
    /// module's region among the loaded `objects`. `memory` holds the bytes
    /// of that region, as `resolve` gives it, and is read only when the
    /// region has a base and at least one byte.
    pub fn find(
        &self,
        objects: &[LoadedObject],
        memory: &[u8],
        signature: &[Option<u8>],
    ) -> (r: Result<usize, ModuleSigScanError>)
        requires
            resolution(objects@, self.name_bytes()) matches Ok(reg) ==> (!reg.is_degenerate()
                ==> memory@.len() == reg.len),
        ensures
            r == located(resolution(objects@, self.name_bytes()), memory@, signature@),
            r matches Ok(addr) ==> resolution(objects@, self.name_bytes()) matches Ok(reg)
                && reg.base <= addr && addr + signature@.len() <= reg.base + reg.len,
    {
        let region = match self.resolve(objects) {
            Ok(reg) => reg,
            Err(e) => return Err(e),
        };
        if region.base == 0 || region.len == 0 {
            return Err(ModuleSigScanError::InvalidModule);
        }
        match scan(memory, signature) {
            Ok(off) => Ok(region.base + off),
            Err(e) => Err(e),
        }
    }
}

/// When no loaded object's path ends with the module name, the scan fails
/// with `InvalidModule` whatever the memory and the signature are: no byte
/// is compared.
pub proof fn lemma_unloaded_module_is_invalid(
    objects: Seq<LoadedObject>,
    name: Seq<u8>,
    memory: Seq<u8>,
    signature: Seq<Option<u8>>,
)
    requires
        forall|i: int| 0 <= i < objects.len() ==> !path_ends_with(#[trigger] objects[i].path@, name),
    ensures
        located(resolution(objects, name), memory, signature)
            == Err::<usize, ModuleSigScanError>(ModuleSigScanError::InvalidModule),
{
    assert forall|i: int| !is_selected(objects, name, i) by {
        if 0 <= i < objects.len() {
            assert(!path_ends_with(objects[i].path@, name));
        }
    }
}

/// A signature longer than the resolved region is not found in it.
pub proof fn lemma_long_signature_not_found(
    region: MemoryRegion,
    memory: Seq<u8>,
    signature: Seq<Option<u8>>,
)
    requires
        !region.is_degenerate(),
        memory.len() == region.len,
        signature.len() > region.len,
    ensures
        located(Ok(region), memory, signature)
            == Err::<usize, ModuleSigScanError>(ModuleSigScanError::NotFound),
{
    assert forall|i: int| !#[trigger] sig_matches_at(memory, signature, i) by {}
}

} // verus!
