use vstd::prelude::*;

use crate::error::ModuleSigScanError;
use crate::region::MemoryRegion;

verus! {

/// The ELF program header type of a loadable segment.
pub const PT_LOAD: u32 = 1;

/// The fields of an ELF program header that locate a segment in memory.
#[derive(Debug, Clone, Copy, PartialEq, Eq, Structural)]
pub struct ProgramHeader {
    pub p_type: u32,
    pub p_vaddr: usize,
    pub p_memsz: usize,
}

/// A shared object as the dynamic loader reports it: its path, its load
/// bias and its program headers.
#[derive(Debug, Clone)]
pub struct LoadedObject {
    pub path: Vec<u8>,
    pub load_bias: usize,
    pub headers: Vec<ProgramHeader>,
}

/// `path` ends with the bytes of `name`.
pub open spec fn path_ends_with(path: Seq<u8>, name: Seq<u8>) -> bool {
    &&& name.len() <= path.len()
    &&& path.subrange(path.len() - name.len(), path.len() as int) == name
}

/// The object at `i` is the first whose path ends with `name`.
pub open spec fn is_selected(objects: Seq<LoadedObject>, name: Seq<u8>, i: int) -> bool {
    &&& 0 <= i < objects.len()
    &&& path_ends_with(objects[i].path@, name)
    &&& forall|j: int| 0 <= j < i ==> !path_ends_with(#[trigger] objects[j].path@, name)
}

/// The header at `k` is the first loadable one.
pub open spec fn is_first_loadable(headers: Seq<ProgramHeader>, k: int) -> bool {
    &&& 0 <= k < headers.len()
    &&& headers[k].p_type == PT_LOAD
    &&& forall|j: int| 0 <= j < k ==> (#[trigger] headers[j]).p_type != PT_LOAD
}

/// The memory that a segment occupies once its object is loaded with the
/// given bias. The bias is the difference between where the object sits and
/// where it was linked to sit, so it may be "negative": the start address is
/// taken modulo the address width, as the loader itself computes it.
pub open spec fn segment_region(load_bias: usize, h: ProgramHeader) -> Result<MemoryRegion, ModuleSigScanError> {
    let base = load_bias.wrapping_add(h.p_vaddr);
    if base + h.p_memsz <= usize::MAX {
        Ok(MemoryRegion { base, len: h.p_memsz })
    } else {
        Err(ModuleSigScanError::InvalidModule)
    }
}

/// The region of the first loadable segment of the first object whose path
/// ends with `name`; `InvalidModule` when there is no such object, when it
/// has no loadable segment, or when that segment runs past the address space.
pub open spec fn resolution(objects: Seq<LoadedObject>, name: Seq<u8>) -> Result<MemoryRegion, ModuleSigScanError> {
    if exists|i: int| is_selected(objects, name, i) {
        let i = choose|i: int| is_selected(objects, name, i);
        let headers = objects[i].headers@;
        if exists|k: int| is_first_loadable(headers, k) {
            let k = choose|k: int| is_first_loadable(headers, k);
            segment_region(objects[i].load_bias, headers[k])
        } else {
            Err(ModuleSigScanError::InvalidModule)
        }
    } else {
        Err(ModuleSigScanError::InvalidModule)
    }
}

fn ends_with_bytes(path: &[u8], name: &[u8]) -> (r: bool)
    ensures
        r == path_ends_with(path@, name@),
{
    if name.len() > path.len() {
        return false;
    }
    let offset: usize = path.len() - name.len();
    let mut i: usize = 0;
    while i < name.len()
        invariant
            offset + name.len() == path.len(),
            offset + name@.len() == path@.len(),
            i <= name@.len(),
            forall|j: int| 0 <= j < i ==> path@[offset + j] == #[trigger] name@[j],
        decreases name@.len() - i,
    {
        if path[offset + i] != name[i] {
            assert(path@.subrange(offset as int, path@.len() as int)[i as int] != name@[i as int]);
            return false;
        }
        i = i + 1;
    }
    assert(path@.subrange(offset as int, path@.len() as int) =~= name@);
    true
}

fn first_loadable(headers: &[ProgramHeader]) -> (r: Option<usize>)
    ensures
        match r {
            Some(k) => is_first_loadable(headers@, k as int),
            None => forall|k: int| !is_first_loadable(headers@, k),
        },
{
    let mut k: usize = 0;
    while k < headers.len()
        invariant
            k <= headers@.len(),
            forall|j: int| 0 <= j < k ==> (#[trigger] headers@[j]).p_type != PT_LOAD,
        decreases headers@.len() - k,
    {
        if headers[k].p_type == PT_LOAD {
            return Some(k);
        }
        k = k + 1;
    }
    None
}

/// Picks the region of the first loadable segment of the first object whose
/// path ends with `name`.
///
/// Matching by suffix lets a bare file name find an object that the loader
/// reports by its full path; it also lets a short name match an object whose
/// path merely happens to end the same way, and then the first such object
/// wins.
pub fn select_region(objects: &[LoadedObject], name: &[u8]) -> (r: Result<MemoryRegion, ModuleSigScanError>)
    ensures
        r == resolution(objects@, name@),
        r matches Ok(reg) ==> reg.wf(),
{
    let mut i: usize = 0;
    while i < objects.len()
        invariant
            i <= objects@.len(),
            forall|j: int| 0 <= j < i ==> !path_ends_with(#[trigger] objects@[j].path@, name@),
        decreases objects@.len() - i,
    {
        let object = &objects[i];
        if ends_with_bytes(object.path.as_slice(), name) {
            proof { lemma_selection_unique(objects@, name@, i as int); }
            let headers = object.headers.as_slice();
            match first_loadable(headers) {
                Some(k) => {
                    proof { lemma_first_loadable_unique(headers@, k as int); }
                    let h = headers[k];
                    let base = object.load_bias.wrapping_add(h.p_vaddr);
                    return match MemoryRegion::new(base, h.p_memsz) {
                        Some(reg) => Ok(reg),
                        None => Err(ModuleSigScanError::InvalidModule),
                    };
                },
                None => {
                    return Err(ModuleSigScanError::InvalidModule);
                },
            }
        }
        i = i + 1;
    }
    assert forall|j: int| !is_selected(objects@, name@, j) by {
        if 0 <= j < objects@.len() {
            assert(!path_ends_with(objects@[j].path@, name@));
        }
    }
    Err(ModuleSigScanError::InvalidModule)
}

proof fn lemma_selection_unique(objects: Seq<LoadedObject>, name: Seq<u8>, i: int)
    requires
        is_selected(objects, name, i),
    ensures
        (choose|c: int| is_selected(objects, name, c)) == i,
{
    let c = choose|c: int| is_selected(objects, name, c);
    if c < i {
        assert(!path_ends_with(objects[c].path@, name));
    } else if c > i {
        assert(!path_ends_with(objects[i].path@, name));
    }
}

proof fn lemma_first_loadable_unique(headers: Seq<ProgramHeader>, k: int)
    requires
        is_first_loadable(headers, k),
    ensures
        (choose|c: int| is_first_loadable(headers, c)) == k,
{
    let c = choose|c: int| is_first_loadable(headers, c);
    if c < k {
        assert(headers[c].p_type != PT_LOAD);
    } else if c > k {
        assert(headers[k].p_type != PT_LOAD);
    }
}

} // verus!
