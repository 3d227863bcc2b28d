use vstd::prelude::*;

use crate::error::ModuleSigScanError;

verus! {

/// A byte range `[base, base + len)` of memory mapped in this process.
/// It names the memory and does not own it.
#[derive(Debug, Clone, Copy, PartialEq, Eq, Structural)]
pub struct MemoryRegion {
    pub base: usize,
    pub len: usize,
}

impl MemoryRegion {
    /// The range ends inside the address space.
    pub open spec fn wf(&self) -> bool {
        self.base + self.len <= usize::MAX
    }

    /// The region holds no address or no byte to scan.
    pub open spec fn is_degenerate(&self) -> bool {
        self.base == 0 || self.len == 0
    }

    /// The region `[base, base + len)`, if it ends inside the address space.
    pub fn new(base: usize, len: usize) -> (r: Option<MemoryRegion>)
        ensures
            base + len <= usize::MAX ==> r == Some(MemoryRegion { base, len }),
            base + len > usize::MAX ==> r is None,
    {
        if len <= usize::MAX - base {
            Some(MemoryRegion { base, len })
        } else {
            None
        }
    }

    /// The region of a module image that the native loader reports by its
    /// base address and its total image size.
    pub fn from_image(base: usize, image_size: usize) -> (r: Result<MemoryRegion, ModuleSigScanError>)
        ensures
            base + image_size <= usize::MAX ==> r == Ok::<MemoryRegion, ModuleSigScanError>(
                MemoryRegion { base, len: image_size },
            ),
            base + image_size > usize::MAX ==> r == Err::<MemoryRegion, ModuleSigScanError>(
                ModuleSigScanError::InvalidModule,
            ),
            r matches Ok(reg) ==> reg.wf(),
    {
        match MemoryRegion::new(base, image_size) {
            Some(reg) => Ok(reg),
            None => Err(ModuleSigScanError::InvalidModule),
        }
    }

    pub fn base(&self) -> (r: usize)
        ensures
            r == self.base,
    {
        self.base
    }

    pub fn len(&self) -> (r: usize)
        ensures
            r == self.len,
    {
        self.len
    }
}

} // verus!
