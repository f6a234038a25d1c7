//! Plain types and constants shared by the whole kernel.

use vstd::prelude::*;

verus! {

pub type PhysAddr = u64;

pub type VirtAddr = u64;

pub const PAGE_SIZE: u64 = 4096;

pub const PML4_ENTRY_COUNT: usize = 512;

pub const PML4_INDEX_BITS: u64 = 9;

/// One PML4 entry covers 512 GiB.
pub const PML4_ENTRY_SHIFT: u64 = 39;

pub const PML4_ENTRY_SIZE: u64 = 0x80_0000_0000;

pub const PML4_INDEX_MASK: u64 = 0x1ff;

/// The PML4 slot of a virtual address: which 512 GiB slot of the 48-bit space holds it.
pub open spec fn spec_pml4_index(virt: u64) -> int {
    (virt as int / 0x80_0000_0000) % 512
}

/// Takes the PML4 index (bits 47..39) out of a virtual address.
pub fn pml4_index(virt: VirtAddr) -> (index: usize)
    ensures
        index == spec_pml4_index(virt),
{
    assert((virt >> 39u64) & 0x1ffu64 == (virt / 0x80_0000_0000u64) % 512u64) by (bit_vector);
    ((virt >> PML4_ENTRY_SHIFT) & PML4_INDEX_MASK) as usize
}

#[derive(Clone, Copy, Debug, PartialEq, Eq, Structural)]
pub enum MemoryRegionType {
    Usable,
    Reserved,
    Other,
}

impl MemoryRegionType {
    pub open spec fn spec_name(self) -> &'static str {
        match self {
            MemoryRegionType::Usable => "Usable",
            MemoryRegionType::Reserved => "Reserved",
            MemoryRegionType::Other => "Other",
        }
    }

    /// The name of the region type, as it is shown to people.
    pub fn name(self) -> (name: &'static str)
        ensures
            name == self.spec_name(),
    {
        match self {
            MemoryRegionType::Usable => "Usable",
            MemoryRegionType::Reserved => "Reserved",
            MemoryRegionType::Other => "Other",
        }
    }
}

#[derive(Clone, Copy, Debug)]
pub struct MemoryRegion {
    pub index: usize,
    pub start_phys: PhysAddr,
    pub end_phys: PhysAddr,
    pub region_type: MemoryRegionType,
}

impl MemoryRegion {
    /// The number of bytes in the region; a region that ends before it starts has none.
    pub fn size_bytes(&self) -> (size: u64)
        ensures
            size == if self.end_phys >= self.start_phys {
                self.end_phys - self.start_phys
            } else {
                0
            },
    {
        self.end_phys.saturating_sub(self.start_phys)
    }
}

} // verus!
