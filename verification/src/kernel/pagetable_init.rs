//! Root page tables for new address spaces.

use vstd::prelude::*;

use crate::mem::addr::PhysFrame;
use crate::mm::PhysicalMemoryManager;

verus! {

/// Sets a frame aside for a root page table. The frame is not cleared here: whoever fills
/// the table writes every entry.
pub fn allocate_new_l4_table(phys_mem: &mut PhysicalMemoryManager) -> (f: Option<PhysFrame>)
    requires
        old(phys_mem).wf(),
    ensures
        final(phys_mem).wf(),
        match f {
            Some(frame) => old(phys_mem)@.len() > 0 && frame.number == old(phys_mem)@[0]
                && frame.number < 0x100_0000_0000 && final(phys_mem)@ == old(phys_mem)@.skip(1),
            None => old(phys_mem)@.len() == 0 && final(phys_mem)@ == old(phys_mem)@,
        },
{
    phys_mem.allocate_frame()
}

} // verus!
