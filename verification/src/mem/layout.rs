//! The virtual address layout: the reserved user slot, the kernel half, the physmap.

use vstd::prelude::*;

use crate::types::spec_pml4_index;

verus! {

/// The range that one PML4 entry covers (512 GiB).
pub const PML4_SLOT_SIZE: u64 = 0x80_0000_0000;

/// The PML4 index that is reserved for user space.
pub const USER_PML4_INDEX: u64 = 32;

/// First address of the reserved user slot.
pub const USER_SPACE_START: u64 = 0x1000_0000_0000;

/// Last address of the reserved user slot.
pub const USER_SPACE_END: u64 = 0x107f_ffff_ffff;

/// First address of the kernel half, the physmap included.
pub const KERNEL_SPACE_START: u64 = 0xffff_8000_0000_0000;

/// Where the window onto physical memory is meant to start.
pub const PHYSMAP_START: u64 = 0xffff_8000_0000_0000;

/// Where the window onto physical memory is meant to end.
pub const PHYSMAP_END: u64 = 0xffff_87ff_ffff_ffff;

/// The user slot is exactly the slot of `USER_PML4_INDEX`, below the kernel half.
pub proof fn law_user_slot_is_its_pml4_slot()
    ensures
        USER_SPACE_START == USER_PML4_INDEX * PML4_SLOT_SIZE,
        USER_SPACE_END == USER_SPACE_START + (PML4_SLOT_SIZE - 1),
        USER_SPACE_END < KERNEL_SPACE_START,
        forall|a: u64|
            USER_SPACE_START <= a <= USER_SPACE_END ==> spec_pml4_index(a) == USER_PML4_INDEX,
{
}

} // verus!
