//! The calls into the `x86_64` crate, each behind a function with a contract.

use vstd::prelude::*;

use x86_64::structures::paging::{PageTable, PageTableFlags, Size4KiB};

use crate::arch::virt_layout::spec_canonicalize;
use crate::mem::addr::page_floor;

verus! {

/// Physical addresses have 52 bits.
pub const PHYS_ADDR_LIMIT: u64 = 0x10_0000_0000_0000;

/// The bit of a page-table entry that opens it to user code.
pub const ENTRY_USER_BIT: u64 = 4;

/// Whether the bits above bit 47 repeat it.
pub open spec fn is_canonical(addr: u64) -> bool {
    addr == spec_canonicalize(addr)
}

/// Calls `x86_64::PhysAddr::new`, which takes an address of 52 bits at most, and
/// `PhysFrame::<Size4KiB>::containing_address`, which rounds it down to a multiple of
/// 4096. Gives the start address of that frame.
#[verifier::external_body]
pub(crate) fn frame_start_of(addr: u64) -> (start: u64)
    requires
        addr < PHYS_ADDR_LIMIT,
    ensures
        start == page_floor(addr),
{
    x86_64::structures::paging::PhysFrame::<Size4KiB>::containing_address(
        x86_64::PhysAddr::new(addr),
    ).start_address().as_u64()
}

/// Calls `x86_64::VirtAddr::try_new`, which takes an address if bits 48 to 63 are copies
/// of bit 47, and no other.
#[verifier::external_body]
pub(crate) fn virt_addr_accepted(addr: u64) -> (r: bool)
    ensures
        r == is_canonical(addr),
{
    x86_64::VirtAddr::try_new(addr).is_ok()
}

/// Calls `x86_64::VirtAddr::new`, which takes a canonical address, and
/// `Page::<Size4KiB>::containing_address`, which rounds it down to a multiple of 4096.
/// Gives the start address of that page.
#[verifier::external_body]
pub(crate) fn page_start_of(addr: u64) -> (start: u64)
    requires
        is_canonical(addr),
    ensures
        start == page_floor(addr),
{
    x86_64::structures::paging::Page::<Size4KiB>::containing_address(
        x86_64::VirtAddr::new(addr),
    ).start_address().as_u64()
}

/// Builds `x86_64::structures::paging::PageTableFlags` out of four attributes and gives
/// its bits: `PRESENT` is bit 0, `WRITABLE` bit 1, `USER_ACCESSIBLE` bit 2 and
/// `NO_EXECUTE` bit 63, and nothing else is set.
#[verifier::external_body]
pub(crate) fn entry_flag_bits(present: bool, writable: bool, user: bool, no_exec: bool) -> (bits:
    u64)
    ensures
        bits == (if present { 1int } else { 0 }) + (if writable { 2int } else { 0 }) + (if user {
            4int
        } else {
            0
        }) + (if no_exec { 0x8000_0000_0000_0000int } else { 0 }),
{
    let mut flags = PageTableFlags::empty();
    flags.set(PageTableFlags::PRESENT, present);
    flags.set(PageTableFlags::WRITABLE, writable);
    flags.set(PageTableFlags::USER_ACCESSIBLE, user);
    flags.set(PageTableFlags::NO_EXECUTE, no_exec);
    flags.bits()
}

/// A page table: 512 entries of 64 bits.
#[verifier::external_type_specification]
#[verifier::external_body]
pub struct ExPageTable(x86_64::structures::paging::PageTable);

/// What a page table holds: the entries as words, by index.
pub uninterp spec fn table_entries(table: PageTable) -> Map<int, u64>;

/// Calls `PageTableEntry::is_unused` on entry `i`: whether it is zero.
#[verifier::external_body]
pub(crate) fn entry_is_unused(table: &PageTable, i: usize) -> (r: bool)
    requires
        i < 512,
    ensures
        r == (table_entries(*table)[i as int] == 0),
{
    table[i].is_unused()
}

/// Asks `PageTableEntry::flags` of entry `i` whether it contains `USER_ACCESSIBLE`, which
/// is bit 2 of the entry.
#[verifier::external_body]
pub(crate) fn entry_is_user(table: &PageTable, i: usize) -> (r: bool)
    requires
        i < 512,
    ensures
        r == (table_entries(*table)[i as int] & ENTRY_USER_BIT == ENTRY_USER_BIT),
{
    table[i].flags().contains(PageTableFlags::USER_ACCESSIBLE)
}

/// Calls `PageTableEntry::set_unused` on entry `i`, which makes it zero.
#[verifier::external_body]
pub(crate) fn clear_entry(table: &mut PageTable, i: usize)
    requires
        i < 512,
    ensures
        table_entries(*final(table)) == table_entries(*old(table)).insert(i as int, 0),
{
    table[i].set_unused();
}

/// Puts a clone of entry `i` of one `PageTable` at the same index of another.
#[verifier::external_body]
pub(crate) fn copy_entry(from: &PageTable, to: &mut PageTable, i: usize)
    requires
        i < 512,
    ensures
        table_entries(*final(to)) == table_entries(*old(to)).insert(
            i as int,
            table_entries(*from)[i as int],
        ),
{
    to[i] = from[i].clone();
}

/// Puts a clone of entry `src` of a `PageTable` at index `dst` of the same table.
#[verifier::external_body]
pub(crate) fn duplicate_entry(table: &mut PageTable, src: usize, dst: usize)
    requires
        src < 512,
        dst < 512,
    ensures
        table_entries(*final(table)) == table_entries(*old(table)).insert(
            dst as int,
            table_entries(*old(table))[src as int],
        ),
{
    table[dst] = table[src].clone();
}

} // verus!
