//! From the kernel's page operations to page-table writes: where an operation goes,
//! whether it may, and what its outcome means.

use vstd::prelude::*;

use crate::arch::paging::PagingApplyError;
use crate::arch::virt_layout::{USER_SPACE_BASE, USER_SPACE_SIZE};
use crate::arch::x86::{
    entry_flag_bits, frame_start_of, is_canonical, page_start_of, virt_addr_accepted,
    PHYS_ADDR_LIMIT,
};
use crate::kernel::lines::{error, info, push_error, push_info, push_value, value};
use crate::kernel::types::LogLine;
use crate::mem::addr::{PhysFrame, VirtPage};
use crate::mem::paging::{MemAction, PageFlags};

verus! {

/// A page-table write that obeys the rules. The addresses are starts of pages.
#[derive(Clone, Copy, Debug, PartialEq, Eq, Structural)]
pub enum PagePlan {
    MapTo { virt: u64, phys: u64, flags: u64 },
    Unmap { virt: u64 },
}

/// Why an operation may not reach a page table. Each of them stops the machine.
#[derive(Clone, Copy, Debug, PartialEq, Eq, Structural)]
pub enum PageRefusal {
    /// The page is not at a virtual address of the machine.
    BadVirtualAddress,
    /// The frame is not at a physical address of the machine.
    BadPhysicalAddress,
    /// A page for user code lies outside the user slot.
    UserOutsideSlot { virt: u64, flags: u64 },
    /// A page for the kernel lies in the user slot.
    KernelInsideSlot { virt: u64, flags: u64 },
}

/// What a mapping came to.
#[derive(Clone, Copy, Debug, PartialEq, Eq, Structural)]
pub enum MapOutcome {
    Done,
    FrameAllocationFailed,
    ParentEntryHugePage,
    PageAlreadyMapped { phys: u64 },
}

/// What an unmapping came to.
#[derive(Clone, Copy, Debug, PartialEq, Eq, Structural)]
pub enum UnmapOutcome {
    Done,
    PageNotMapped,
    InvalidFrameAddress { phys: u64 },
    ParentEntryHugePage,
}

pub open spec fn in_user_slot(addr: int) -> bool {
    USER_SPACE_BASE <= addr < USER_SPACE_BASE + USER_SPACE_SIZE
}

/// Whether an address lies in the user slot.
pub fn is_user_space_addr_u64(addr: u64) -> (r: bool)
    ensures
        r == in_user_slot(addr as int),
{
    addr >= USER_SPACE_BASE && addr < (USER_SPACE_BASE + USER_SPACE_SIZE)
}

/// The attributes that a page-table entry has a bit for, at their bits.
pub open spec fn spec_entry_flags(flags: PageFlags) -> u64 {
    flags.bits & 0x8000_0000_0000_0007
}

/// The bits of a page-table entry for some attributes.
pub fn to_x86_flags(flags: PageFlags) -> (bits: u64)
    ensures
        bits == spec_entry_flags(flags),
{
    let b: u64 = flags.bits;
    assert((if b & 1 == 1 { 1u64 } else { 0u64 }) + (if b & 2 == 2 { 2u64 } else { 0u64 }) + (if b
        & 4 == 4 { 4u64 } else { 0u64 }) + (if b & 0x8000_0000_0000_0000 == 0x8000_0000_0000_0000 {
        0x8000_0000_0000_0000u64
    } else {
        0u64
    }) == b & 0x8000_0000_0000_0007) by (bit_vector);
    entry_flag_bits(
        flags.contains(PageFlags::present()),
        flags.contains(PageFlags::writable()),
        flags.contains(PageFlags::user()),
        flags.contains(PageFlags::no_exec()),
    )
}

/// The rule on user mappings: what user code may use lies in the user slot, and nothing
/// else does.
pub open spec fn policy(virt: u64, flags: u64) -> Result<(), PageRefusal> {
    let user = flags & 4 == 4;
    if user && !in_user_slot(virt as int) {
        Err(PageRefusal::UserOutsideSlot { virt, flags })
    } else if !user && in_user_slot(virt as int) {
        Err(PageRefusal::KernelInsideSlot { virt, flags })
    } else {
        Ok(())
    }
}

/// Tests a mapping against the rule on user mappings.
pub fn enforce_user_mapping_policy(virt: u64, flags: u64) -> (r: Result<(), PageRefusal>)
    ensures
        r == policy(virt, flags),
{
    let in_slot: bool = is_user_space_addr_u64(virt);
    let user: bool = flags & 4 == 4;
    if user && !in_slot {
        return Err(PageRefusal::UserOutsideSlot { virt, flags });
    }
    if !user && in_slot {
        return Err(PageRefusal::KernelInsideSlot { virt, flags });
    }
    Ok(())
}

/// The address of a page: pages of user space are counted from the start of its slot.
pub open spec fn page_addr(page: VirtPage, user: bool) -> int {
    page.number * 4096 + (if user { USER_SPACE_BASE as int } else { 0 })
}

/// The address fits the machine.
pub open spec fn virt_ok(addr: int) -> bool {
    0 <= addr <= u64::MAX && is_canonical(addr as u64)
}

/// Where an operation goes, in the table at `root` or in the one in use.
pub open spec fn spec_plan(action: MemAction, root: Option<PhysFrame>) -> Result<
    PagePlan,
    PageRefusal,
> {
    match action {
        MemAction::MapPage { page, frame, flags } => {
            let bits = spec_entry_flags(flags);
            let virt = page_addr(page, bits & 4 == 4);
            if !page.addressable() {
                Err(PageRefusal::BadVirtualAddress)
            } else if !frame.addressable() {
                Err(PageRefusal::BadPhysicalAddress)
            } else if !virt_ok(virt) {
                Err(PageRefusal::BadVirtualAddress)
            } else {
                match policy(virt as u64, bits) {
                    Err(e) => Err(e),
                    Ok(_) => if frame.number * 4096 >= PHYS_ADDR_LIMIT {
                        Err(PageRefusal::BadPhysicalAddress)
                    } else {
                        Ok(
                            PagePlan::MapTo {
                                virt: virt as u64,
                                phys: (frame.number * 4096) as u64,
                                flags: bits,
                            },
                        )
                    },
                }
            }
        },
        MemAction::Unmap { page } => {
            let virt = page_addr(page, root is Some);
            if !page.addressable() || !virt_ok(virt) {
                Err(PageRefusal::BadVirtualAddress)
            } else {
                Ok(PagePlan::Unmap { virt: virt as u64 })
            }
        },
    }
}

/// What is said of an operation before it is carried out.
pub open spec fn plan_lines(
    action: MemAction,
    plan: Result<PagePlan, PageRefusal>,
) -> Seq<LogLine> {
    let first = match action {
        MemAction::MapPage { .. } => info("arch::paging::apply_mem_action: Map"),
        MemAction::Unmap { .. } => info("arch::paging::apply_mem_action: Unmap"),
    };
    seq![first] + match plan {
        Ok(PagePlan::MapTo { virt, phys, flags }) => seq![
            value("virt_addr", virt),
            value("phys_addr", phys),
            value("flags_bits", flags),
            info("REAL PAGING: map_to() will be executed"),
        ],
        Ok(PagePlan::Unmap { virt }) => seq![
            value("virt_addr", virt),
            info("REAL PAGING: unmap() will be executed"),
        ],
        Err(PageRefusal::UserOutsideSlot { virt, flags }) => seq![
            error("paging policy violation: USER mapping outside reserved user slot"),
            value("virt_addr", virt),
            value("flags_bits", flags),
        ],
        Err(PageRefusal::KernelInsideSlot { virt, flags }) => seq![
            error("paging policy violation: KERNEL mapping inside reserved user slot"),
            value("virt_addr", virt),
            value("flags_bits", flags),
        ],
        Err(_) => Seq::empty(),
    }
}

/// The start of a page at an address, if it fits the machine.
fn page_start(page: VirtPage, user: bool) -> (r: Option<u64>)
    ensures
        r == (if page.addressable() && virt_ok(page_addr(page, user)) {
            Some(page_addr(page, user) as u64)
        } else {
            None
        }),
{
    if page.number > u64::MAX / 4096 {
        return None;
    }
    let mut virt: u64 = page.start_address().0;
    if user {
        if virt > u64::MAX - USER_SPACE_BASE {
            return None;
        }
        virt = USER_SPACE_BASE + virt;
    }
    if !virt_addr_accepted(virt) {
        return None;
    }
    Some(page_start_of(virt))
}

/// Finds out where a mapping goes.
fn plan_map(page: VirtPage, frame: PhysFrame, flags: PageFlags) -> (r: Result<
    PagePlan,
    PageRefusal,
>)
    ensures
        r == spec_plan(MemAction::MapPage { page, frame, flags }, None),
{
    let bits: u64 = to_x86_flags(flags);
    if page.number > u64::MAX / 4096 {
        return Err(PageRefusal::BadVirtualAddress);
    }
    if frame.number > u64::MAX / 4096 {
        return Err(PageRefusal::BadPhysicalAddress);
    }
    let virt: u64 = match page_start(page, bits & 4 == 4) {
        Some(v) => v,
        None => {
            return Err(PageRefusal::BadVirtualAddress);
        },
    };
    match enforce_user_mapping_policy(virt, bits) {
        Err(e) => {
            return Err(e);
        },
        Ok(_) => {},
    }
    let phys: u64 = frame.start_address().0;
    if phys >= PHYS_ADDR_LIMIT {
        return Err(PageRefusal::BadPhysicalAddress);
    }
    Ok(PagePlan::MapTo { virt, phys: frame_start_of(phys), flags: bits })
}

/// Finds out where an operation goes, in the table at `root` or in the one in use, and
/// says so.
pub fn plan_mem_action(action: MemAction, root: Option<PhysFrame>, out: &mut Vec<LogLine>) -> (r:
    Result<PagePlan, PageRefusal>)
    ensures
        r == spec_plan(action, root),
        final(out)@ == old(out)@ + plan_lines(action, r),
{
    match action {
        MemAction::MapPage { page, frame, flags } => {
            push_info(out, "arch::paging::apply_mem_action: Map");
            let plan = plan_map(page, frame, flags);
            match plan {
                Ok(PagePlan::MapTo { virt, phys, flags: bits }) => {
                    push_value(out, "virt_addr", virt);
                    push_value(out, "phys_addr", phys);
                    push_value(out, "flags_bits", bits);
                    push_info(out, "REAL PAGING: map_to() will be executed");
                },
                Ok(PagePlan::Unmap { .. }) => {},
                Err(PageRefusal::UserOutsideSlot { virt, flags: bits }) => {
                    push_error(
                        out,
                        "paging policy violation: USER mapping outside reserved user slot",
                    );
                    push_value(out, "virt_addr", virt);
                    push_value(out, "flags_bits", bits);
                },
                Err(PageRefusal::KernelInsideSlot { virt, flags: bits }) => {
                    push_error(
                        out,
                        "paging policy violation: KERNEL mapping inside reserved user slot",
                    );
                    push_value(out, "virt_addr", virt);
                    push_value(out, "flags_bits", bits);
                },
                Err(_) => {},
            }
            assert(out@ =~= old(out)@ + plan_lines(action, plan));
            plan
        },
        MemAction::Unmap { page } => {
            push_info(out, "arch::paging::apply_mem_action: Unmap");
            let plan = match page_start(page, root.is_some()) {
                Some(virt) => {
                    push_value(out, "virt_addr", virt);
                    push_info(out, "REAL PAGING: unmap() will be executed");
                    Ok(PagePlan::Unmap { virt })
                },
                None => Err(PageRefusal::BadVirtualAddress),
            };
            assert(out@ =~= old(out)@ + plan_lines(action, plan));
            plan
        },
    }
}

pub open spec fn map_outcome_lines(outcome: MapOutcome) -> Seq<LogLine> {
    match outcome {
        MapOutcome::Done => seq![info("map_to: OK (flush done)")],
        MapOutcome::FrameAllocationFailed => seq![
            error("map_to: ERROR"),
            error("MapToError::FrameAllocationFailed"),
        ],
        MapOutcome::ParentEntryHugePage => seq![
            error("map_to: ERROR"),
            error("MapToError::ParentEntryHugePage"),
        ],
        MapOutcome::PageAlreadyMapped { phys } => seq![
            error("map_to: ERROR"),
            error("MapToError::PageAlreadyMapped"),
            value("already_mapped_phys_addr", phys),
        ],
    }
}

/// Says what a mapping came to.
pub fn finish_map(outcome: MapOutcome, out: &mut Vec<LogLine>) -> (r: Result<(), PagingApplyError>)
    ensures
        r == (if outcome == MapOutcome::Done {
            Ok(())
        } else {
            Err(PagingApplyError::MapFailed)
        }),
        final(out)@ == old(out)@ + map_outcome_lines(outcome),
{
    let r = match outcome {
        MapOutcome::Done => {
            push_info(out, "map_to: OK (flush done)");
            Ok(())
        },
        MapOutcome::FrameAllocationFailed => {
            push_error(out, "map_to: ERROR");
            push_error(out, "MapToError::FrameAllocationFailed");
            Err(PagingApplyError::MapFailed)
        },
        MapOutcome::ParentEntryHugePage => {
            push_error(out, "map_to: ERROR");
            push_error(out, "MapToError::ParentEntryHugePage");
            Err(PagingApplyError::MapFailed)
        },
        MapOutcome::PageAlreadyMapped { phys } => {
            push_error(out, "map_to: ERROR");
            push_error(out, "MapToError::PageAlreadyMapped");
            push_value(out, "already_mapped_phys_addr", phys);
            Err(PagingApplyError::MapFailed)
        },
    };
    assert(out@ =~= old(out)@ + map_outcome_lines(outcome));
    r
}

pub open spec fn unmap_outcome_lines(outcome: UnmapOutcome) -> Seq<LogLine> {
    match outcome {
        UnmapOutcome::Done => seq![info("unmap: OK (flush done)")],
        UnmapOutcome::PageNotMapped => seq![
            error("unmap: ERROR"),
            error("UnmapError::PageNotMapped"),
        ],
        UnmapOutcome::InvalidFrameAddress { phys } => seq![
            error("unmap: ERROR"),
            error("UnmapError::InvalidFrameAddress"),
            value("invalid_frame_phys_addr", phys),
        ],
        UnmapOutcome::ParentEntryHugePage => seq![
            error("unmap: ERROR"),
            error("UnmapError::ParentEntryHugePage"),
        ],
    }
}

/// Says what an unmapping came to.
pub fn finish_unmap(outcome: UnmapOutcome, out: &mut Vec<LogLine>) -> (r: Result<
    (),
    PagingApplyError,
>)
    ensures
        r == (if outcome == UnmapOutcome::Done {
            Ok(())
        } else {
            Err(PagingApplyError::UnmapFailed)
        }),
        final(out)@ == old(out)@ + unmap_outcome_lines(outcome),
{
    let r = match outcome {
        UnmapOutcome::Done => {
            push_info(out, "unmap: OK (flush done)");
            Ok(())
        },
        UnmapOutcome::PageNotMapped => {
            push_error(out, "unmap: ERROR");
            push_error(out, "UnmapError::PageNotMapped");
            Err(PagingApplyError::UnmapFailed)
        },
        UnmapOutcome::InvalidFrameAddress { phys } => {
            push_error(out, "unmap: ERROR");
            push_error(out, "UnmapError::InvalidFrameAddress");
            push_value(out, "invalid_frame_phys_addr", phys);
            Err(PagingApplyError::UnmapFailed)
        },
        UnmapOutcome::ParentEntryHugePage => {
            push_error(out, "unmap: ERROR");
            push_error(out, "UnmapError::ParentEntryHugePage");
            Err(PagingApplyError::UnmapFailed)
        },
    };
    assert(out@ =~= old(out)@ + unmap_outcome_lines(outcome));
    r
}

/// Every mapping that is planned obeys the rule: it is open to user code exactly if it
/// lies in the user slot. Its addresses are starts of pages.
pub proof fn law_planned_mapping_obeys_policy(action: MemAction, root: Option<PhysFrame>)
    ensures
        spec_plan(action, root) matches Ok(PagePlan::MapTo { virt, phys, flags }) ==> {
            &&& flags & 4 == 4 <==> in_user_slot(virt as int)
            &&& virt % 4096 == 0
            &&& phys % 4096 == 0
            &&& phys < PHYS_ADDR_LIMIT
        },
{
}

/// In an address space of its own, a page for user code is unmapped at the address at
/// which it was mapped.
pub proof fn law_user_page_is_unmapped_where_it_was_mapped(
    page: VirtPage,
    frame: PhysFrame,
    flags: PageFlags,
    root: PhysFrame,
)
    requires
        flags.spec_contains(PageFlags::user()),
    ensures
        spec_plan(MemAction::MapPage { page, frame, flags }, Some(root)) matches Ok(
            PagePlan::MapTo { virt, .. },
        ) ==> spec_plan(MemAction::Unmap { page }, Some(root)) == Ok::<PagePlan, PageRefusal>(
            PagePlan::Unmap { virt },
        ),
{
    let b = flags.bits;
    assert(b & 4 == 4 ==> (b & 0x8000_0000_0000_0007) & 4 == 4) by (bit_vector);
}

/// Two pages for user code never share an address.
pub proof fn law_user_pages_are_apart(a: VirtPage, b: VirtPage)
    requires
        a != b,
    ensures
        page_addr(a, true) + 4096 <= page_addr(b, true) || page_addr(b, true) + 4096 <= page_addr(
            a,
            true,
        ),
{
}

} // verus!
