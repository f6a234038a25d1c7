//! What holds of the machine's side: a page operation is planned as it was asked for, an
//! address space is entered only where that is safe, and what is said of it tells the truth.

use vstd::prelude::*;

use crate::arch::gdt::{gdt_lines, GdtPlaces};
use crate::arch::paging::apply::{
    in_user_slot, map_outcome_lines, plan_lines, spec_entry_flags, spec_plan, unmap_outcome_lines,
    MapOutcome, PagePlan, PageRefusal, UnmapOutcome,
};
use crate::arch::paging::cr3::{
    configure_lines, physmap_check, physmap_lines, preflight, preflight_lines, spec_switch_step,
    switch_lines, Cr3Guard, PhysmapCollision, PreflightError, PreflightQuery, PreflightReply,
    SwitchStep,
};
use crate::arch::paging::fault::spec_guard_addr;
use crate::arch::paging::region_lines;
use crate::arch::paging::tables::{
    alias_entry_lines, alias_self_check_lines, floor_16, user_root_lines, UserRootError,
};
use crate::arch::virt_layout::{
    law_high_alias, slot_base, spec_high_alias, KERNEL_ALIAS_MAX_COPY_COUNT, USER_PML4_INDEX,
    USER_SPACE_BASE, USER_SPACE_SIZE,
};
use crate::arch::x86::{is_canonical, PHYS_ADDR_LIMIT};
use crate::kernel::lines::{tells, warns};
use crate::mem::addr::PhysFrame;
use crate::mem::layout::KERNEL_SPACE_START;
use crate::mem::paging::{MemAction, PageFlags};
use crate::mm::BootRegion;
use crate::types::spec_pml4_index;

verus! {

/// The entry has just those of the four attributes that were asked for.
pub open spec fn same_attributes(entry: u64, flags: PageFlags) -> bool {
    &&& entry & 1 == 1 <==> flags.spec_contains(PageFlags::present())
    &&& entry & 2 == 2 <==> flags.spec_contains(PageFlags::writable())
    &&& entry & 4 == 4 <==> flags.spec_contains(PageFlags::user())
    &&& entry & 0x8000_0000_0000_0000 == 0x8000_0000_0000_0000 <==> flags.spec_contains(
        PageFlags::no_exec(),
    )
    &&& entry & 0x7fff_ffff_ffff_fff8 == 0
}

/// The bits of an entry are the attributes that were asked for, and nothing else.
pub proof fn law_entry_has_the_attributes(flags: PageFlags)
    ensures
        same_attributes(spec_entry_flags(flags), flags),
{
    let b = flags.bits;
    assert({
        let e = b & 0x8000_0000_0000_0007;
        &&& e & 1 == b & 1
        &&& e & 2 == b & 2
        &&& e & 4 == b & 4
        &&& e & 0x8000_0000_0000_0000 == b & 0x8000_0000_0000_0000
        &&& e & 0x7fff_ffff_ffff_fff8 == 0
    }) by (bit_vector);
}

/// A page operation is planned as it was asked for: the page at its address, counted from the
/// start of user space where it is for user code, the very frame, and the very attributes.
#[verifier::rlimit(40)]
pub proof fn law_plan_is_what_was_asked(action: MemAction, root: Option<PhysFrame>)
    ensures
        match spec_plan(action, root) {
            Ok(PagePlan::MapTo { virt, phys, flags: entry }) => match action {
                MemAction::MapPage { page, frame, flags } => {
                    &&& virt == page.number * 4096 + if flags.spec_contains(PageFlags::user()) {
                        USER_SPACE_BASE as int
                    } else {
                        0
                    }
                    &&& phys == frame.number * 4096
                    &&& same_attributes(entry, flags)
                },
                MemAction::Unmap { .. } => false,
            },
            Ok(PagePlan::Unmap { virt }) => match action {
                MemAction::MapPage { .. } => false,
                MemAction::Unmap { page } => virt == page.number * 4096 + if root is Some {
                    USER_SPACE_BASE as int
                } else {
                    0
                },
            },
            Err(_) => true,
        },
{
    if let MemAction::MapPage { flags, .. } = action {
        law_entry_has_the_attributes(flags);
    }
}

/// A page for user code that lies in the user slot, and whose frame the machine has, is
/// never refused; nor is a page of the kernel in the lower half outside that slot.
#[verifier::rlimit(40)]
pub proof fn law_good_mapping_is_planned(action: MemAction, root: Option<PhysFrame>)
    requires
        action matches MemAction::MapPage { page, frame, flags } && frame.number * 4096
            < PHYS_ADDR_LIMIT && if flags.spec_contains(PageFlags::user()) {
            page.number * 4096 < USER_SPACE_SIZE
        } else {
            page.number * 4096 < 0x8000_0000_0000 && !in_user_slot(page.number * 4096)
        },
    ensures
        spec_plan(action, root) is Ok,
{
    if let MemAction::MapPage { flags, .. } = action {
        law_entry_has_the_attributes(flags);
    }
}

/// A refusal says why: a page for user code outside the user slot, a page of the kernel inside
/// it, a frame or a page that the machine does not have.
#[verifier::rlimit(40)]
pub proof fn law_refusal_says_why(action: MemAction, root: Option<PhysFrame>)
    ensures
        spec_plan(action, root) matches Err(e) ==> match action {
            MemAction::MapPage { page, frame, flags } => {
                let user = flags.spec_contains(PageFlags::user());
                let virt = page.number * 4096 + if user {
                    USER_SPACE_BASE as int
                } else {
                    0
                };
                match e {
                    PageRefusal::UserOutsideSlot { virt: at, flags: bits } => user && !in_user_slot(
                        virt,
                    ) && at == virt && same_attributes(bits, flags),
                    PageRefusal::KernelInsideSlot { virt: at, flags: bits } => !user
                        && in_user_slot(virt) && at == virt && same_attributes(bits, flags),
                    PageRefusal::BadPhysicalAddress => frame.number * 4096 >= PHYS_ADDR_LIMIT,
                    PageRefusal::BadVirtualAddress => virt > u64::MAX || !is_canonical(virt as u64),
                }
            },
            MemAction::Unmap { .. } => e == PageRefusal::BadVirtualAddress,
        },
{
    if let MemAction::MapPage { flags, .. } = action {
        law_entry_has_the_attributes(flags);
    }
}

/// What is said of a plan names its addresses and attributes, and warns exactly where the
/// rule on user mappings was broken.
pub proof fn law_plan_is_told(action: MemAction, plan: Result<PagePlan, PageRefusal>)
    ensures
        ({
            let l = plan_lines(action, plan);
            &&& warns(l) <==> (plan matches Err(e) && (e is UserOutsideSlot
                || e is KernelInsideSlot))
            &&& match plan {
                Ok(PagePlan::MapTo { virt, phys, flags }) => tells(l, "virt_addr", virt as int)
                    && tells(l, "phys_addr", phys as int) && tells(l, "flags_bits", flags as int),
                Ok(PagePlan::Unmap { virt }) => tells(l, "virt_addr", virt as int),
                Err(PageRefusal::UserOutsideSlot { virt, flags }) => tells(
                    l,
                    "virt_addr",
                    virt as int,
                ) && tells(l, "flags_bits", flags as int),
                Err(PageRefusal::KernelInsideSlot { virt, flags }) => tells(
                    l,
                    "virt_addr",
                    virt as int,
                ) && tells(l, "flags_bits", flags as int),
                Err(_) => true,
            }
        }),
{
    let l = plan_lines(action, plan);
    match plan {
        Ok(PagePlan::MapTo { .. }) => {
            assert(l[1] is Value && l[2] is Value && l[3] is Value);
        },
        Ok(PagePlan::Unmap { .. }) => {
            assert(l[1] is Value);
        },
        Err(PageRefusal::UserOutsideSlot { .. }) => {
            assert(l[1] is Error && l[2] is Value && l[3] is Value);
        },
        Err(PageRefusal::KernelInsideSlot { .. }) => {
            assert(l[1] is Error && l[2] is Value && l[3] is Value);
        },
        Err(_) => {},
    }
}

/// What is said of an outcome warns exactly if it was a failure, and names the address that
/// was in the way.
pub proof fn law_outcome_is_told(map: MapOutcome, unmap: UnmapOutcome)
    ensures
        warns(map_outcome_lines(map)) <==> map != MapOutcome::Done,
        warns(unmap_outcome_lines(unmap)) <==> unmap != UnmapOutcome::Done,
        map matches MapOutcome::PageAlreadyMapped { phys } ==> tells(
            map_outcome_lines(map),
            "already_mapped_phys_addr",
            phys as int,
        ),
        unmap matches UnmapOutcome::InvalidFrameAddress { phys } ==> tells(
            unmap_outcome_lines(unmap),
            "invalid_frame_phys_addr",
            phys as int,
        ),
{
    let l = map_outcome_lines(map);
    let u = unmap_outcome_lines(unmap);
    if map != MapOutcome::Done {
        assert(l[0] is Error);
    }
    if unmap != UnmapOutcome::Done {
        assert(u[0] is Error);
    }
    if map is PageAlreadyMapped {
        assert(l[2] is Value);
    }
    if unmap is InvalidFrameAddress {
        assert(u[2] is Value);
    }
}

/// A switch goes to the root that was asked for, exactly where switches are on.
pub proof fn law_switch_goes_to_the_root(guard: Cr3Guard, root: Option<PhysFrame>)
    ensures
        match spec_switch_step(guard, root) {
            SwitchStep::Switch { target } => guard.allowed && root == Some(target),
            SwitchStep::Skipped => !guard.allowed && root is Some,
            SwitchStep::NoRoot => root is None,
        },
        root matches Some(target) ==> tells(
            switch_lines(guard, root),
            "root_page_frame_index",
            target.number as int,
        ),
{
    if root is Some {
        assert(switch_lines(guard, root)[1] is Value);
    }
}

/// A piece of code and a stack are where they were: there is nothing known of them, or what
/// they are mapped to is what is known.
pub open spec fn still_there(
    code: u64,
    stack: u64,
    known_code: u64,
    known_stack: u64,
    code_phys: u64,
    stack_phys: u64,
) -> bool {
    code == 0 || stack == 0 || code_phys == 0 || stack_phys == 0 || (known_code == code_phys
        && known_stack == stack_phys)
}

/// A switch is found to be safe exactly where it is: the window keeps clear of the user slot,
/// and, unless the table stays the same, the code and the stack in use are mapped, the table
/// is in reach, and the code and the stack of the guard are where they were.
#[verifier::rlimit(40)]
pub proof fn law_switch_is_refused_only_for_cause(
    guard: Cr3Guard,
    physmap_off: u64,
    current_phys: u64,
    target_phys: u64,
    reply: PreflightReply,
)
    ensures
        ({
            let r = preflight(guard, physmap_off, current_phys, target_phys, reply);
            let clear = physmap_check(physmap_off) is Ok;
            let same = current_phys == target_phys;
            let mapped = reply.rip != 0 && reply.rsp != 0;
            let in_reach = reply.table == target_phys;
            let low = reply.user_slot == 0 || still_there(
                guard.code_virt,
                guard.stack_virt,
                reply.code_low,
                reply.stack_low,
                guard.code_phys,
                guard.stack_phys,
            );
            let high = still_there(
                guard.code_high_virt,
                guard.stack_high_virt,
                reply.code_high,
                reply.stack_high,
                guard.code_phys,
                guard.stack_phys,
            );
            match r {
                Ok(_) => clear && (same || (mapped && in_reach && low && high)),
                Err(PreflightError::Physmap { .. }) => !clear,
                Err(PreflightError::ContextNotMapped) => clear && !same && !mapped,
                Err(PreflightError::PhysmapMissing) => clear && !same && mapped && !in_reach,
                Err(PreflightError::GuardLowMismatch) => clear && !same && mapped && in_reach
                    && !low,
                Err(PreflightError::GuardHighMismatch) => clear && !same && mapped && in_reach
                    && low && !high,
            }
        }),
{
}

/// What is said of the test before a switch warns exactly if the test failed.
#[verifier::rlimit(40)]
pub proof fn law_failed_test_is_told(
    guard: Cr3Guard,
    physmap_off: u64,
    current_phys: u64,
    target_phys: u64,
    query: PreflightQuery,
    reply: PreflightReply,
)
    ensures
        ({
            let r = preflight(guard, physmap_off, current_phys, target_phys, reply);
            let l = preflight_lines(
                guard,
                physmap_off,
                current_phys,
                target_phys,
                query,
                reply,
            );
            &&& warns(l) <==> r is Err
            &&& r == Err::<(), _>(PreflightError::ContextNotMapped) ==> tells(
                l,
                "rip",
                query.rip as int,
            ) && tells(l, "rsp", query.rsp as int) && tells(l, "rip_phys_tgt", reply.rip as int)
                && tells(l, "rsp_phys_tgt", reply.rsp as int)
            &&& r == Err::<(), _>(PreflightError::PhysmapMissing) ==> tells(
                l,
                "target_pml4_phys",
                target_phys as int,
            ) && tells(l, "translated_phys", reply.table as int)
            &&& r == Err::<(), _>(PreflightError::GuardHighMismatch) ==> tells(
                l,
                "expected_code_phys",
                guard.code_phys as int,
            ) && tells(l, "got_code_phys", reply.code_high as int) && tells(
                l,
                "expected_stack_phys",
                guard.stack_phys as int,
            ) && tells(l, "got_stack_phys", reply.stack_high as int)
        }),
{
    let l = preflight_lines(guard, physmap_off, current_phys, target_phys, query, reply);
    let k = l.len() as int;
    match preflight(guard, physmap_off, current_phys, target_phys, reply) {
        Ok(_) => {},
        Err(PreflightError::Physmap { .. }) => {
            assert(l[0] is Error);
        },
        Err(PreflightError::ContextNotMapped) => {
            assert(l[0] is Error && l[1] is Value && l[2] is Value && l[4] is Value
                && l[5] is Value);
        },
        Err(PreflightError::PhysmapMissing) => {
            assert(l[k - 4] is Error && l[k - 3] is Value && l[k - 1] is Value);
        },
        Err(PreflightError::GuardLowMismatch) => {
            assert(l[k - 1] is Error);
        },
        Err(PreflightError::GuardHighMismatch) => {
            assert(l[k - 5] is Error && l[k - 4] is Value && l[k - 3] is Value && l[k - 2] is Value
                && l[k - 1] is Value);
        },
    }
}

/// The guard keeps what was found of the code and the stack, and where they are in the kernel
/// half: an address of that half is there already, and one of the first slots has its alias.
/// Where one of them was not found, nothing is kept and there are no switches.
#[verifier::rlimit(40)]
pub proof fn law_guard_keeps_what_was_found(
    guard: Cr3Guard,
    code_addr: u64,
    stack_addr: u64,
    code_phys: u64,
    stack_phys: u64,
)
    ensures
        ({
            let g = guard.configured(code_addr, stack_addr, code_phys, stack_phys);
            let l = configure_lines(code_addr, stack_addr, code_phys, stack_phys);
            let found = code_phys != 0 && stack_phys != 0;
            &&& found ==> g.code_virt == code_addr && g.stack_virt == stack_addr && g.code_phys
                == code_phys && g.stack_phys == stack_phys
            &&& found && code_addr >= KERNEL_SPACE_START ==> g.code_high_virt == code_addr
            &&& found && stack_addr >= KERNEL_SPACE_START ==> g.stack_high_virt == stack_addr
            &&& found && code_addr < 0x200_0000_0000 ==> g.code_high_virt == code_addr
                + 0xffff_fe00_0000_0000
            &&& found && stack_addr < 0x200_0000_0000 ==> g.stack_high_virt == stack_addr
                + 0xffff_fe00_0000_0000
            &&& g.allowed <==> found && code_addr >= KERNEL_SPACE_START && stack_addr
                >= KERNEL_SPACE_START
            &&& !found ==> g == Cr3Guard { allowed: false, ..guard }
            &&& warns(l) <==> !found
            &&& tells(l, "code_addr", code_addr as int) && tells(l, "stack_addr", stack_addr as int)
            &&& found ==> tells(l, "expected_code_phys", code_phys as int) && tells(
                l,
                "expected_stack_phys",
                stack_phys as int,
            )
        }),
{
    let l = configure_lines(code_addr, stack_addr, code_phys, stack_phys);
    assert(l[1] is Value && l[2] is Value);
    if code_phys == 0 || stack_phys == 0 {
        assert(l[3] is Error);
    } else {
        assert(l[4] is Value && l[5] is Value);
    }
    if code_addr < 0x200_0000_0000 {
        law_high_alias(code_addr, code_addr);
    }
    if stack_addr < 0x200_0000_0000 {
        law_high_alias(stack_addr, stack_addr);
    }
}

/// A canonical address is at its place in its slot.
pub proof fn law_address_lies_in_its_slot(addr: u64)
    requires
        is_canonical(addr),
    ensures
        0 <= spec_pml4_index(addr) < 512,
        addr == slot_base(spec_pml4_index(addr)) + addr as int % 0x80_0000_0000,
{
    let low = addr as int % 0x1_0000_0000_0000;
    let i = spec_pml4_index(addr);
    assert(i == low / 0x80_0000_0000);
    assert(low == i * 0x80_0000_0000 + low % 0x80_0000_0000);
    assert(addr as int % 0x80_0000_0000 == low % 0x80_0000_0000);
}

proof fn lemma_stack_place(top: u64)
    requires
        top < 0x200_0000_0000,
    ensures
        ({
            let high = floor_16(spec_high_alias(top)) as u64;
            high % 16 == 0 && 0 <= top + 0xffff_fe00_0000_0000 - high < 16
        }),
{
    law_high_alias(top, top);
}

/// Every place in the high alias is the same distance above its place in the first slots,
/// down to a multiple of 16 where it is a stack.
pub proof fn law_places_move_into_the_alias(low: GdtPlaces)
    requires
        low.tss < 0x200_0000_0000,
        low.rsp0 < 0x200_0000_0000,
        low.df_ist < 0x200_0000_0000,
        low.pf_ist < 0x200_0000_0000,
    ensures
        ({
            let high = low.high();
            let up: int = 0xffff_fe00_0000_0000;
            &&& high.tss == low.tss + up
            &&& high.rsp0 % 16 == 0 && 0 <= low.rsp0 + up - high.rsp0 < 16
            &&& high.df_ist % 16 == 0 && 0 <= low.df_ist + up - high.df_ist < 16
            &&& high.pf_ist % 16 == 0 && 0 <= low.pf_ist + up - high.pf_ist < 16
        }),
{
    law_high_alias(low.tss, low.tss);
    lemma_stack_place(low.rsp0);
    lemma_stack_place(low.df_ist);
    lemma_stack_place(low.pf_ist);
}

/// What is said of the places names every one of them, where it was and where it is.
#[verifier::rlimit(40)]
pub proof fn law_places_are_told(low: GdtPlaces, high: GdtPlaces)
    ensures
        ({
            let l = gdt_lines(low, high);
            &&& tells(l, "tss_low", low.tss as int) && tells(l, "tss_high", high.tss as int)
            &&& tells(l, "rsp0_low", low.rsp0 as int) && tells(l, "rsp0_high", high.rsp0 as int)
            &&& tells(l, "df_ist_low", low.df_ist as int) && tells(
                l,
                "df_ist_high",
                high.df_ist as int,
            )
            &&& tells(l, "pf_ist_low", low.pf_ist as int) && tells(
                l,
                "pf_ist_high",
                high.pf_ist as int,
            )
        }),
{
    let l = gdt_lines(low, high);
    assert(l[1] is Value && l[2] is Value && l[4] is Value && l[5] is Value);
    assert(l[8] is Value && l[9] is Value && l[12] is Value && l[13] is Value);
}

/// What is said of a region of the memory map names its bounds, in bytes.
pub proof fn law_region_is_told(regions: Seq<BootRegion>, i: int)
    requires
        0 <= i < regions.len() <= u64::MAX,
        regions[i].start_frame_number * 4096 <= u64::MAX,
        regions[i].end_frame_number * 4096 <= u64::MAX,
    ensures
        ({
            let l = region_lines(regions)(i);
            &&& tells(l, "index", i)
            &&& tells(l, "start_phys", regions[i].start_frame_number * 4096)
            &&& tells(l, "end_phys", regions[i].end_frame_number * 4096)
        }),
{
    let l = region_lines(regions)(i);
    assert(l[1] is Value && l[2] is Value && l[3] is Value);
}

/// What is said of the window onto physical memory warns exactly if it is in the way, and
/// names the slots.
pub proof fn law_collision_is_told(r: Result<(), PhysmapCollision>)
    ensures
        ({
            let l = physmap_lines(r);
            &&& warns(l) <==> r is Err
            &&& r matches Err(PhysmapCollision::SameSlot { physmap_pml4 }) ==> tells(
                l,
                "physmap_pml4_index",
                physmap_pml4 as int,
            )
            &&& r matches Err(PhysmapCollision::Overlap { start, end }) ==> tells(
                l,
                "physmap_pml4_start",
                start as int,
            ) && tells(l, "physmap_pml4_end", end as int)
        }),
{
    let l = physmap_lines(r);
    if r is Err {
        assert(l[0] is Error && l[1] is Value && l[2] is Value);
    }
}

/// What is said of a user root warns exactly if it could not be made, and names the entry that
/// is to blame.
pub proof fn law_user_root_is_told(
    physmap_off: u64,
    alias_count: usize,
    r: Result<(), UserRootError>,
)
    ensures
        ({
            let l = user_root_lines(physmap_off, alias_count, r);
            &&& warns(l) <==> r is Err
            &&& r is Ok ==> tells(l, "pml4_index", USER_PML4_INDEX as int) && tells(
                l,
                "physmap_pml4_index",
                spec_pml4_index(physmap_off),
            )
            &&& r matches Err(UserRootError::PhysmapEntryIsUser { index }) ==> tells(
                l,
                "pml4_index",
                index as int,
            )
            &&& r matches Err(UserRootError::KernelEntryIsUser { index }) ==> tells(
                l,
                "pml4_index",
                index as int,
            )
        }),
{
    let l = user_root_lines(physmap_off, alias_count, r);
    match r {
        Ok(_) => {
            assert(l[1] is Value && l[4] is Value);
        },
        Err(UserRootError::Physmap { collision }) => {
            law_collision_is_told(Err(collision));
        },
        Err(_) => {
            assert(l[0] is Error && l[1] is Value);
        },
    }
}

/// What is said of the test of the alias warns exactly if the code or the stack of the guard is
/// elsewhere, and names where both should be and where they are.
pub proof fn law_alias_test_is_told(guard: Cr3Guard, code_phys: u64, stack_phys: u64)
    ensures
        ({
            let l = alias_self_check_lines(guard, code_phys, stack_phys);
            let known = guard.code_virt != 0 && guard.stack_virt != 0 && guard.code_phys != 0
                && guard.stack_phys != 0;
            let there = code_phys == guard.code_phys && stack_phys == guard.stack_phys;
            &&& warns(l) <==> known && !there
            &&& known && !there ==> tells(l, "expected_code_phys", guard.code_phys as int)
                && tells(l, "actual_code_phys", code_phys as int) && tells(
                l,
                "expected_stack_phys",
                guard.stack_phys as int,
            ) && tells(l, "actual_stack_phys", stack_phys as int)
        }),
{
    let l = alias_self_check_lines(guard, code_phys, stack_phys);
    if guard.has_low() && (code_phys != guard.code_phys || stack_phys != guard.stack_phys) {
        assert(l[0] is Error && l[1] is Value && l[2] is Value && l[3] is Value && l[4] is Value);
    }
}

/// The guard of page faults is reached through the alias where it lies in the first slots, and
/// where it is otherwise.
pub proof fn law_guard_is_reached_from_everywhere(addr: u64)
    requires
        addr < 0x200_0000_0000 || addr >= KERNEL_SPACE_START,
    ensures
        spec_guard_addr(addr) >= KERNEL_SPACE_START,
        addr < 0x200_0000_0000 ==> spec_guard_addr(addr) == addr + 0xffff_fe00_0000_0000,
{
    if addr < 0x200_0000_0000 {
        law_high_alias(addr, addr);
    }
}

/// What is said of an entry in the alias names where it comes from and where it goes, the same
/// distance for all; an entry that is not in use is passed over.
pub proof fn law_alias_entry_is_told(entries: Map<int, u64>, src: int)
    requires
        0 <= src < KERNEL_ALIAS_MAX_COPY_COUNT,
    ensures
        ({
            let l = alias_entry_lines(entries)(src);
            &&& entries[src] == 0 ==> l.len() == 0
            &&& entries[src] != 0 ==> tells(l, "src_pml4_index", src) && tells(
                l,
                "dst_pml4_index",
                src + 508,
            )
        }),
{
    let l = alias_entry_lines(entries)(src);
    if entries[src] != 0 {
        assert(l[1] is Value && l[2] is Value);
    }
}

} // verus!
