//! The virtual layout, the rules of paging and the first-level tables.

use bootloader::bootinfo::{FrameRange, MemoryMap, MemoryRegion, MemoryRegionType};
use x86_64::structures::paging::{PageTable, PageTableFlags};

use formal_os::arch::gdt::{self, GdtPlaces};
use formal_os::arch::paging::apply::{
    enforce_user_mapping_policy, finish_map, finish_unmap, is_user_space_addr_u64, plan_mem_action,
    to_x86_flags, MapOutcome, PagePlan, PageRefusal, UnmapOutcome,
};
use formal_os::arch::paging::cr3::{
    assert_no_physmap_user_slot_collision, configure_cr3_switch_safety, cr3_target,
    debug_log_execution_context, debug_translate_in_root, phys_to_virt,
    preflight_check_before_cr3_write, preflight_query, switch_address_space, Cr3Guard,
    PhysmapCollision, PreflightError, PreflightReply, SwitchStep,
};
use formal_os::arch::paging::fault::{
    arm_guard, clear_guard, disarm_guard, guard_addr, guarded_user_rw_u64, pf_guard_try_fixup,
    record_page_fault, take_last_page_fault, PageFaultGuard, PageFaultInfo,
};
use formal_os::arch::paging::tables::{
    align_down_16, alias_install_count, check_high_alias, check_high_alias_exec_test,
    enter_kernel_high_alias, init_user_pml4_from_current, install_kernel_high_alias_from_current,
    kernel_high_alias_exec_test_target, UserRootError, EXEC_TEST_ARG,
};
use formal_os::arch::paging::{init, PagingApplyError, PagingInitError};
use formal_os::arch::virt_layout::{
    canonicalize_virt, kernel_high_alias_of_low, pml4_index, pml4_index_base_addr,
    recommend_alias_copy_count_from_addrs, recommend_alias_copy_count_from_context,
    recommend_alias_copy_count_from_guards, USER_SPACE_BASE, USER_SPACE_SIZE,
};
use formal_os::kernel::types::LogLine;
use formal_os::mem::addr::{PhysFrame, VirtPage};
use formal_os::mem::paging::{MemAction, PageFlags};

fn info(msg: &'static str) -> LogLine {
    LogLine::Info { msg }
}

fn error(msg: &'static str) -> LogLine {
    LogLine::Error { msg }
}

fn value(key: &'static str, value: u64) -> LogLine {
    LogLine::Value { key, value }
}

#[test]
fn slots_of_addresses() {
    assert_eq!(pml4_index(0), 0);
    assert_eq!(pml4_index(0x80_0000_0000), 1);
    assert_eq!(pml4_index(USER_SPACE_BASE), 32);
    assert_eq!(pml4_index(0xffff_8000_0000_0000), 256);
    assert_eq!(pml4_index(u64::MAX), 511);
    assert_eq!(pml4_index_base_addr(32), USER_SPACE_BASE);
    assert_eq!(pml4_index_base_addr(508), 0xffff_fe00_0000_0000);
    assert_eq!(pml4_index_base_addr(512 + 1), 0x80_0000_0000);
}

#[test]
fn canonical_addresses() {
    assert_eq!(canonicalize_virt(0x0000_8000_0000_0000), 0xffff_8000_0000_0000);
    assert_eq!(canonicalize_virt(0xffff_0000_0000_1000), 0x1000);
    assert_eq!(canonicalize_virt(canonicalize_virt(0x1234_9000_0000_0000)), 0xffff_9000_0000_0000);
}

#[test]
fn high_alias_keeps_the_place_in_the_slot() {
    assert_eq!(kernel_high_alias_of_low(0x20_1234), 0xffff_fe00_0020_1234);
    assert_eq!(kernel_high_alias_of_low(0x80_0000_0010), 0xffff_fe80_0000_0010);
    assert_eq!(kernel_high_alias_of_low(0x1ff_ffff_ffff), u64::MAX);
    assert_eq!(pml4_index(kernel_high_alias_of_low(0x80_0000_0010)), 509);
}

#[test]
fn alias_copy_counts() {
    assert_eq!(recommend_alias_copy_count_from_addrs(&[]), 1);
    assert_eq!(recommend_alias_copy_count_from_addrs(&[0, 0]), 1);
    assert_eq!(recommend_alias_copy_count_from_guards(0x20_0000, 0x80_0000_0000), 2);
    assert_eq!(recommend_alias_copy_count_from_context(0x20_0000, 0x180_0000_0000, 0), 4);
    assert_eq!(recommend_alias_copy_count_from_guards(0, u64::MAX), 4);
    let mut guard = Cr3Guard::new();
    guard.code_virt = 0x20_0000;
    assert_eq!(alias_install_count(&guard, 0x20_1000, 0x100_0000_0000, 0), 3);
}

#[test]
fn user_space_is_its_slot() {
    assert!(!is_user_space_addr_u64(USER_SPACE_BASE - 1));
    assert!(is_user_space_addr_u64(USER_SPACE_BASE));
    assert!(is_user_space_addr_u64(USER_SPACE_BASE + USER_SPACE_SIZE - 1));
    assert!(!is_user_space_addr_u64(USER_SPACE_BASE + USER_SPACE_SIZE));
}

#[test]
fn entry_flags_have_their_bits() {
    let all = PageFlags::present()
        .union(PageFlags::writable())
        .union(PageFlags::user())
        .union(PageFlags::no_exec());
    assert_eq!(to_x86_flags(all), 0x8000_0000_0000_0007);
    assert_eq!(to_x86_flags(PageFlags { bits: 0 }), 0);
    assert_eq!(to_x86_flags(PageFlags { bits: 0xff0 }), 0);
    assert_eq!(to_x86_flags(PageFlags::user()), 4);
}

#[test]
fn mapping_policy() {
    assert_eq!(enforce_user_mapping_policy(USER_SPACE_BASE, 5), Ok(()));
    assert_eq!(enforce_user_mapping_policy(0x1000, 1), Ok(()));
    assert_eq!(
        enforce_user_mapping_policy(0x1000, 5),
        Err(PageRefusal::UserOutsideSlot { virt: 0x1000, flags: 5 })
    );
    assert_eq!(
        enforce_user_mapping_policy(USER_SPACE_BASE, 1),
        Err(PageRefusal::KernelInsideSlot { virt: USER_SPACE_BASE, flags: 1 })
    );
}

fn user_page(number: u64) -> MemAction {
    MemAction::map(
        VirtPage::from_index(number),
        PhysFrame::from_index(7),
        PageFlags::present().union(PageFlags::user()),
    )
}

#[test]
fn user_pages_go_to_the_user_slot() {
    let mut out = Vec::new();
    assert_eq!(
        plan_mem_action(user_page(0x110), Some(PhysFrame::from_index(9)), &mut out),
        Ok(PagePlan::MapTo { virt: USER_SPACE_BASE + 0x110000, phys: 0x7000, flags: 5 })
    );
    assert_eq!(
        out,
        vec![
            info("arch::paging::apply_mem_action: Map"),
            value("virt_addr", USER_SPACE_BASE + 0x110000),
            value("phys_addr", 0x7000),
            value("flags_bits", 5),
            info("REAL PAGING: map_to() will be executed"),
        ]
    );
}

#[test]
fn unmapping_goes_where_mapping_went() {
    let page = VirtPage::from_index(0x110);
    let mut out = Vec::new();
    assert_eq!(
        plan_mem_action(MemAction::unmap(page), Some(PhysFrame::from_index(9)), &mut out),
        Ok(PagePlan::Unmap { virt: USER_SPACE_BASE + 0x110000 })
    );
    assert_eq!(
        plan_mem_action(MemAction::unmap(page), None, &mut out),
        Ok(PagePlan::Unmap { virt: 0x110000 })
    );
    assert_eq!(
        out,
        vec![
            info("arch::paging::apply_mem_action: Unmap"),
            value("virt_addr", USER_SPACE_BASE + 0x110000),
            info("REAL PAGING: unmap() will be executed"),
            info("arch::paging::apply_mem_action: Unmap"),
            value("virt_addr", 0x110000),
            info("REAL PAGING: unmap() will be executed"),
        ]
    );
}

#[test]
fn operations_that_break_the_rules_are_refused() {
    let mut out = Vec::new();
    let slot_pages = USER_SPACE_SIZE / 4096;
    assert_eq!(
        plan_mem_action(user_page(slot_pages), None, &mut out),
        Err(PageRefusal::UserOutsideSlot { virt: USER_SPACE_BASE + USER_SPACE_SIZE, flags: 5 })
    );
    assert_eq!(
        out,
        vec![
            info("arch::paging::apply_mem_action: Map"),
            error("paging policy violation: USER mapping outside reserved user slot"),
            value("virt_addr", USER_SPACE_BASE + USER_SPACE_SIZE),
            value("flags_bits", 5),
        ]
    );
    let inside = MemAction::map(
        VirtPage::from_index(USER_SPACE_BASE / 4096),
        PhysFrame::from_index(7),
        PageFlags::present(),
    );
    out.clear();
    assert_eq!(
        plan_mem_action(inside, None, &mut out),
        Err(PageRefusal::KernelInsideSlot { virt: USER_SPACE_BASE, flags: 1 })
    );
    assert_eq!(out[1], error("paging policy violation: KERNEL mapping inside reserved user slot"));
}

#[test]
fn operations_beyond_the_machine_are_refused() {
    let mut out = Vec::new();
    let f = PageFlags::present();
    let page = |n: u64, frame: u64| {
        MemAction::map(VirtPage::from_index(n), PhysFrame::from_index(frame), f)
    };
    let refused = |a: MemAction| {
        let mut out = Vec::new();
        plan_mem_action(a, None, &mut out)
    };
    assert_eq!(refused(page(u64::MAX, 1)), Err(PageRefusal::BadVirtualAddress));
    assert_eq!(refused(page(0x8_0000_0000, 1)), Err(PageRefusal::BadVirtualAddress));
    assert_eq!(refused(page(1, u64::MAX)), Err(PageRefusal::BadPhysicalAddress));
    assert_eq!(refused(page(1, 0x100_0000_0000)), Err(PageRefusal::BadPhysicalAddress));
    assert_eq!(
        refused(page(1, 0xff_ffff_ffff)),
        Ok(PagePlan::MapTo { virt: 0x1000, phys: 0xf_ffff_ffff_f000, flags: 1 })
    );
    assert_eq!(
        plan_mem_action(MemAction::unmap(VirtPage::from_index(u64::MAX)), None, &mut out),
        Err(PageRefusal::BadVirtualAddress)
    );
    assert_eq!(out, vec![info("arch::paging::apply_mem_action: Unmap")]);
}

#[test]
fn outcomes_of_mappings() {
    let mut out = Vec::new();
    assert_eq!(finish_map(MapOutcome::Done, &mut out), Ok(()));
    assert_eq!(out, vec![info("map_to: OK (flush done)")]);
    out.clear();
    assert_eq!(
        finish_map(MapOutcome::PageAlreadyMapped { phys: 0x5000 }, &mut out),
        Err(PagingApplyError::MapFailed)
    );
    assert_eq!(
        out,
        vec![
            error("map_to: ERROR"),
            error("MapToError::PageAlreadyMapped"),
            value("already_mapped_phys_addr", 0x5000),
        ]
    );
    out.clear();
    assert_eq!(
        finish_map(MapOutcome::FrameAllocationFailed, &mut out),
        Err(PagingApplyError::MapFailed)
    );
    assert_eq!(
        finish_map(MapOutcome::ParentEntryHugePage, &mut out),
        Err(PagingApplyError::MapFailed)
    );
    assert_eq!(out[1], error("MapToError::FrameAllocationFailed"));
    assert_eq!(out[3], error("MapToError::ParentEntryHugePage"));
}

#[test]
fn outcomes_of_unmappings() {
    let mut out = Vec::new();
    assert_eq!(finish_unmap(UnmapOutcome::Done, &mut out), Ok(()));
    assert_eq!(
        finish_unmap(UnmapOutcome::PageNotMapped, &mut out),
        Err(PagingApplyError::UnmapFailed)
    );
    assert_eq!(
        finish_unmap(UnmapOutcome::InvalidFrameAddress { phys: 3 }, &mut out),
        Err(PagingApplyError::UnmapFailed)
    );
    assert_eq!(
        finish_unmap(UnmapOutcome::ParentEntryHugePage, &mut out),
        Err(PagingApplyError::UnmapFailed)
    );
    assert_eq!(
        out,
        vec![
            info("unmap: OK (flush done)"),
            error("unmap: ERROR"),
            error("UnmapError::PageNotMapped"),
            error("unmap: ERROR"),
            error("UnmapError::InvalidFrameAddress"),
            value("invalid_frame_phys_addr", 3),
            error("unmap: ERROR"),
            error("UnmapError::ParentEntryHugePage"),
        ]
    );
}

#[test]
fn physmap_keeps_clear_of_the_user_slot() {
    let check = |slot: u64| {
        let mut out = Vec::new();
        assert_no_physmap_user_slot_collision(slot << 39, &mut out)
    };
    assert_eq!(check(28), Ok(()));
    assert_eq!(check(29), Err(PhysmapCollision::Overlap { start: 29, end: 33 }));
    assert_eq!(check(31), Err(PhysmapCollision::Overlap { start: 31, end: 35 }));
    assert_eq!(check(32), Err(PhysmapCollision::SameSlot { physmap_pml4: 32 }));
    assert_eq!(check(33), Ok(()));
    assert_eq!(check(256), Ok(()));
    let mut out = Vec::new();
    let _ = assert_no_physmap_user_slot_collision(30 << 39, &mut out);
    assert_eq!(
        out,
        vec![
            error("SPEC VIOLATION: physmap PML4 copy range overlaps USER slot"),
            value("physmap_pml4_start", 30),
            value("physmap_pml4_end", 34),
            value("USER_PML4_INDEX", 32),
        ]
    );
}

#[test]
fn physical_memory_is_seen_through_its_window() {
    assert_eq!(phys_to_virt(0x180_0000_0000, 0x1000), Some(0x180_0000_1000));
    assert_eq!(phys_to_virt(u64::MAX, 1), None);
    assert_eq!(phys_to_virt(0x7fff_ffff_f000, 0x1000), None);
}

#[test]
fn switches_need_a_guard() {
    let mut guard = Cr3Guard::new();
    let root = PhysFrame::from_index(5);
    let mut out = Vec::new();
    assert_eq!(switch_address_space(&guard, None, &mut out), SwitchStep::NoRoot);
    assert_eq!(switch_address_space(&guard, Some(root), &mut out), SwitchStep::Skipped);
    assert_eq!(
        out,
        vec![
            info("switch_address_space: no root_page_frame (None)"),
            info("switch_address_space: would switch to root_page_frame"),
            value("root_page_frame_index", 5),
            info("switch_address_space: CR3 switch skipped (guard disabled)"),
        ]
    );
    out.clear();
    configure_cr3_switch_safety(&mut guard, 0x20_0000, 0x30_0000, 0x40_0000, 0, &mut out);
    assert_eq!(out[3], error("CR3 real switch: DISABLED (translate failed)"));
    assert_eq!(guard, Cr3Guard::new());
    configure_cr3_switch_safety(&mut guard, 0x20_0000, 0x30_0000, 0x40_0000, 0x50_0000, &mut out);
    assert!(!guard.allowed);
    assert_eq!(guard.code_high_virt, 0xffff_fe00_0020_0000);
    assert_eq!(switch_address_space(&guard, Some(root), &mut out), SwitchStep::Skipped);
    let (code, stack) = (0xffff_fe00_0020_0000, 0xffff_fe00_0030_0000);
    configure_cr3_switch_safety(&mut guard, code, 0x30_0000, 0x40_0000, 0x50_0000, &mut out);
    assert!(!guard.allowed);
    out.clear();
    configure_cr3_switch_safety(&mut guard, code, stack, 0x40_0000, 0x50_0000, &mut out);
    assert!(guard.allowed);
    assert_eq!(out[3], info("CR3 real switch: ENABLED (translate-based guard)"));
    assert_eq!(guard.code_high_virt, code);
    assert_eq!(
        switch_address_space(&guard, Some(root), &mut out),
        SwitchStep::Switch { target: root }
    );
    configure_cr3_switch_safety(&mut guard, u64::MAX / 4, stack, 1, 2, &mut out);
    assert!(!guard.allowed);
    assert_eq!(guard.code_high_virt, 0);
    configure_cr3_switch_safety(&mut guard, 0x20_0000, 0x30_0000, 0x40_0000, 0x50_0000, &mut out);
    configure_cr3_switch_safety(&mut guard, 0x20_0000, 0x30_0000, 0, 0x50_0000, &mut out);
    assert!(!guard.allowed);
    assert_eq!(guard.code_virt, 0x20_0000);
}

#[test]
fn cr3_takes_addresses_of_the_machine() {
    assert_eq!(cr3_target(PhysFrame::from_index(5)), Some(0x5000));
    assert_eq!(cr3_target(PhysFrame::from_index(0xff_ffff_ffff)), Some(0xf_ffff_ffff_f000));
    assert_eq!(cr3_target(PhysFrame::from_index(0x100_0000_0000)), None);
}

fn good_reply() -> PreflightReply {
    PreflightReply {
        rip: 1,
        rsp: 2,
        rbp: 3,
        table: 0x9000,
        user_slot: 4,
        code_low: 0x40_0000,
        stack_low: 0x50_0000,
        code_high: 0x40_0000,
        stack_high: 0x50_0000,
    }
}

#[test]
fn preflight_finds_every_fault() {
    let mut guard = Cr3Guard::new();
    let mut out = Vec::new();
    configure_cr3_switch_safety(&mut guard, 0x20_0000, 0x30_0000, 0x40_0000, 0x50_0000, &mut out);
    let off = 0x180_0000_0000u64;
    let query = preflight_query(&guard, off + 0x9000, 0x20_0010, 0x30_0010, 0x30_0020);
    assert_eq!(query.user_slot, USER_SPACE_BASE);
    assert_eq!(query.code_high, 0xffff_fe00_0020_0000);
    assert_eq!(query.stack_low, 0x30_0000);
    let check = |off: u64, current: u64, reply: PreflightReply| {
        let mut out = Vec::new();
        let r = preflight_check_before_cr3_write(
            &guard, off, current, 0x9000, &query, &reply, &mut out,
        );
        (r, out)
    };
    assert_eq!(check(off, 0x1000, good_reply()), (Ok(()), vec![]));
    let user = PreflightReply { user_slot: 0, code_low: 0, stack_low: 0, ..good_reply() };
    assert_eq!(
        check(off, 0x1000, user),
        (
            Ok(()),
            vec![info("CR3 preflight: skipping guard(low) check for user root (by design)")]
        )
    );
    let nothing = PreflightReply { rip: 0, ..good_reply() };
    assert_eq!(check(off, 0x9000, nothing), (Ok(()), vec![]));
    assert_eq!(check(off, 0x1000, nothing).0, Err(PreflightError::ContextNotMapped));
    assert_eq!(check(off, 0x1000, nothing).1.len(), 7);
    let no_table = PreflightReply { table: 0, rbp: 0, ..good_reply() };
    let (r, lines) = check(off, 0x1000, no_table);
    assert_eq!(r, Err(PreflightError::PhysmapMissing));
    assert_eq!(lines[1], value("rbp", 0x30_0020));
    assert_eq!(lines[3], error("CR3 preflight: physmap missing/broken in target root"));
    assert_eq!(lines[5], value("target_pml4_virt", off + 0x9000));
    let low = PreflightReply { stack_low: 1, ..good_reply() };
    assert_eq!(check(off, 0x1000, low).0, Err(PreflightError::GuardLowMismatch));
    let high = PreflightReply { code_high: 1, ..good_reply() };
    let (r, lines) = check(off, 0x1000, high);
    assert_eq!(r, Err(PreflightError::GuardHighMismatch));
    assert_eq!(lines[2], value("got_code_phys", 1));
    assert_eq!(
        check(32 << 39, 0x1000, good_reply()).0,
        Err(PreflightError::Physmap { collision: PhysmapCollision::SameSlot { physmap_pml4: 32 } })
    );
}

#[test]
fn translations_and_contexts_are_shown() {
    let mut out = Vec::new();
    debug_translate_in_root(0x1000, Some(0x2000), &mut out);
    debug_translate_in_root(0x3000, None, &mut out);
    debug_log_execution_context("here", 0x80_0000_0000, u64::MAX, 0, &mut out);
    assert_eq!(
        out,
        vec![
            info("translate: OK"),
            value("virt_addr", 0x1000),
            value("phys_addr", 0x2000),
            info("translate: NONE (not mapped)"),
            value("virt_addr", 0x3000),
            info("exec_context:"),
            info("here"),
            value("rip", 0x80_0000_0000),
            value("rsp", u64::MAX),
            value("rbp", 0),
            value("rip_pml4", 1),
            value("rsp_pml4", 511),
            value("rbp_pml4", 0),
        ]
    );
}

fn table_with(entries: &[(usize, u64, PageTableFlags)]) -> Box<PageTable> {
    let mut t = Box::new(PageTable::new());
    for (i, addr, flags) in entries {
        t[*i].set_addr(x86_64::PhysAddr::new(*addr), *flags);
    }
    t
}

#[test]
fn alias_repeats_the_first_entries() {
    let p = PageTableFlags::PRESENT | PageTableFlags::WRITABLE;
    let mut t = table_with(&[(0, 0x1000, p), (2, 0x3000, p), (3, 0x4000, p), (509, 0x9000, p)]);
    let mut out = Vec::new();
    assert_eq!(install_kernel_high_alias_from_current(&mut t, 3, &mut out), Ok(()));
    assert_eq!(t[508].addr().as_u64(), 0x1000);
    assert_eq!(t[508].flags(), p);
    assert_eq!(t[509].addr().as_u64(), 0x9000);
    assert_eq!(t[510].addr().as_u64(), 0x3000);
    assert!(t[511].is_unused());
    assert_eq!(t[0].addr().as_u64(), 0x1000);
    assert_eq!(
        out,
        vec![
            info("arch::paging::install_kernel_high_alias_from_current: start"),
            value("alias_dst_base_pml4", 508),
            value("alias_copy_count", 3),
            info("installed kernel alias pml4 entry"),
            value("src_pml4_index", 0),
            value("dst_pml4_index", 508),
            info("installed kernel alias pml4 entry"),
            value("src_pml4_index", 2),
            value("dst_pml4_index", 510),
            info("arch::paging::install_kernel_high_alias_from_current: done"),
        ]
    );
}

#[test]
fn alias_never_opens_user_entries() {
    let p = PageTableFlags::PRESENT;
    let mut t = table_with(&[(0, 0x1000, p), (1, 0x2000, p | PageTableFlags::USER_ACCESSIBLE)]);
    let mut out = Vec::new();
    assert_eq!(install_kernel_high_alias_from_current(&mut t, 2, &mut out), Err(1));
    assert_eq!(t[508].addr().as_u64(), 0x1000);
    assert!(t[509].is_unused());
    assert_eq!(out[6], error("kernel alias source contains USER_ACCESSIBLE; abort"));
    assert_eq!(out[7], value("src_pml4_index", 1));
}

#[test]
fn user_root_shares_the_kernel_and_nothing_else() {
    let p = PageTableFlags::PRESENT;
    let current = table_with(&[
        (0, 0x1000, p),
        (3, 0x2000, p),
        (4, 0x3000, p),
        (6, 0x4000, p),
        (7, 0x5000, p),
        (32, 0x6000, p | PageTableFlags::USER_ACCESSIBLE),
        (256, 0x7000, p),
        (508, 0x8000, p),
        (511, 0x9000, p),
    ]);
    let mut user = table_with(&[(1, 0xa000, p), (32, 0xb000, p), (300, 0xc000, p)]);
    let mut out = Vec::new();
    assert_eq!(init_user_pml4_from_current(&current, &mut user, 3 << 39, 0, &mut out), Ok(()));
    for i in 0..512usize {
        let shared = i == 3 || i == 4 || i == 6 || i == 256 || i == 508 || i == 511;
        if shared {
            assert_eq!(user[i].addr(), current[i].addr());
            assert_eq!(user[i].flags(), p);
        } else {
            assert!(user[i].is_unused());
        }
    }
    assert_eq!(
        out,
        vec![
            info("init_user_pml4_from_current: clearing user pml4 entry"),
            value("pml4_index", 32),
            info("init_user_pml4_from_current: copied kernel high-half + physmap (+alias window)"),
            value("kernel_pml4_base", 256),
            value("physmap_pml4_index", 3),
            value("alias_dst_base_pml4", 508),
            value("alias_copy_count", 4),
        ]
    );
}

#[test]
fn user_root_is_refused_where_the_kernel_is_open() {
    let p = PageTableFlags::PRESENT;
    let open = p | PageTableFlags::USER_ACCESSIBLE;
    let mut user = Box::new(PageTable::new());
    let mut out = Vec::new();
    let physmap = table_with(&[(4, 0x1000, open), (300, 0x2000, open)]);
    assert_eq!(
        init_user_pml4_from_current(&physmap, &mut user, 3 << 39, 2, &mut out),
        Err(UserRootError::PhysmapEntryIsUser { index: 4 })
    );
    let kernel = table_with(&[(4, 0x1000, p), (300, 0x2000, open)]);
    assert_eq!(
        init_user_pml4_from_current(&kernel, &mut user, 3 << 39, 2, &mut out),
        Err(UserRootError::KernelEntryIsUser { index: 300 })
    );
    assert_eq!(user[4].addr().as_u64(), 0x1000);
    assert_eq!(
        init_user_pml4_from_current(&kernel, &mut user, 31 << 39, 2, &mut out),
        Err(UserRootError::Physmap {
            collision: PhysmapCollision::Overlap { start: 31, end: 35 }
        })
    );
    assert_eq!(user[4].addr().as_u64(), 0x1000);
}

#[test]
fn alias_is_checked_after_it_is_installed() {
    let mut guard = Cr3Guard::new();
    let mut out = Vec::new();
    assert!(check_high_alias(&guard, 0, 0, &mut out));
    assert_eq!(out, vec![]);
    configure_cr3_switch_safety(&mut guard, 0x20_0000, 0x30_0000, 0x40_0000, 0x50_0000, &mut out);
    out.clear();
    assert!(!check_high_alias(&guard, 0x40_0000, 0, &mut out));
    assert_eq!(out[0], error("kernel high-alias self-check: FAILED"));
    out.clear();
    assert!(check_high_alias(&guard, 0x40_0000, 0x50_0000, &mut out));
    assert_eq!(
        out,
        vec![
            info("kernel high-alias self-check: OK"),
            value("code_high_virt", 0xffff_fe00_0020_0000),
            value("stack_high_virt", 0xffff_fe00_0030_0000),
        ]
    );
}

#[test]
fn code_is_tried_out_in_the_alias() {
    assert_eq!(kernel_high_alias_exec_test_target(EXEC_TEST_ARG), 0x1234_6789_bcdf_1233);
    assert_eq!(kernel_high_alias_exec_test_target(u64::MAX), 0x1111_2222_3333_4443);
    let mut out = Vec::new();
    assert!(check_high_alias_exec_test(0x20_0000, 0x1234_6789_bcdf_1233, &mut out));
    assert!(!check_high_alias_exec_test(0x20_0000, 7, &mut out));
    assert_eq!(out[2], value("high_fn_addr", 0xffff_fe00_0020_0000));
    assert_eq!(out[3], error("kernel high-alias exec test: FAILED"));
    assert_eq!(out[7], value("got", 7));
}

#[test]
fn kernel_goes_on_in_the_alias() {
    let mut out = Vec::new();
    let high = enter_kernel_high_alias(0x20_1000, 0x30_0019, 0x30_0033, &mut out);
    assert_eq!(high.entry, 0xffff_fe00_0020_1000);
    assert_eq!(high.rsp, 0xffff_fe00_0030_0010);
    assert_eq!(high.rbp, 0xffff_fe00_0030_0033);
    assert_eq!(out[4], value("rsp_high_aligned", 0xffff_fe00_0030_0010));
    assert_eq!(align_down_16(0xfff), 0xff0);
    assert_eq!(align_down_16(0x1000), 0x1000);
}

#[test]
fn exception_stacks_are_in_the_alias() {
    let low = GdtPlaces { tss: 0x20_0008, rsp0: 0x30_8004, df_ist: 0x40_8000, pf_ist: 0x50_8000 };
    let mut out = Vec::new();
    let high = gdt::init_high_alias(&low, &mut out);
    assert_eq!(high.tss, 0xffff_fe00_0020_0008);
    assert_eq!(high.rsp0, 0xffff_fe00_0030_8000);
    assert_eq!(high.df_ist, 0xffff_fe00_0040_8000);
    assert_eq!(high.pf_ist, 0xffff_fe00_0050_8000);
    assert_eq!(out.len(), 15);
    assert_eq!(out[3], value("tss_high_pml4", 508));
    assert_eq!(out[7], value("df_ist_index", 0));
    assert_eq!(out[11], value("pf_ist_index", 1));
}

#[test]
fn guarded_fault_comes_back_as_an_error() {
    let mut g = PageFaultGuard::new();
    let fault = PageFaultInfo {
        addr: USER_SPACE_BASE,
        err: 6,
        rip: 0x1234,
        rsp: 0x5678,
        is_user_fault: false,
    };
    assert_eq!(pf_guard_try_fixup(&mut g), None);
    clear_guard(&mut g);
    arm_guard(&mut g, 0xfeed);
    record_page_fault(&mut g, fault);
    assert_eq!(pf_guard_try_fixup(&mut g), Some(0xfeed));
    assert_eq!(pf_guard_try_fixup(&mut g), None);
    assert_eq!(guarded_user_rw_u64(&mut g, 0), Err(fault));
    assert_eq!(take_last_page_fault(&mut g), None);
}

#[test]
fn guarded_access_without_fault() {
    let mut g = PageFaultGuard::new();
    clear_guard(&mut g);
    arm_guard(&mut g, 0xfeed);
    disarm_guard(&mut g);
    assert_eq!(guarded_user_rw_u64(&mut g, 42), Ok(42));
    assert_eq!(pf_guard_try_fixup(&mut g), None);
}

#[test]
fn fault_that_was_not_recorded() {
    let mut g = PageFaultGuard::new();
    arm_guard(&mut g, 0xfeed);
    assert_eq!(pf_guard_try_fixup(&mut g), Some(0xfeed));
    assert_eq!(
        guarded_user_rw_u64(&mut g, 0),
        Err(PageFaultInfo { addr: 0, err: 0, rip: 0, rsp: 0, is_user_fault: true })
    );
    arm_guard(&mut g, 0);
    assert_eq!(pf_guard_try_fixup(&mut g), None);
}

#[test]
fn guard_is_reached_through_the_alias() {
    assert_eq!(guard_addr(0x20_0000), 0xffff_fe00_0020_0000);
    assert_eq!(guard_addr(0x200_0000_0000), 0x200_0000_0000);
    assert_eq!(guard_addr(0xffff_fe00_0020_0000), 0xffff_fe00_0020_0000);
}

fn boot_map(regions: &[(u64, u64, MemoryRegionType)]) -> MemoryMap {
    let mut map = MemoryMap::new();
    for r in regions {
        map.add_region(MemoryRegion {
            range: FrameRange { start_frame_number: r.0, end_frame_number: r.1 },
            region_type: r.2,
        });
    }
    map
}

#[test]
fn paging_starts_with_a_look_at_the_memory_map() {
    let map = boot_map(&[
        (1, 2, MemoryRegionType::Usable),
        (2, 3, MemoryRegionType::Reserved),
        (3, 4, MemoryRegionType::AcpiReclaimable),
        (4, 5, MemoryRegionType::AcpiNvs),
        (5, 6, MemoryRegionType::BadMemory),
        (6, 7, MemoryRegionType::Kernel),
    ]);
    let mut out = Vec::new();
    assert_eq!(init(3 << 39, &map, &mut out), Ok(()));
    assert_eq!(out.len(), 2 + 6 * 5 + 2);
    assert_eq!(out[0], info("arch::paging::init: start"));
    assert_eq!(out[2], info("mem_region:"));
    assert_eq!(out[3], value("index", 0));
    assert_eq!(out[4], value("start_phys", 0x1000));
    assert_eq!(out[5], value("end_phys", 0x2000));
    assert_eq!(out[6], info("type = Usable"));
    assert_eq!(out[11], info("type = Reserved"));
    assert_eq!(out[16], info("type = AcpiReclaimable"));
    assert_eq!(out[21], info("type = AcpiNvs"));
    assert_eq!(out[26], info("type = BadMemory"));
    assert_eq!(out[31], info("type = Other"));
    assert_eq!(out[33], info("arch::paging::init: done"));
}

#[test]
fn paging_does_not_start_on_a_bad_map() {
    let map = boot_map(&[(1, 2, MemoryRegionType::Usable), (2, u64::MAX, MemoryRegionType::Usable)]);
    let mut out = Vec::new();
    assert_eq!(init(0, &map, &mut out), Err(PagingInitError::RegionTooHigh { index: 1 }));
    assert_eq!(
        init(32 << 39, &map, &mut out),
        Err(PagingInitError::Physmap {
            collision: PhysmapCollision::SameSlot { physmap_pml4: 32 }
        })
    );
}
