//! Switching address spaces. A switch is made only if the code and the stack that are in
//! use stay where they are in the address space that is switched to.

use vstd::prelude::*;

use crate::arch::virt_layout::{
    has_high_alias, kernel_high_alias_of_low, pml4_index, pml4_index_base_addr, slot_base,
    spec_high_alias, KERNEL_ALIAS_MAX_COPY_COUNT, USER_PML4_INDEX,
};
use crate::arch::x86::{frame_start_of, is_canonical, virt_addr_accepted, PHYS_ADDR_LIMIT};
use crate::kernel::lines::{error, info, lines_if, push_error, push_info, push_value, value};
use crate::kernel::types::LogLine;
use crate::mem::addr::PhysFrame;
use crate::mem::layout::KERNEL_SPACE_START;
use crate::types::spec_pml4_index;

verus! {

/// How many first-level entries of the window onto physical memory a user root shares.
pub const PHYSMAP_PML4_COPY_COUNT: usize = 4;

/// The window onto physical memory is in the way of the user slot.
#[derive(Clone, Copy, Debug, PartialEq, Eq, Structural)]
pub enum PhysmapCollision {
    /// It starts in the user slot.
    SameSlot { physmap_pml4: usize },
    /// The entries that a user root shares reach into the user slot.
    Overlap { start: usize, end: usize },
}

/// The end of the entries of the window that a user root shares; they are in the lower
/// half.
pub open spec fn physmap_window_end(start: int) -> int {
    if start + PHYSMAP_PML4_COPY_COUNT < 256 {
        start + PHYSMAP_PML4_COPY_COUNT
    } else {
        256
    }
}

pub open spec fn physmap_check(physmap_off: u64) -> Result<(), PhysmapCollision> {
    let start = spec_pml4_index(physmap_off);
    if start == USER_PML4_INDEX {
        Err(PhysmapCollision::SameSlot { physmap_pml4: start as usize })
    } else if start < 256 && start <= USER_PML4_INDEX < physmap_window_end(start) {
        Err(
            PhysmapCollision::Overlap {
                start: start as usize,
                end: physmap_window_end(start) as usize,
            },
        )
    } else {
        Ok(())
    }
}

pub open spec fn physmap_lines(r: Result<(), PhysmapCollision>) -> Seq<LogLine> {
    match r {
        Ok(_) => Seq::empty(),
        Err(PhysmapCollision::SameSlot { physmap_pml4 }) => seq![
            error("SPEC VIOLATION: physmap PML4 index collides with USER slot"),
            value("physmap_pml4_index", physmap_pml4 as u64),
            value("USER_PML4_INDEX", USER_PML4_INDEX as u64),
        ],
        Err(PhysmapCollision::Overlap { start, end }) => seq![
            error("SPEC VIOLATION: physmap PML4 copy range overlaps USER slot"),
            value("physmap_pml4_start", start as u64),
            value("physmap_pml4_end", end as u64),
            value("USER_PML4_INDEX", USER_PML4_INDEX as u64),
        ],
    }
}

/// The end of the entries of the window onto physical memory that a user root shares.
pub fn physmap_copy_end(start: usize) -> (end: usize)
    requires
        start < 512,
    ensures
        end == physmap_window_end(start as int),
{
    if start + PHYSMAP_PML4_COPY_COUNT < 256 {
        start + PHYSMAP_PML4_COPY_COUNT
    } else {
        256
    }
}

/// Tests that the window onto physical memory keeps clear of the user slot.
pub fn assert_no_physmap_user_slot_collision(physmap_off: u64, out: &mut Vec<LogLine>) -> (r:
    Result<(), PhysmapCollision>)
    ensures
        r == physmap_check(physmap_off),
        final(out)@ == old(out)@ + physmap_lines(r),
{
    let start: usize = pml4_index(physmap_off);
    let mut r: Result<(), PhysmapCollision> = Ok(());
    if start == USER_PML4_INDEX {
        push_error(out, "SPEC VIOLATION: physmap PML4 index collides with USER slot");
        push_value(out, "physmap_pml4_index", start as u64);
        push_value(out, "USER_PML4_INDEX", USER_PML4_INDEX as u64);
        r = Err(PhysmapCollision::SameSlot { physmap_pml4: start });
    } else if start < 256 {
        let end: usize = physmap_copy_end(start);
        if start <= USER_PML4_INDEX && USER_PML4_INDEX < end {
            push_error(out, "SPEC VIOLATION: physmap PML4 copy range overlaps USER slot");
            push_value(out, "physmap_pml4_start", start as u64);
            push_value(out, "physmap_pml4_end", end as u64);
            push_value(out, "USER_PML4_INDEX", USER_PML4_INDEX as u64);
            r = Err(PhysmapCollision::Overlap { start, end });
        }
    }
    assert(out@ =~= old(out)@ + physmap_lines(r));
    r
}

/// Where a physical address is in the window onto physical memory, if there is room for
/// it.
pub fn phys_to_virt(physmap_off: u64, phys: u64) -> (r: Option<u64>)
    ensures
        r == (if physmap_off + phys <= u64::MAX && is_canonical((physmap_off + phys) as u64) {
            Some((physmap_off + phys) as u64)
        } else {
            None
        }),
{
    if phys > u64::MAX - physmap_off {
        return None;
    }
    let virt: u64 = physmap_off + phys;
    if virt_addr_accepted(virt) {
        Some(virt)
    } else {
        None
    }
}

/// What a switch is measured against: a piece of code and a stack, with their physical
/// addresses, and whether switches are made at all. An address of 0 stands for nothing.
#[derive(Clone, Copy, Debug, PartialEq, Eq, Structural)]
pub struct Cr3Guard {
    pub allowed: bool,
    pub code_virt: u64,
    pub stack_virt: u64,
    pub code_phys: u64,
    pub stack_phys: u64,
    pub code_high_virt: u64,
    pub stack_high_virt: u64,
}

impl Cr3Guard {
    /// Nothing to measure against, and no switches.
    #[verifier::allow_in_spec]
    pub fn new() -> Cr3Guard
        returns
            (Cr3Guard {
                allowed: false,
                code_virt: 0,
                stack_virt: 0,
                code_phys: 0,
                stack_phys: 0,
                code_high_virt: 0,
                stack_high_virt: 0,
            }),
    {
        Cr3Guard {
            allowed: false,
            code_virt: 0,
            stack_virt: 0,
            code_phys: 0,
            stack_phys: 0,
            code_high_virt: 0,
            stack_high_virt: 0,
        }
    }

    pub open spec fn has_low(self) -> bool {
        self.code_virt != 0 && self.stack_virt != 0 && self.code_phys != 0 && self.stack_phys != 0
    }

    pub open spec fn has_high(self) -> bool {
        self.code_high_virt != 0 && self.stack_high_virt != 0 && self.code_phys != 0
            && self.stack_phys != 0
    }

    /// The guard for a piece of code and a stack at these physical addresses; 0 says that
    /// there is none. Switches are made only if both are mapped and both are in the kernel
    /// half.
    pub open spec fn configured(
        self,
        code_addr: u64,
        stack_addr: u64,
        code_phys: u64,
        stack_phys: u64,
    ) -> Cr3Guard {
        if code_phys == 0 || stack_phys == 0 {
            Cr3Guard { allowed: false, ..self }
        } else {
            Cr3Guard {
                allowed: code_addr >= KERNEL_SPACE_START && stack_addr >= KERNEL_SPACE_START,
                code_virt: code_addr,
                stack_virt: stack_addr,
                code_phys,
                stack_phys,
                code_high_virt: spec_high_of(code_addr),
                stack_high_virt: spec_high_of(stack_addr),
            }
        }
    }

    /// Whether there is something to measure against in the low half.
    fn set_low(&self) -> (r: bool)
        ensures
            r == self.has_low(),
    {
        self.code_virt != 0 && self.stack_virt != 0 && self.code_phys != 0 && self.stack_phys != 0
    }

    /// Whether there is something to measure against in the high alias.
    fn set_high(&self) -> (r: bool)
        ensures
            r == self.has_high(),
    {
        self.code_high_virt != 0 && self.stack_high_virt != 0 && self.code_phys != 0
            && self.stack_phys != 0
    }
}

/// Where an address is in the kernel half: an address of that half is there already, one
/// of the first slots has its alias there, and the others are not there at all.
pub open spec fn spec_high_of(addr: u64) -> u64 {
    if addr >= KERNEL_SPACE_START {
        addr
    } else if has_high_alias(addr) {
        spec_high_alias(addr) as u64
    } else {
        0
    }
}

/// Where an address is in the kernel half, 0 for nowhere.
fn high_of(addr: u64) -> (high: u64)
    ensures
        high == spec_high_of(addr),
{
    if addr >= KERNEL_SPACE_START {
        addr
    } else if pml4_index(addr) < KERNEL_ALIAS_MAX_COPY_COUNT {
        kernel_high_alias_of_low(addr)
    } else {
        0
    }
}

pub open spec fn configure_lines(
    code_addr: u64,
    stack_addr: u64,
    code_phys: u64,
    stack_phys: u64,
) -> Seq<LogLine> {
    seq![
        info("arch::paging::configure_cr3_switch_safety"),
        value("code_addr", code_addr),
        value("stack_addr", stack_addr),
    ] + if code_phys == 0 || stack_phys == 0 {
        seq![error("CR3 real switch: DISABLED (translate failed)")]
    } else {
        seq![
            if code_addr >= KERNEL_SPACE_START && stack_addr >= KERNEL_SPACE_START {
                info("CR3 real switch: ENABLED (translate-based guard)")
            } else {
                info("CR3 real switch: DISABLED (code or stack below the kernel half)")
            },
            value("expected_code_phys", code_phys),
            value("expected_stack_phys", stack_phys),
        ]
    }
}

/// Sets what switches are measured against: a piece of code and a stack, and the physical
/// addresses that they have in the table in use, 0 for none. Without both, or with one of
/// them below the kernel half, there are no switches.
pub fn configure_cr3_switch_safety(
    guard: &mut Cr3Guard,
    code_addr: u64,
    stack_addr: u64,
    code_phys: u64,
    stack_phys: u64,
    out: &mut Vec<LogLine>,
)
    ensures
        *final(guard) == old(guard).configured(code_addr, stack_addr, code_phys, stack_phys),
        final(out)@ == old(out)@ + configure_lines(code_addr, stack_addr, code_phys, stack_phys),
{
    push_info(out, "arch::paging::configure_cr3_switch_safety");
    push_value(out, "code_addr", code_addr);
    push_value(out, "stack_addr", stack_addr);
    if code_phys == 0 || stack_phys == 0 {
        push_error(out, "CR3 real switch: DISABLED (translate failed)");
        guard.allowed = false;
    } else {
        guard.code_virt = code_addr;
        guard.stack_virt = stack_addr;
        guard.code_phys = code_phys;
        guard.stack_phys = stack_phys;
        guard.code_high_virt = high_of(code_addr);
        guard.stack_high_virt = high_of(stack_addr);
        guard.allowed = code_addr >= KERNEL_SPACE_START && stack_addr >= KERNEL_SPACE_START;
        if guard.allowed {
            push_info(out, "CR3 real switch: ENABLED (translate-based guard)");
        } else {
            push_info(out, "CR3 real switch: DISABLED (code or stack below the kernel half)");
        }
        push_value(out, "expected_code_phys", code_phys);
        push_value(out, "expected_stack_phys", stack_phys);
    }
    assert(out@ =~= old(out)@ + configure_lines(code_addr, stack_addr, code_phys, stack_phys));
}

/// The addresses that have to be looked up in an address space before a switch to it.
#[derive(Clone, Copy, Debug, PartialEq, Eq, Structural)]
pub struct PreflightQuery {
    pub rip: u64,
    pub rsp: u64,
    pub rbp: u64,
    pub table: u64,
    pub user_slot: u64,
    pub code_low: u64,
    pub stack_low: u64,
    pub code_high: u64,
    pub stack_high: u64,
}

/// What they are mapped to there, 0 for nothing.
#[derive(Clone, Copy, Debug, PartialEq, Eq, Structural)]
pub struct PreflightReply {
    pub rip: u64,
    pub rsp: u64,
    pub rbp: u64,
    pub table: u64,
    pub user_slot: u64,
    pub code_low: u64,
    pub stack_low: u64,
    pub code_high: u64,
    pub stack_high: u64,
}

/// Why a switch would not be safe. Each of them stops the machine.
#[derive(Clone, Copy, Debug, PartialEq, Eq, Structural)]
pub enum PreflightError {
    Physmap { collision: PhysmapCollision },
    /// The code or the stack in use is not mapped there.
    ContextNotMapped,
    /// The window onto physical memory is not mapped there.
    PhysmapMissing,
    GuardLowMismatch,
    GuardHighMismatch,
}

/// The addresses to look up before a switch to the address space whose table is at
/// `target_phys`, seen through the window onto physical memory at `table_virt`.
pub fn preflight_query(guard: &Cr3Guard, table_virt: u64, rip: u64, rsp: u64, rbp: u64) -> (q:
    PreflightQuery)
    ensures
        q.rip == rip,
        q.rsp == rsp,
        q.rbp == rbp,
        q.table == table_virt,
        q.user_slot == slot_base(USER_PML4_INDEX as int),
        q.code_low == guard.code_virt,
        q.stack_low == guard.stack_virt,
        q.code_high == guard.code_high_virt,
        q.stack_high == guard.stack_high_virt,
{
    PreflightQuery {
        rip,
        rsp,
        rbp,
        table: table_virt,
        user_slot: pml4_index_base_addr(USER_PML4_INDEX),
        code_low: guard.code_virt,
        stack_low: guard.stack_virt,
        code_high: guard.code_high_virt,
        stack_high: guard.stack_high_virt,
    }
}

/// Whether the code and the stack of the guard are elsewhere in the low half. A root with
/// an empty user slot is a user root: it has no low half.
pub open spec fn low_mismatch(guard: Cr3Guard, reply: PreflightReply) -> bool {
    reply.user_slot != 0 && guard.has_low() && (reply.code_low != guard.code_phys
        || reply.stack_low != guard.stack_phys)
}

/// Whether they are elsewhere in the high alias.
pub open spec fn high_mismatch(guard: Cr3Guard, reply: PreflightReply) -> bool {
    guard.has_high() && (reply.code_high != guard.code_phys || reply.stack_high
        != guard.stack_phys)
}

/// Whether a switch from the table at `current_phys` to the one at `target_phys` is safe.
pub open spec fn preflight(
    guard: Cr3Guard,
    physmap_off: u64,
    current_phys: u64,
    target_phys: u64,
    reply: PreflightReply,
) -> Result<(), PreflightError> {
    match physmap_check(physmap_off) {
        Err(collision) => Err(PreflightError::Physmap { collision }),
        Ok(_) => if current_phys == target_phys {
            Ok(())
        } else if reply.rip == 0 || reply.rsp == 0 {
            Err(PreflightError::ContextNotMapped)
        } else if reply.table != target_phys {
            Err(PreflightError::PhysmapMissing)
        } else if low_mismatch(guard, reply) {
            Err(PreflightError::GuardLowMismatch)
        } else if high_mismatch(guard, reply) {
            Err(PreflightError::GuardHighMismatch)
        } else {
            Ok(())
        },
    }
}

/// What is said of the frame pointer, which need not be mapped.
pub open spec fn frame_pointer_lines(query: PreflightQuery, reply: PreflightReply) -> Seq<LogLine> {
    lines_if(
        query.rbp != 0 && reply.rbp == 0,
        seq![
            info(
                "CR3 preflight: note: target RBP translate failed (non-fatal in this phase)",
            ),
            value("rbp", query.rbp),
            value("rbp_phys_tgt", reply.rbp),
        ],
    )
}

/// What is said of the low half.
pub open spec fn low_half_lines(reply: PreflightReply) -> Seq<LogLine> {
    lines_if(
        reply.user_slot == 0,
        seq![info("CR3 preflight: skipping guard(low) check for user root (by design)")],
    )
}

pub open spec fn preflight_lines(
    guard: Cr3Guard,
    physmap_off: u64,
    current_phys: u64,
    target_phys: u64,
    query: PreflightQuery,
    reply: PreflightReply,
) -> Seq<LogLine> {
    match preflight(guard, physmap_off, current_phys, target_phys, reply) {
        Err(PreflightError::Physmap { collision }) => physmap_lines(Err(collision)),
        Err(PreflightError::ContextNotMapped) => seq![
            error("CR3 preflight: target translate failed (RIP/RSP)"),
            value("rip", query.rip),
            value("rsp", query.rsp),
            value("rbp", query.rbp),
            value("rip_phys_tgt", reply.rip),
            value("rsp_phys_tgt", reply.rsp),
            value("rbp_phys_tgt", reply.rbp),
        ],
        Err(PreflightError::PhysmapMissing) => frame_pointer_lines(query, reply) + seq![
            error("CR3 preflight: physmap missing/broken in target root"),
            value("target_pml4_phys", target_phys),
            value("target_pml4_virt", query.table),
            value("translated_phys", reply.table),
        ],
        Err(PreflightError::GuardLowMismatch) => frame_pointer_lines(query, reply) + seq![
            error("CR3 preflight: guard(low) phys mismatch in kernel root"),
        ],
        Err(PreflightError::GuardHighMismatch) => frame_pointer_lines(query, reply)
            + low_half_lines(reply) + seq![
            error("CR3 preflight: guard(high) phys mismatch in target"),
            value("expected_code_phys", guard.code_phys),
            value("got_code_phys", reply.code_high),
            value("expected_stack_phys", guard.stack_phys),
            value("got_stack_phys", reply.stack_high),
        ],
        Ok(_) => lines_if(
            current_phys != target_phys,
            frame_pointer_lines(query, reply) + low_half_lines(reply),
        ),
    }
}

/// Tests whether a switch is safe.
pub fn preflight_check_before_cr3_write(
    guard: &Cr3Guard,
    physmap_off: u64,
    current_phys: u64,
    target_phys: u64,
    query: &PreflightQuery,
    reply: &PreflightReply,
    out: &mut Vec<LogLine>,
) -> (r: Result<(), PreflightError>)
    ensures
        r == preflight(*guard, physmap_off, current_phys, target_phys, *reply),
        final(out)@ == old(out)@ + preflight_lines(
            *guard,
            physmap_off,
            current_phys,
            target_phys,
            *query,
            *reply,
        ),
{
    let ghost said = preflight_lines(
        *guard,
        physmap_off,
        current_phys,
        target_phys,
        *query,
        *reply,
    );
    match assert_no_physmap_user_slot_collision(physmap_off, out) {
        Err(collision) => {
            return Err(PreflightError::Physmap { collision });
        },
        Ok(_) => {},
    }
    if current_phys == target_phys {
        assert(out@ =~= old(out)@ + said);
        return Ok(());
    }
    if reply.rip == 0 || reply.rsp == 0 {
        push_error(out, "CR3 preflight: target translate failed (RIP/RSP)");
        push_value(out, "rip", query.rip);
        push_value(out, "rsp", query.rsp);
        push_value(out, "rbp", query.rbp);
        push_value(out, "rip_phys_tgt", reply.rip);
        push_value(out, "rsp_phys_tgt", reply.rsp);
        push_value(out, "rbp_phys_tgt", reply.rbp);
        assert(out@ =~= old(out)@ + said);
        return Err(PreflightError::ContextNotMapped);
    }
    if query.rbp != 0 && reply.rbp == 0 {
        push_info(
            out,
            "CR3 preflight: note: target RBP translate failed (non-fatal in this phase)",
        );
        push_value(out, "rbp", query.rbp);
        push_value(out, "rbp_phys_tgt", reply.rbp);
    }
    assert(out@ =~= old(out)@ + frame_pointer_lines(*query, *reply));
    if reply.table != target_phys {
        push_error(out, "CR3 preflight: physmap missing/broken in target root");
        push_value(out, "target_pml4_phys", target_phys);
        push_value(out, "target_pml4_virt", query.table);
        push_value(out, "translated_phys", reply.table);
        assert(out@ =~= old(out)@ + said);
        return Err(PreflightError::PhysmapMissing);
    }
    if reply.user_slot != 0 {
        if guard.set_low() && (reply.code_low != guard.code_phys || reply.stack_low
            != guard.stack_phys) {
            push_error(out, "CR3 preflight: guard(low) phys mismatch in kernel root");
            assert(out@ =~= old(out)@ + said);
            return Err(PreflightError::GuardLowMismatch);
        }
    } else {
        push_info(out, "CR3 preflight: skipping guard(low) check for user root (by design)");
    }
    assert(out@ =~= old(out)@ + (frame_pointer_lines(*query, *reply) + low_half_lines(*reply)));
    if guard.set_high() && (reply.code_high != guard.code_phys || reply.stack_high
        != guard.stack_phys) {
        push_error(out, "CR3 preflight: guard(high) phys mismatch in target");
        push_value(out, "expected_code_phys", guard.code_phys);
        push_value(out, "got_code_phys", reply.code_high);
        push_value(out, "expected_stack_phys", guard.stack_phys);
        push_value(out, "got_stack_phys", reply.stack_high);
        assert(out@ =~= old(out)@ + said);
        return Err(PreflightError::GuardHighMismatch);
    }
    assert(out@ =~= old(out)@ + said);
    Ok(())
}

/// What to do about a switch.
#[derive(Clone, Copy, Debug, PartialEq, Eq, Structural)]
pub enum SwitchStep {
    /// There is nowhere to switch to.
    NoRoot,
    /// Switches are off.
    Skipped,
    /// Test the target, and switch to it.
    Switch { target: PhysFrame },
}

pub open spec fn spec_switch_step(guard: Cr3Guard, root: Option<PhysFrame>) -> SwitchStep {
    match root {
        None => SwitchStep::NoRoot,
        Some(target) => if guard.allowed {
            SwitchStep::Switch { target }
        } else {
            SwitchStep::Skipped
        },
    }
}

pub open spec fn switch_lines(guard: Cr3Guard, root: Option<PhysFrame>) -> Seq<LogLine> {
    match root {
        None => seq![info("switch_address_space: no root_page_frame (None)")],
        Some(target) => seq![
            info("switch_address_space: would switch to root_page_frame"),
            value("root_page_frame_index", target.number),
        ] + lines_if(
            !guard.allowed,
            seq![info("switch_address_space: CR3 switch skipped (guard disabled)")],
        ),
    }
}

/// Decides what to do about a switch to the address space with this root.
pub fn switch_address_space(
    guard: &Cr3Guard,
    root: Option<PhysFrame>,
    out: &mut Vec<LogLine>,
) -> (r: SwitchStep)
    ensures
        r == spec_switch_step(*guard, root),
        final(out)@ == old(out)@ + switch_lines(*guard, root),
{
    let r = match root {
        Some(target) => {
            push_info(out, "switch_address_space: would switch to root_page_frame");
            push_value(out, "root_page_frame_index", target.number);
            if !guard.allowed {
                push_info(out, "switch_address_space: CR3 switch skipped (guard disabled)");
                SwitchStep::Skipped
            } else {
                SwitchStep::Switch { target }
            }
        },
        None => {
            push_info(out, "switch_address_space: no root_page_frame (None)");
            SwitchStep::NoRoot
        },
    };
    assert(out@ =~= old(out)@ + switch_lines(*guard, root));
    r
}

/// The address to write to CR3 for a root, if the machine has it.
pub fn cr3_target(frame: PhysFrame) -> (r: Option<u64>)
    ensures
        r == (if frame.number * 4096 < PHYS_ADDR_LIMIT {
            Some((frame.number * 4096) as u64)
        } else {
            None
        }),
{
    if frame.number >= PHYS_ADDR_LIMIT / 4096 {
        return None;
    }
    Some(frame_start_of(frame.start_address().0))
}

/// Says what an address is mapped to, if it is.
pub fn debug_translate_in_root(virt_addr: u64, phys: Option<u64>, out: &mut Vec<LogLine>)
    ensures
        final(out)@ == old(out)@ + match phys {
            Some(p) => seq![
                info("translate: OK"),
                value("virt_addr", virt_addr),
                value("phys_addr", p),
            ],
            None => seq![
                info("translate: NONE (not mapped)"),
                value("virt_addr", virt_addr),
            ],
        },
{
    match phys {
        Some(p) => {
            push_info(out, "translate: OK");
            push_value(out, "virt_addr", virt_addr);
            push_value(out, "phys_addr", p);
        },
        None => {
            push_info(out, "translate: NONE (not mapped)");
            push_value(out, "virt_addr", virt_addr);
        },
    }
}

/// Says where the processor is.
pub fn debug_log_execution_context(
    tag: &'static str,
    rip: u64,
    rsp: u64,
    rbp: u64,
    out: &mut Vec<LogLine>,
)
    ensures
        final(out)@ == old(out)@ + seq![
            info("exec_context:"),
            info(tag),
            value("rip", rip),
            value("rsp", rsp),
            value("rbp", rbp),
            value("rip_pml4", spec_pml4_index(rip) as u64),
            value("rsp_pml4", spec_pml4_index(rsp) as u64),
            value("rbp_pml4", spec_pml4_index(rbp) as u64),
        ],
{
    push_info(out, "exec_context:");
    push_info(out, tag);
    push_value(out, "rip", rip);
    push_value(out, "rsp", rsp);
    push_value(out, "rbp", rbp);
    push_value(out, "rip_pml4", pml4_index(rip) as u64);
    push_value(out, "rsp_pml4", pml4_index(rsp) as u64);
    push_value(out, "rbp_pml4", pml4_index(rbp) as u64);
}

/// No switch is made before both the code and the stack were found, nor while one of them
/// is below the kernel half.
pub proof fn law_no_switch_without_guard(
    guard: Cr3Guard,
    code_addr: u64,
    stack_addr: u64,
    code_phys: u64,
    stack_phys: u64,
    root: Option<PhysFrame>,
)
    ensures
        spec_switch_step(Cr3Guard::new(), root) !is Switch,
        spec_switch_step(
            guard.configured(code_addr, stack_addr, code_phys, stack_phys),
            root,
        ) is Switch ==> code_phys != 0 && stack_phys != 0 && code_addr >= KERNEL_SPACE_START
            && stack_addr >= KERNEL_SPACE_START,
{
}

/// A switch that passes the test keeps the code and the stack in use mapped, keeps the
/// table in reach, and, once the guard is set in the kernel half, keeps its code and stack
/// where they were.
pub proof fn law_safe_switch_keeps_running(
    guard: Cr3Guard,
    code_addr: u64,
    stack_addr: u64,
    code_phys: u64,
    stack_phys: u64,
    physmap_off: u64,
    current_phys: u64,
    target_phys: u64,
    reply: PreflightReply,
)
    requires
        code_addr >= KERNEL_SPACE_START,
        stack_addr >= KERNEL_SPACE_START,
        code_phys != 0,
        stack_phys != 0,
        current_phys != target_phys,
    ensures
        preflight(
            guard.configured(code_addr, stack_addr, code_phys, stack_phys),
            physmap_off,
            current_phys,
            target_phys,
            reply,
        ) is Ok ==> {
            &&& reply.rip != 0
            &&& reply.rsp != 0
            &&& reply.table == target_phys
            &&& reply.code_high == code_phys
            &&& reply.stack_high == stack_phys
        },
{
}

/// The window onto physical memory passes the test exactly if none of its shared entries
/// is the user slot's.
pub proof fn law_physmap_keeps_clear(physmap_off: u64)
    ensures
        physmap_check(physmap_off) is Ok <==> !(spec_pml4_index(physmap_off) <= USER_PML4_INDEX
            < physmap_window_end(spec_pml4_index(physmap_off))),
{
}

} // verus!
