//! First-level tables: the high alias of the kernel in its own table, and the table of a
//! user address space.

use vstd::prelude::*;

use x86_64::structures::paging::PageTable;

use crate::arch::paging::cr3::{
    assert_no_physmap_user_slot_collision, physmap_check, physmap_copy_end, physmap_lines,
    physmap_window_end, Cr3Guard, PhysmapCollision,
};
use crate::arch::virt_layout::{
    alias_copy_count, has_high_alias, kernel_high_alias_of_low, pml4_index,
    recommend_alias_copy_count_from_addrs, spec_high_alias, KERNEL_ALIAS_DST_PML4_BASE_INDEX,
    KERNEL_ALIAS_MAX_COPY_COUNT, USER_PML4_INDEX,
};
use crate::arch::x86::{
    clear_entry, copy_entry, duplicate_entry, entry_is_unused, entry_is_user, table_entries,
    ENTRY_USER_BIT,
};
use crate::kernel::lines::{error, info, lines_for, push_error, push_info, push_value, value};
use crate::kernel::types::LogLine;
use crate::types::spec_pml4_index;

verus! {

/// The argument of the test call through the high alias.
pub const EXEC_TEST_ARG: u64 = 0x0123_4567_89ab_cdef;

/// What the test function adds.
pub const EXEC_TEST_STEP: u64 = 0x1111_2222_3333_4444;

/// Whether an entry is open to user code.
pub open spec fn is_user_entry(entry: u64) -> bool {
    entry & ENTRY_USER_BIT == ENTRY_USER_BIT
}

/// An entry that is not in use is closed to user code.
proof fn lemma_unused_is_no_user_entry()
    ensures
        !is_user_entry(0),
{
    assert(0u64 & 4 != 4) by (bit_vector);
}

/// How many entries the alias takes, so that the code and the stack of the guard and of
/// the processor have one.
pub fn alias_install_count(guard: &Cr3Guard, rip: u64, rsp: u64, rbp: u64) -> (count: usize)
    ensures
        alias_copy_count(seq![guard.code_virt, guard.stack_virt, rip, rsp, rbp], count as int),
{
    let addrs: [u64; 5] = [guard.code_virt, guard.stack_virt, rip, rsp, rbp];
    assert(addrs@ =~= seq![guard.code_virt, guard.stack_virt, rip, rsp, rbp]);
    recommend_alias_copy_count_from_addrs(&addrs)
}

/// Entry `i` of a table once its first `count` entries are in the alias too.
pub open spec fn aliased_entry(entries: Map<int, u64>, count: int, i: int) -> u64 {
    let src = i - KERNEL_ALIAS_DST_PML4_BASE_INDEX;
    if 0 <= src < count && entries[src] != 0 {
        entries[src]
    } else {
        entries[i]
    }
}

/// What is said of entry `src`.
pub open spec fn alias_entry_lines(entries: Map<int, u64>) -> spec_fn(int) -> Seq<LogLine> {
    |src: int|
        if entries[src] == 0 {
            Seq::empty()
        } else {
            seq![
                info("installed kernel alias pml4 entry"),
                value("src_pml4_index", src as u64),
                value("dst_pml4_index", (KERNEL_ALIAS_DST_PML4_BASE_INDEX + src) as u64),
            ]
        }
}

pub open spec fn alias_lines(
    entries: Map<int, u64>,
    count: int,
    r: Result<(), usize>,
) -> Seq<LogLine> {
    seq![
        info("arch::paging::install_kernel_high_alias_from_current: start"),
        value("alias_dst_base_pml4", KERNEL_ALIAS_DST_PML4_BASE_INDEX as u64),
        value("alias_copy_count", count as u64),
    ] + match r {
        Ok(_) => lines_for(count, alias_entry_lines(entries)) + seq![
            info("arch::paging::install_kernel_high_alias_from_current: done"),
        ],
        Err(src) => lines_for(src as int, alias_entry_lines(entries)) + seq![
            error("kernel alias source contains USER_ACCESSIBLE; abort"),
            value("src_pml4_index", src as u64),
        ],
    }
}

/// Installs the high alias of the kernel: puts the first `count` entries of the table
/// into the alias slots too. An entry that is open to user code stops that.
pub fn install_kernel_high_alias_from_current(
    table: &mut PageTable,
    count: usize,
    out: &mut Vec<LogLine>,
) -> (r: Result<(), usize>)
    requires
        count <= KERNEL_ALIAS_MAX_COPY_COUNT,
    ensures
        match r {
            Ok(_) => {
                &&& forall|src: int|
                    0 <= src < count ==> !is_user_entry(#[trigger] table_entries(*old(table))[src])
                &&& forall|i: int|
                    0 <= i < 512 ==> #[trigger] table_entries(*final(table))[i] == aliased_entry(
                        table_entries(*old(table)),
                        count as int,
                        i,
                    )
            },
            Err(bad) => {
                &&& bad < count
                &&& is_user_entry(table_entries(*old(table))[bad as int])
                &&& forall|src: int|
                    0 <= src < bad ==> !is_user_entry(#[trigger] table_entries(*old(table))[src])
                &&& forall|i: int|
                    0 <= i < 512 ==> #[trigger] table_entries(*final(table))[i] == aliased_entry(
                        table_entries(*old(table)),
                        bad as int,
                        i,
                    )
            },
        },
        final(out)@ == old(out)@ + alias_lines(table_entries(*old(table)), count as int, r),
{
    let ghost entries = table_entries(*table);
    let ghost said = out@;
    proof {
        lemma_unused_is_no_user_entry();
    }
    push_info(out, "arch::paging::install_kernel_high_alias_from_current: start");
    push_value(out, "alias_dst_base_pml4", KERNEL_ALIAS_DST_PML4_BASE_INDEX as u64);
    push_value(out, "alias_copy_count", count as u64);
    let ghost head = out@;
    let mut src: usize = 0;
    while src < count
        invariant
            src <= count <= KERNEL_ALIAS_MAX_COPY_COUNT,
            !is_user_entry(0),
            forall|j: int| 0 <= j < src ==> !is_user_entry(#[trigger] entries[j]),
            forall|i: int|
                0 <= i < 512 ==> #[trigger] table_entries(*table)[i] == aliased_entry(
                    entries,
                    src as int,
                    i,
                ),
            out@ == head + lines_for(src as int, alias_entry_lines(entries)),
            head == said + seq![
                info("arch::paging::install_kernel_high_alias_from_current: start"),
                value("alias_dst_base_pml4", KERNEL_ALIAS_DST_PML4_BASE_INDEX as u64),
                value("alias_copy_count", count as u64),
            ],
            said == old(out)@,
            entries == table_entries(*old(table)),
        decreases count - src,
    {
        let ghost before = out@;
        let ghost said_here = alias_entry_lines(entries)(src as int);
        assert(table_entries(*table)[src as int] == entries[src as int]);
        assert(lines_for(src + 1, alias_entry_lines(entries)) == lines_for(
            src as int,
            alias_entry_lines(entries),
        ) + said_here);
        if !entry_is_unused(table, src) {
            if entry_is_user(table, src) {
                push_error(out, "kernel alias source contains USER_ACCESSIBLE; abort");
                push_value(out, "src_pml4_index", src as u64);
                assert(out@ =~= old(out)@ + alias_lines(entries, count as int, Err(src)));
                return Err(src);
            }
            let dst: usize = KERNEL_ALIAS_DST_PML4_BASE_INDEX + src;
            duplicate_entry(table, src, dst);
            push_info(out, "installed kernel alias pml4 entry");
            push_value(out, "src_pml4_index", src as u64);
            push_value(out, "dst_pml4_index", dst as u64);
        }
        assert(out@ =~= before + said_here);
        assert(out@ =~= head + lines_for(src + 1, alias_entry_lines(entries)));
        src += 1;
    }
    push_info(out, "arch::paging::install_kernel_high_alias_from_current: done");
    assert(out@ =~= old(out)@ + alias_lines(entries, count as int, Ok(())));
    Ok(())
}

pub open spec fn alias_self_check_lines(guard: Cr3Guard, code_phys: u64, stack_phys: u64) -> Seq<
    LogLine,
> {
    if !guard.has_low() {
        Seq::empty()
    } else if code_phys != guard.code_phys || stack_phys != guard.stack_phys {
        seq![
            error("kernel high-alias self-check: FAILED"),
            value("expected_code_phys", guard.code_phys),
            value("actual_code_phys", code_phys),
            value("expected_stack_phys", guard.stack_phys),
            value("actual_stack_phys", stack_phys),
        ]
    } else {
        seq![
            info("kernel high-alias self-check: OK"),
            value("code_high_virt", spec_high_alias(guard.code_virt) as u64),
            value("stack_high_virt", spec_high_alias(guard.stack_virt) as u64),
        ]
    }
}

/// Tests the alias after it was installed: the code and the stack of the guard have to be
/// where they were. Takes what their aliases are mapped to, 0 for nothing. Without a guard
/// there is nothing to test.
pub fn check_high_alias(
    guard: &Cr3Guard,
    code_phys: u64,
    stack_phys: u64,
    out: &mut Vec<LogLine>,
) -> (ok: bool)
    requires
        guard.has_low() ==> has_high_alias(guard.code_virt) && has_high_alias(guard.stack_virt),
    ensures
        ok == (guard.has_low() ==> code_phys == guard.code_phys && stack_phys == guard.stack_phys),
        final(out)@ == old(out)@ + alias_self_check_lines(*guard, code_phys, stack_phys),
{
    let mut ok: bool = true;
    if guard.code_virt != 0 && guard.stack_virt != 0 && guard.code_phys != 0 && guard.stack_phys
        != 0 {
        if code_phys != guard.code_phys || stack_phys != guard.stack_phys {
            push_error(out, "kernel high-alias self-check: FAILED");
            push_value(out, "expected_code_phys", guard.code_phys);
            push_value(out, "actual_code_phys", code_phys);
            push_value(out, "expected_stack_phys", guard.stack_phys);
            push_value(out, "actual_stack_phys", stack_phys);
            ok = false;
        } else {
            push_info(out, "kernel high-alias self-check: OK");
            push_value(out, "code_high_virt", kernel_high_alias_of_low(guard.code_virt));
            push_value(out, "stack_high_virt", kernel_high_alias_of_low(guard.stack_virt));
        }
    }
    assert(out@ =~= old(out)@ + alias_self_check_lines(*guard, code_phys, stack_phys));
    ok
}

/// The function that is called through the high alias to see that code runs there.
pub fn kernel_high_alias_exec_test_target(x: u64) -> (r: u64)
    ensures
        r == (x + EXEC_TEST_STEP) % 0x1_0000_0000_0000_0000,
{
    x.wrapping_add(EXEC_TEST_STEP)
}

/// Tests what the function gave through its alias for `EXEC_TEST_ARG`.
pub fn check_high_alias_exec_test(low_addr: u64, got: u64, out: &mut Vec<LogLine>) -> (ok: bool)
    requires
        has_high_alias(low_addr),
    ensures
        ok == (got == EXEC_TEST_ARG + EXEC_TEST_STEP),
        final(out)@ == old(out)@ + if ok {
            seq![
                info("kernel high-alias exec test: OK"),
                value("low_fn_addr", low_addr),
                value("high_fn_addr", spec_high_alias(low_addr) as u64),
            ]
        } else {
            seq![
                error("kernel high-alias exec test: FAILED"),
                value("low_fn_addr", low_addr),
                value("high_fn_addr", spec_high_alias(low_addr) as u64),
                value("expected", (EXEC_TEST_ARG + EXEC_TEST_STEP) as u64),
                value("got", got),
            ]
        },
{
    let high_addr: u64 = kernel_high_alias_of_low(low_addr);
    let expected: u64 = kernel_high_alias_exec_test_target(EXEC_TEST_ARG);
    if got != expected {
        push_error(out, "kernel high-alias exec test: FAILED");
        push_value(out, "low_fn_addr", low_addr);
        push_value(out, "high_fn_addr", high_addr);
        push_value(out, "expected", expected);
        push_value(out, "got", got);
        return false;
    }
    push_info(out, "kernel high-alias exec test: OK");
    push_value(out, "low_fn_addr", low_addr);
    push_value(out, "high_fn_addr", high_addr);
    true
}

/// Why a user root cannot be made. Each of them stops the machine.
#[derive(Clone, Copy, Debug, PartialEq, Eq, Structural)]
pub enum UserRootError {
    Physmap { collision: PhysmapCollision },
    /// An entry of the window onto physical memory is open to user code.
    PhysmapEntryIsUser { index: usize },
    /// An entry of the kernel half is open to user code.
    KernelEntryIsUser { index: usize },
}

/// The entries that a user root shares: those of the window onto physical memory, and the
/// kernel half, in which the alias slots are.
pub open spec fn is_shared(physmap_pml4: int, i: int) -> bool {
    physmap_pml4 <= i < physmap_window_end(physmap_pml4) || 256 <= i < 512
}

/// Entry `i` of a user root, as far as it was copied.
pub open spec fn user_root_entry(
    current: Map<int, u64>,
    physmap_pml4: int,
    upto: int,
    i: int,
) -> u64 {
    if is_shared(physmap_pml4, i) && i < upto {
        current[i]
    } else {
        0
    }
}

/// The number of alias entries that count as installed: all of them if none was counted.
pub open spec fn effective_alias_count(alias_count: usize) -> int {
    if alias_count == 0 || alias_count > KERNEL_ALIAS_MAX_COPY_COUNT {
        KERNEL_ALIAS_MAX_COPY_COUNT as int
    } else {
        alias_count as int
    }
}

pub open spec fn user_root_lines(
    physmap_off: u64,
    alias_count: usize,
    r: Result<(), UserRootError>,
) -> Seq<LogLine> {
    match r {
        Ok(_) => seq![
            info("init_user_pml4_from_current: clearing user pml4 entry"),
            value("pml4_index", USER_PML4_INDEX as u64),
            info("init_user_pml4_from_current: copied kernel high-half + physmap (+alias window)"),
            value("kernel_pml4_base", 256),
            value("physmap_pml4_index", spec_pml4_index(physmap_off) as u64),
            value("alias_dst_base_pml4", KERNEL_ALIAS_DST_PML4_BASE_INDEX as u64),
            value("alias_copy_count", effective_alias_count(alias_count) as u64),
        ],
        Err(UserRootError::Physmap { collision }) => physmap_lines(Err(collision)),
        Err(UserRootError::PhysmapEntryIsUser { index }) => seq![
            error("init_user_pml4_from_current: physmap entry has USER_ACCESSIBLE; abort"),
            value("pml4_index", index as u64),
        ],
        Err(UserRootError::KernelEntryIsUser { index }) => seq![
            error("init_user_pml4_from_current: kernel pml4 entry has USER_ACCESSIBLE; abort"),
            value("pml4_index", index as u64),
        ],
    }
}

/// The first shared entry that is open to user code, if there is one.
pub open spec fn user_root_result(current: Map<int, u64>, physmap_off: u64, r: Result<
    (),
    UserRootError,
>) -> bool {
    let p = spec_pml4_index(physmap_off);
    match r {
        Ok(_) => {
            &&& physmap_check(physmap_off) is Ok
            &&& forall|i: int|
                0 <= i < 512 && is_shared(p, i) ==> !is_user_entry(#[trigger] current[i])
        },
        Err(UserRootError::Physmap { collision }) => physmap_check(physmap_off) == Err::<
            (),
            PhysmapCollision,
        >(collision),
        Err(UserRootError::PhysmapEntryIsUser { index }) => {
            &&& physmap_check(physmap_off) is Ok
            &&& index < 256
            &&& first_user_entry(current, p, index as int)
        },
        Err(UserRootError::KernelEntryIsUser { index }) => {
            &&& physmap_check(physmap_off) is Ok
            &&& index >= 256
            &&& first_user_entry(current, p, index as int)
        },
    }
}

/// Whether `bad` is the first shared entry that is open to user code.
pub open spec fn first_user_entry(current: Map<int, u64>, physmap_pml4: int, bad: int) -> bool {
    &&& 0 <= bad < 512
    &&& is_shared(physmap_pml4, bad)
    &&& is_user_entry(current[bad])
    &&& forall|i: int|
        0 <= i < bad && is_shared(physmap_pml4, i) ==> !is_user_entry(#[trigger] current[i])
}

/// Clears a table.
fn clear_table(table: &mut PageTable)
    ensures
        forall|i: int| 0 <= i < 512 ==> #[trigger] table_entries(*final(table))[i] == 0,
{
    let mut i: usize = 0;
    while i < 512
        invariant
            i <= 512,
            forall|j: int| 0 <= j < i ==> #[trigger] table_entries(*table)[j] == 0,
        decreases 512 - i,
    {
        clear_entry(table, i);
        i += 1;
    }
}

/// Copies the entries from `start` up to, and without, `end`, and stops at one that is
/// open to user code.
fn copy_window(current: &PageTable, user: &mut PageTable, start: usize, end: usize) -> (r: Result<
    (),
    usize,
>)
    requires
        end <= 512,
        forall|i: int| start <= i < end ==> #[trigger] table_entries(*old(user))[i] == 0,
    ensures
        ({
            let stop = match r {
                Ok(_) => end,
                Err(bad) => bad,
            };
            &&& r matches Err(bad) ==> start <= bad < end && is_user_entry(
                table_entries(*current)[bad as int],
            )
            &&& forall|i: int|
                start <= i < stop ==> !is_user_entry(#[trigger] table_entries(*current)[i])
            &&& forall|i: int|
                0 <= i < 512 ==> #[trigger] table_entries(*final(user))[i] == if start <= i
                    < stop {
                    table_entries(*current)[i]
                } else {
                    table_entries(*old(user))[i]
                }
        }),
{
    proof {
        lemma_unused_is_no_user_entry();
    }
    let mut i: usize = start;
    while i < end
        invariant
            start <= i,
            i <= end || i == start,
            end <= 512,
            !is_user_entry(0),
            forall|j: int| start <= j < end ==> #[trigger] table_entries(*old(user))[j] == 0,
            forall|j: int|
                start <= j < i ==> !is_user_entry(#[trigger] table_entries(*current)[j]),
            forall|j: int|
                0 <= j < 512 ==> #[trigger] table_entries(*user)[j] == if start <= j < i {
                    table_entries(*current)[j]
                } else {
                    table_entries(*old(user))[j]
                },
        decreases end - i,
    {
        if !entry_is_unused(current, i) {
            if entry_is_user(current, i) {
                return Err(i);
            }
            copy_entry(current, user, i);
        }
        i += 1;
    }
    Ok(())
}

/// Makes the table of a user address space out of the table in use: the window onto
/// physical memory and the kernel half are shared, everything else is empty, the user
/// slot above all. Nothing that is shared may be open to user code. `alias_count` is the
/// number of alias entries that were installed.
pub fn init_user_pml4_from_current(
    current: &PageTable,
    user: &mut PageTable,
    physmap_off: u64,
    alias_count: usize,
    out: &mut Vec<LogLine>,
) -> (r: Result<(), UserRootError>)
    ensures
        user_root_result(table_entries(*current), physmap_off, r),
        match r {
            Ok(_) => forall|i: int|
                0 <= i < 512 ==> #[trigger] table_entries(*final(user))[i] == user_root_entry(
                    table_entries(*current),
                    spec_pml4_index(physmap_off),
                    512,
                    i,
                ),
            Err(UserRootError::Physmap { .. }) => *final(user) == *old(user),
            Err(UserRootError::PhysmapEntryIsUser { index }) => forall|i: int|
                0 <= i < 512 ==> #[trigger] table_entries(*final(user))[i] == user_root_entry(
                    table_entries(*current),
                    spec_pml4_index(physmap_off),
                    index as int,
                    i,
                ),
            Err(UserRootError::KernelEntryIsUser { index }) => forall|i: int|
                0 <= i < 512 ==> #[trigger] table_entries(*final(user))[i] == user_root_entry(
                    table_entries(*current),
                    spec_pml4_index(physmap_off),
                    index as int,
                    i,
                ),
        },
        final(out)@ == old(out)@ + user_root_lines(physmap_off, alias_count, r),
{
    match assert_no_physmap_user_slot_collision(physmap_off, out) {
        Err(collision) => {
            return Err(UserRootError::Physmap { collision });
        },
        Ok(_) => {},
    }
    assert(out@ =~= old(out)@);
    let physmap_pml4: usize = pml4_index(physmap_off);
    let window_end: usize = physmap_copy_end(physmap_pml4);
    let alias_cnt: usize = if alias_count == 0 || alias_count > KERNEL_ALIAS_MAX_COPY_COUNT {
        KERNEL_ALIAS_MAX_COPY_COUNT
    } else {
        alias_count
    };
    clear_table(user);
    match copy_window(current, user, physmap_pml4, window_end) {
        Err(index) => {
            push_error(
                out,
                "init_user_pml4_from_current: physmap entry has USER_ACCESSIBLE; abort",
            );
            push_value(out, "pml4_index", index as u64);
            return Err(UserRootError::PhysmapEntryIsUser { index });
        },
        Ok(_) => {},
    }
    match copy_window(current, user, 256, 512) {
        Err(index) => {
            push_error(
                out,
                "init_user_pml4_from_current: kernel pml4 entry has USER_ACCESSIBLE; abort",
            );
            push_value(out, "pml4_index", index as u64);
            return Err(UserRootError::KernelEntryIsUser { index });
        },
        Ok(_) => {},
    }
    push_info(out, "init_user_pml4_from_current: clearing user pml4 entry");
    push_value(out, "pml4_index", USER_PML4_INDEX as u64);
    clear_entry(user, USER_PML4_INDEX);
    push_info(
        out,
        "init_user_pml4_from_current: copied kernel high-half + physmap (+alias window)",
    );
    push_value(out, "kernel_pml4_base", 256);
    push_value(out, "physmap_pml4_index", physmap_pml4 as u64);
    push_value(out, "alias_dst_base_pml4", KERNEL_ALIAS_DST_PML4_BASE_INDEX as u64);
    push_value(out, "alias_copy_count", alias_cnt as u64);
    Ok(())
}

/// Where the kernel goes on in the high alias.
#[derive(Clone, Copy, Debug, PartialEq, Eq, Structural)]
pub struct HighEntry {
    pub entry: u64,
    pub rsp: u64,
    pub rbp: u64,
}

/// An address rounded down to a multiple of 16.
pub open spec fn floor_16(addr: int) -> int {
    addr - addr % 16
}

/// An address rounded down to a multiple of 16, as stack pointers are.
pub fn align_down_16(x: u64) -> (r: u64)
    ensures
        r == floor_16(x as int),
{
    assert(x & !0xfu64 == x - x % 16) by (bit_vector);
    x & !0xfu64
}

/// Finds where the kernel goes on in the high alias: at the alias of its entry, with the
/// aliases of the stack and the frame in use.
pub fn enter_kernel_high_alias(
    low_entry: u64,
    rsp_low: u64,
    rbp_low: u64,
    out: &mut Vec<LogLine>,
) -> (high: HighEntry)
    requires
        has_high_alias(low_entry),
        has_high_alias(rsp_low),
        has_high_alias(rbp_low),
    ensures
        high.entry == spec_high_alias(low_entry),
        high.rsp == floor_16(spec_high_alias(rsp_low)),
        high.rbp == spec_high_alias(rbp_low),
        final(out)@ == old(out)@ + seq![
            info("enter_kernel_high_alias: switching stack and CALL high entry"),
            value("low_entry", low_entry),
            value("high_entry", high.entry),
            value("rsp_low", rsp_low),
            value("rsp_high_aligned", high.rsp),
            value("rbp_low", rbp_low),
            value("rbp_high", high.rbp),
        ],
{
    push_info(out, "enter_kernel_high_alias: switching stack and CALL high entry");
    let entry: u64 = kernel_high_alias_of_low(low_entry);
    let rsp: u64 = align_down_16(kernel_high_alias_of_low(rsp_low));
    let rbp: u64 = kernel_high_alias_of_low(rbp_low);
    push_value(out, "low_entry", low_entry);
    push_value(out, "high_entry", entry);
    push_value(out, "rsp_low", rsp_low);
    push_value(out, "rsp_high_aligned", rsp);
    push_value(out, "rbp_low", rbp_low);
    push_value(out, "rbp_high", rbp);
    HighEntry { entry, rsp, rbp }
}

/// A user root opens nothing to user code, and has nothing in the lower half but the
/// window onto physical memory; its user slot is empty. The kernel half is that of the
/// table in use.
pub proof fn law_user_root_is_isolated(current: Map<int, u64>, physmap_off: u64, i: int)
    requires
        user_root_result(current, physmap_off, Ok(())),
        0 <= i < 512,
    ensures
        ({
            let p = spec_pml4_index(physmap_off);
            let entry = user_root_entry(current, p, 512, i);
            &&& !is_user_entry(entry)
            &&& i == USER_PML4_INDEX ==> entry == 0
            &&& i < 256 && !(p <= i < physmap_window_end(p)) ==> entry == 0
            &&& i >= 256 ==> entry == current[i]
        }),
{
    lemma_unused_is_no_user_entry();
}

/// After the alias is installed, the alias slot of every entry in use that it covers is
/// that entry; the entries below the alias slots are as they were.
pub proof fn law_alias_repeats_the_first_entries(entries: Map<int, u64>, count: int, src: int)
    requires
        0 <= count <= KERNEL_ALIAS_MAX_COPY_COUNT,
    ensures
        0 <= src < count && entries[src] != 0 ==> aliased_entry(
            entries,
            count,
            KERNEL_ALIAS_DST_PML4_BASE_INDEX + src,
        ) == aliased_entry(entries, count, src),
        0 <= src < KERNEL_ALIAS_DST_PML4_BASE_INDEX ==> aliased_entry(entries, count, src)
            == entries[src],
{
}

} // verus!
