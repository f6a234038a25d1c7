//! The memory demo: every task works on one page of its own, map and unmap in turn.

use vstd::prelude::*;

use crate::arch::paging::PageFaultInfo;
use crate::arch::virt_layout::USER_SPACE_BASE;
use crate::kernel::laws::consistency::{is_user, USER_PAGES};
use crate::kernel::lines::tells;
use crate::kernel::mem_demo::{
    spec_demo_page, spec_kernel_flags, spec_test_value, spec_user_flags, user_rw_lines,
    DemoRequest, RW_AFTER_UNMAP_VALUE, RW_VALUE,
};
use crate::kernel::model::KernelView;
use crate::kernel::syscall::Syscall;
use crate::kernel::types::{LogEvent, TaskState, TASK0_INDEX, TASK1_INDEX};
use crate::mem::addr::VirtPage;
use crate::mem::address_space::{law_apply_on_map, law_unmap_undoes_map, AddressSpaceKind, Mapping};
use crate::mem::paging::{MemAction, PageFlags};

verus! {

proof fn lemma_flags()
    ensures
        spec_kernel_flags().bits == 3,
        spec_user_flags().bits == 7,
{
    assert(1u64 | 2u64 == 3u64) by (bit_vector);
    assert(3u64 | 4u64 == 7u64) by (bit_vector);
}

/// The word says which test it is, who makes it, and when.
proof fn lemma_test_value(word: u64, mark: int, id: u64, tick: u64)
    requires
        word == mark * 0x1_0000_0000,
        0 <= mark < 0x1_0000_0000,
    ensures
        is_test_word(spec_test_value(word, id, tick), mark, id, tick),
{
    let a = id as int % 0x1_0000;
    let b = tick as int % 0x1_0000;
    assert(spec_test_value(word, id, tick) == mark * 0x1_0000_0000 + a * 0x1_0000 + b);
}

/// A word of the memory demo: a mark, then the low bits of the task's id, then those of the
/// tick count.
pub open spec fn is_test_word(word: u64, mark: int, id: u64, tick: u64) -> bool {
    &&& word / 0x1_0000_0000 == mark
    &&& (word / 0x1_0000) % 0x1_0000 == id as int % 0x1_0000
    &&& word % 0x1_0000 == tick as int % 0x1_0000
}

/// The current task is a user task with an address space of its own.
pub open spec fn user_turn(m: KernelView) -> bool {
    &&& m.wf()
    &&& is_user(m.current)
    &&& m.space_of(m.current).kind == AddressSpaceKind::User
    &&& m.space_of(m.current).root_page_frame is Some
}

/// The request is an access to the first word of the page, in the address space of the current
/// task and then back in the kernel's, with a word that says who makes it and when.
pub open spec fn accesses(m: KernelView, request: DemoRequest, page: VirtPage, mark: int) -> bool {
    request matches DemoRequest::Access { stage, rw } && {
        &&& stage == m.mem_demo_stage[m.current as int]
        &&& rw.addr == USER_SPACE_BASE + page.number * 4096
        &&& Some(rw.root) == m.space_of(m.current).root_page_frame
        &&& Some(rw.kernel_root) == m.spaces[0].root_page_frame
        &&& is_test_word(rw.value, mark, m.tasks[m.current as int].id.0, m.tick_count)
    }
}

/// The demo of a user task goes round in four turns, all about the same page of user space:
/// it asks to map it for user space, writes it and reads it, asks to unmap it, and tries it
/// once more. Calls are asked for by the task itself, and only its own stage moves on.
#[verifier::rlimit(40)]
pub proof fn law_user_demo_goes_round(m: KernelView)
    requires
        user_turn(m),
    ensures
        exists|page: VirtPage|
            #![trigger page.number]
            {
                let c = m.current as int;
                let (n, request) = m.user_mem_demo();
                let t = n.tasks[c];
                &&& page.number < USER_PAGES
                &&& m.put_stage(m.current, 0).user_mem_demo().0.tasks[c].pending_syscall == Some(
                    Syscall::PageMap { page, flags: PageFlags { bits: 7 } },
                )
                &&& match m.mem_demo_stage[c] {
                    0 => t.pending_syscall == Some(
                        Syscall::PageMap { page, flags: PageFlags { bits: 7 } },
                    ) && n.mem_demo_stage == m.mem_demo_stage.update(c, 1) && request
                        == DemoRequest::Nothing,
                    1 => accesses(m, request, page, 0xC0DE_0000) && n == m,
                    2 => t.pending_syscall == Some(Syscall::PageUnmap { page })
                        && n.mem_demo_stage == m.mem_demo_stage.update(c, 3) && request
                        == DemoRequest::Nothing,
                    _ => accesses(m, request, page, 0xDEAD_0000) && n == m,
                }
            },
{
    let page = spec_demo_page(m.current);
    let id = m.tasks[m.current as int].id.0;
    lemma_flags();
    lemma_test_value(RW_VALUE, 0xC0DE_0000, id, m.tick_count);
    lemma_test_value(RW_AFTER_UNMAP_VALUE, 0xDEAD_0000, id, m.tick_count);
    assert(page.number < USER_PAGES);
}

/// After an access the demo goes on where it should: on to unmapping if the page was there, as
/// it should be, and back to the start otherwise.
pub proof fn law_demo_goes_on_after_an_access(
    m: KernelView,
    stage: u8,
    result: Result<u64, PageFaultInfo>,
)
    requires
        user_turn(m),
        !m.features.pf_demo,
    ensures
        ({
            let c = m.current as int;
            let (n, r) = m.finish_user_rw(m.current, stage, result);
            &&& r is Ok
            &&& n.tasks == m.tasks
            &&& n.spaces == m.spaces
            &&& n.mem_demo_stage == m.mem_demo_stage.update(
                c,
                if stage == 1 && result is Ok {
                    2u8
                } else {
                    0u8
                },
            )
        }),
{
}

/// What is said of an access tells of an error exactly where something went wrong: while the
/// page is mapped, a fault or another word than the one written; after that, no fault.
pub proof fn law_access_is_judged(stage: u8, written: u64, result: Result<u64, PageFaultInfo>)
    ensures
        ({
            let l = user_rw_lines(stage, written, result);
            let wrong = if stage == 1 {
                result is Err || result->Ok_0 != written
            } else {
                result is Ok
            };
            &&& (exists|i: int| 0 <= i < l.len() && (#[trigger] l[i]) is Error) <==> wrong
            &&& stage == 1 && result is Ok && wrong ==> tells(l, "expected", written as int)
                && tells(l, "got", result->Ok_0 as int)
            &&& stage != 1 && wrong ==> tells(l, "read_back", result->Ok_0 as int)
        }),
{
    let l = user_rw_lines(stage, written, result);
    if stage == 1 {
        match result {
            Ok(got) => {
                if got != written {
                    assert(l[3] is Error);
                    assert(l[4] is Value && l[4]->key == "expected" && l[4]->value == written);
                    assert(l[5] is Value && l[5]->key == "got" && l[5]->value == got);
                }
            },
            Err(_) => {
                assert(l[1] is Error);
            },
        }
    } else if result is Ok {
        assert(l[1] is Error);
        assert(l[2] is Value && l[2]->key == "read_back" && l[2]->value == result->Ok_0);
    }
}

/// The kernel task can have its turn: it has a frame or can get one, and its page is free and
/// fits in.
pub open spec fn kernel_turn(m: KernelView) -> bool {
    &&& m.wf()
    &&& m.current == TASK0_INDEX
    &&& m.mem_demo_frame[0] is Some || m.frames.len() > 0
    &&& m.demo_stop() is None
}

/// The demo of the kernel task maps a page and unmaps it again: what the page table is asked
/// for is what the kernel's record says, the page is not for user space and no user task's, it
/// is mapped to the kernel task's own frame, and after two turns the mappings are what they
/// were. The log tells each operation.
#[verifier::rlimit(40)]
pub proof fn law_kernel_demo_maps_and_unmaps(m: KernelView)
    requires
        kernel_turn(m),
        !m.mem_demo_mapped[0],
    ensures
        ({
            let t = m.tasks[0];
            let (a, first) = m.kernel_mem_demo();
            &&& first matches DemoRequest::Apply {
                action: MemAction::MapPage { page, frame, flags },
            } && {
                let b = a.finish_kernel_demo(m.current, first->action);
                let (c, second) = b.kernel_mem_demo();
                let d = c.finish_kernel_demo(m.current, second->action);
                &&& flags == PageFlags { bits: 3 }
                &&& a.mem_demo_frame[0] == Some(frame)
                &&& m.mem_demo_frame[0] matches Some(own) ==> frame == own
                &&& m.mem_demo_frame[0] is None ==> frame.number == m.frames[0]
                &&& a.space_of(0).as_map() == m.space_of(0).as_map().insert(
                    page,
                    Mapping { page, frame, flags },
                )
                &&& b.mem_demo_mapped[0]
                &&& b.events.last() == (LogEvent::MemActionApplied {
                    task: t.id,
                    address_space: t.address_space_id,
                    action: first->action,
                })
                &&& second == (DemoRequest::Apply { action: MemAction::Unmap { page } })
                &&& c.space_of(0).as_map() == m.space_of(0).as_map()
                &&& !d.mem_demo_mapped[0]
                &&& d.frames == b.frames
            }
        }),
{
    let s = m.space_of(0);
    let page = spec_demo_page(0);
    let (f, frame) = m.demo_frame(0);
    let frame = frame->0;
    let (a, first) = m.kernel_mem_demo();
    let flags = spec_kernel_flags();
    let action = MemAction::MapPage { page, frame, flags };
    lemma_flags();
    law_apply_on_map(s, action);
    law_unmap_undoes_map(s, page, frame, flags);
    assert(first == (DemoRequest::Apply { action }));
    assert(a.space_of(0) == s.apply(action));
    let b = a.finish_kernel_demo(m.current, action);
    assert(b.space_of(0) == s.apply(action));
    let (c, second) = b.kernel_mem_demo();
    assert(second == (DemoRequest::Apply { action: MemAction::Unmap { page } }));
    assert(c.space_of(0) == s.apply(action).apply(MemAction::Unmap { page }));
}

/// No two kinds of task use the same page: the kernel's lies apart from that of the user tasks.
pub proof fn law_demo_pages_are_apart()
    ensures
        spec_demo_page(0) != spec_demo_page(1),
        spec_demo_page(1) == spec_demo_page(2),
        spec_demo_page(1).number < USER_PAGES,
{
}

/// The second task is to make a call of its own, where a fault may be injected.
pub open spec fn injection_turn(m: KernelView) -> bool {
    &&& m.wf()
    &&& m.current == TASK1_INDEX
    &&& m.state(TASK1_INDEX) != TaskState::Dead
    &&& m.tasks[1].pending_syscall is None
}

/// The fault of a double map is that the second task asks for the same page twice, with the
/// same flags, at two turns; after that it is left alone.
pub proof fn law_double_map_asks_twice(m: KernelView)
    requires
        injection_turn(m),
        m.features.evil_double_map,
    ensures
        ({
            let stage = m.injected.double_map_stage;
            let (n, skip) = m.inject_mem_fault();
            &&& skip <==> stage < 2
            &&& stage < 2 ==> n.tasks[1].pending_syscall == Some(
                Syscall::PageMap { page: spec_demo_page(1), flags: PageFlags { bits: 7 } },
            ) && n.injected.double_map_stage == stage + 1
            &&& stage >= 2 ==> n == m
        }),
{
    lemma_flags();
}

/// The fault of a wrong unmap is that the second task asks for it once.
pub proof fn law_wrong_unmap_asks_once(m: KernelView)
    requires
        injection_turn(m),
        m.features.evil_unmap_not_mapped,
        !m.features.evil_double_map,
    ensures
        ({
            let (n, skip) = m.inject_mem_fault();
            &&& skip <==> !m.injected.unmap_fired
            &&& n.injected.unmap_fired
            &&& skip ==> n.tasks[1].pending_syscall == Some(
                Syscall::PageUnmap { page: spec_demo_page(1) },
            )
            &&& !skip ==> n == m
        }),
{
}

/// Without a fault to inject the memory demo is what the current task does.
pub proof fn law_no_fault_is_injected_unasked(m: KernelView)
    requires
        !m.features.evil_double_map,
        !m.features.evil_unmap_not_mapped,
    ensures
        m.inject_mem_fault() == (m, false),
{
}

} // verus!
