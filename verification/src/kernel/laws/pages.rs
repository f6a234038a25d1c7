//! Calls on pages: what is refused, and what a call leaves alone.

use vstd::prelude::*;

use crate::arch::paging::PagingApplyError;
use crate::kernel::model::KernelView;
use crate::kernel::syscall::{
    PageCall, PageRequest, Syscall, SYSCALL_ERR_ALREADY_MAPPED, SYSCALL_ERR_ARCH_FAILED,
    SYSCALL_ERR_BAD_ASPACE, SYSCALL_ERR_CAPACITY, SYSCALL_ERR_NOT_MAPPED, SYSCALL_OK,
};
use crate::kernel::types::{LogEvent, TaskState, MAX_TASKS};
use crate::mem::addr::VirtPage;
use crate::mem::address_space::{
    law_apply_on_map, law_mappings_are_counted, law_no_double_map, law_unmap_undoes_map,
    lemma_maps, slot_used, AddressSpaceKind, AddressSpaceView, Mapping, MAX_MAPPINGS,
};
use crate::mem::paging::{MemAction, PageFlags};
use crate::seqs::lemma_filter_len;

verus! {

/// A page that a task has just mapped cannot be mapped again.
pub proof fn law_second_map_is_refused(
    m: KernelView,
    idx: usize,
    page: VirtPage,
    first: PageFlags,
    second: PageFlags,
)
    requires
        m.wf(),
        idx < MAX_TASKS,
        m.page_map(idx, page, first).1 is Apply,
    ensures
        m.page_map(idx, page, first).0.page_map(idx, page, second).1 == (PageCall::Answered {
            code: SYSCALL_ERR_ALREADY_MAPPED,
        }),
{
    let as_idx = m.tasks[idx as int].address_space_id.0 as int;
    let frame = m.demo_frame(idx).1->0;
    law_no_double_map(
        m.spaces[as_idx],
        MemAction::MapPage { page, frame, flags: first },
        MemAction::MapPage { page, frame, flags: second },
    );
}

/// A page that is not mapped cannot be unmapped, and trying changes nothing.
pub proof fn law_unmap_of_unmapped_is_refused(m: KernelView, idx: usize, page: VirtPage)
    requires
        m.wf(),
        idx < MAX_TASKS,
        !m.space_of(idx).maps(page),
    ensures
        m.page_unmap(idx, page) == (m, PageCall::Answered { code: SYSCALL_ERR_NOT_MAPPED }),
{
}

/// Unmapping what a task has just mapped gives its mappings as they were before.
pub proof fn law_page_unmap_undoes_page_map(
    m: KernelView,
    idx: usize,
    page: VirtPage,
    flags: PageFlags,
)
    requires
        m.wf(),
        idx < MAX_TASKS,
        m.page_map(idx, page, flags).1 is Apply,
    ensures
        ({
            let mapped = m.page_map(idx, page, flags).0;
            let (unmapped, call) = mapped.page_unmap(idx, page);
            call is Apply && unmapped.space_of(idx).as_map() == m.space_of(idx).as_map()
        }),
{
    let frame = m.demo_frame(idx).1->0;
    law_unmap_undoes_map(m.space_of(idx), page, frame, flags);
}

/// A call on pages leaves every other address space alone.
pub proof fn law_page_calls_keep_other_spaces(
    m: KernelView,
    idx: usize,
    page: VirtPage,
    flags: PageFlags,
    other: int,
)
    requires
        m.wf(),
        idx < MAX_TASKS,
        0 <= other < MAX_TASKS,
        other != m.tasks[idx as int].address_space_id.0,
    ensures
        m.page_map(idx, page, flags).0.spaces[other] == m.spaces[other],
        m.page_unmap(idx, page).0.spaces[other] == m.spaces[other],
{
}

/// The address space has the page mapped.
pub open spec fn holds_page(s: AddressSpaceView, page: VirtPage) -> bool {
    exists|i: int|
        0 <= i < s.slots.len() && (#[trigger] s.slots[i]) is Some && s.slots[i]->0.page == page
}

/// The page table of the address space can be reached: it is the kernel's, or has a root.
pub open spec fn reachable(s: AddressSpaceView) -> bool {
    s.kind == AddressSpaceKind::Kernel || s.root_page_frame is Some
}

/// A request for the page table of this very address space: the kernel's own is the one in
/// use, and a user's is found by its root.
pub open spec fn aims_at(request: PageRequest, s: AddressSpaceView) -> bool {
    match s.kind {
        AddressSpaceKind::Kernel => request.root is None,
        AddressSpaceKind::User => request.root is Some && request.root == s.root_page_frame,
    }
}

/// From `m` to `n` the task has got the page with these flags and nothing else, mapped to the
/// frame that is the task's own from now on, and the request is for that very mapping.
pub open spec fn mapped_as_asked(
    m: KernelView,
    n: KernelView,
    idx: usize,
    page: VirtPage,
    flags: PageFlags,
    request: PageRequest,
) -> bool {
    let s = m.space_of(idx);
    match n.mem_demo_frame[idx as int] {
        None => false,
        Some(frame) => {
            &&& request.action == MemAction::MapPage { page, frame, flags }
            &&& aims_at(request, s)
            &&& n.space_of(idx).as_map() == s.as_map().insert(page, Mapping { page, frame, flags })
            &&& match m.mem_demo_frame[idx as int] {
                Some(own) => frame == own && n.frames == m.frames,
                None => m.frames == seq![frame.number] + n.frames,
            }
        },
    }
}

/// From `m` to `n` the task has lost the page and nothing else, and the request is to take
/// that very page out.
pub open spec fn unmapped_as_asked(
    m: KernelView,
    n: KernelView,
    idx: usize,
    page: VirtPage,
    request: PageRequest,
) -> bool {
    let s = m.space_of(idx);
    &&& request.action == MemAction::Unmap { page }
    &&& aims_at(request, s)
    &&& n.space_of(idx).as_map() == s.as_map().remove(page)
}

/// A page is mapped as the task asked for it, and the page table is asked for just that.
/// That happens exactly where the task has a frame or can get one, the page is free, there is
/// room, and the page table can be reached; otherwise the answer says which of these failed.
#[verifier::rlimit(40)]
pub proof fn law_page_map_does_what_was_asked(
    m: KernelView,
    idx: usize,
    page: VirtPage,
    flags: PageFlags,
)
    requires
        m.wf(),
        idx < MAX_TASKS,
    ensures
        ({
            let s = m.space_of(idx);
            let (n, call) = m.page_map(idx, page, flags);
            let framed = m.mem_demo_frame[idx as int] is Some || m.frames.len() > 0;
            let room = s.mappings().len() < MAX_MAPPINGS;
            &&& match call {
                PageCall::Apply { request } => mapped_as_asked(m, n, idx, page, flags, request),
                PageCall::Answered { code } => code == if !framed {
                    SYSCALL_ERR_ARCH_FAILED
                } else if holds_page(s, page) {
                    SYSCALL_ERR_ALREADY_MAPPED
                } else if !room {
                    SYSCALL_ERR_CAPACITY
                } else {
                    SYSCALL_ERR_BAD_ASPACE
                },
            }
            &&& call is Apply <==> framed && !holds_page(s, page) && room && reachable(s)
        }),
{
    let s = m.space_of(idx);
    let (d, frame) = m.demo_frame(idx);
    lemma_maps(s, page);
    if let Some(frame) = frame {
        let action = MemAction::MapPage { page, frame, flags };
        law_apply_on_map(s, action);
        law_mappings_are_counted(s, action);
        assert(s.mappings().len() <= MAX_MAPPINGS) by {
            lemma_filter_len(s.slots, slot_used());
        }
        if m.mem_demo_frame[idx as int] is None {
            assert(m.frames =~= seq![frame.number] + d.frames);
        }
    }
}

/// A page is unmapped as the task asked for it, and the page table is asked for just that.
#[verifier::rlimit(40)]
pub proof fn law_page_unmap_does_what_was_asked(m: KernelView, idx: usize, page: VirtPage)
    requires
        m.wf(),
        idx < MAX_TASKS,
    ensures
        ({
            let s = m.space_of(idx);
            let (n, call) = m.page_unmap(idx, page);
            &&& match call {
                PageCall::Apply { request } => unmapped_as_asked(m, n, idx, page, request),
                PageCall::Answered { code } => code == if !holds_page(s, page) {
                    SYSCALL_ERR_NOT_MAPPED
                } else {
                    SYSCALL_ERR_BAD_ASPACE
                },
            }
            &&& call is Apply <==> holds_page(s, page) && reachable(s)
        }),
{
    let s = m.space_of(idx);
    lemma_maps(s, page);
    law_apply_on_map(s, MemAction::Unmap { page });
}

/// A system call on a page is about the current task's own address space. Where it comes to
/// a request the kernel's record is as was asked for; otherwise the task has its answer, and
/// it is not that all went well.
#[verifier::rlimit(40)]
pub proof fn law_page_syscalls_do_what_was_asked(m: KernelView, page: VirtPage, flags: PageFlags)
    requires
        m.wf(),
        m.state(m.current) != TaskState::Dead,
    ensures
        ({
            let (n, r) = m.syscall(Syscall::PageMap { page, flags });
            match r {
                Ok(Some(request)) => mapped_as_asked(m, n, m.current, page, flags, request),
                Ok(None) => n.tasks[m.current as int].last_syscall_ret matches Some(code)
                    && code != SYSCALL_OK,
                Err(_) => false,
            }
        }),
        ({
            let (n, r) = m.syscall(Syscall::PageUnmap { page });
            match r {
                Ok(Some(request)) => unmapped_as_asked(m, n, m.current, page, request),
                Ok(None) => n.tasks[m.current as int].last_syscall_ret matches Some(code)
                    && code != SYSCALL_OK,
                Err(_) => false,
            }
        }),
{
    reveal(KernelView::syscall);
    let l = m.log(LogEvent::SyscallHandled { task: m.tasks[m.current as int].id });
    law_page_map_does_what_was_asked(l, m.current, page, flags);
    law_page_unmap_does_what_was_asked(l, m.current, page);
}

/// What the page table answers reaches the task that asked, unread, and no other task.
pub proof fn law_answer_of_page_table_reaches_the_task(
    m: KernelView,
    result: Result<(), PagingApplyError>,
)
    requires
        m.wf(),
        m.state(m.current) != TaskState::Dead,
    ensures
        ({
            let n = m.finish_page_call(result);
            let t = n.tasks[m.current as int];
            &&& t.last_syscall_ret matches Some(code) && (code == SYSCALL_OK <==> result is Ok)
            &&& t.last_syscall_ret_unread
            &&& t.state == m.state(m.current)
            &&& n.spaces == m.spaces
            &&& forall|i: int|
                0 <= i < MAX_TASKS && i != m.current ==> #[trigger] n.tasks[i] == m.tasks[i]
        }),
{
}

} // verus!
