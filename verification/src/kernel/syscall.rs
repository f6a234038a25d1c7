//! The system call boundary. A call that passes messages answers in the task's
//! `last_reply`, a call on pages in its `last_syscall_ret`.

use vstd::prelude::*;

use crate::arch::paging::PagingApplyError;
use crate::kernel::demo::on_after_ipc_recv;
use crate::kernel::model::KernelView;
use crate::kernel::state::KernelState;
use crate::kernel::trace::IpcSyscallKind;
use crate::kernel::types::{
    Effect, EndpointId, FailStopReason, LogEvent, Task, TaskState, MAX_TASKS,
};
use crate::mem::addr::{PhysFrame, VirtPage};
use crate::mem::address_space::{AddressSpaceError, AddressSpaceKind};
use crate::mem::paging::{MemAction, PageFlags};

verus! {

broadcast use crate::mem::address_space::lemma_view;

pub const SYSCALL_OK: u64 = 0;

pub const SYSCALL_ERR_ALREADY_MAPPED: u64 = 1;

pub const SYSCALL_ERR_NOT_MAPPED: u64 = 2;

pub const SYSCALL_ERR_CAPACITY: u64 = 3;

pub const SYSCALL_ERR_ARCH_FAILED: u64 = 10;

pub const SYSCALL_ERR_BAD_ASPACE: u64 = 11;

#[derive(Clone, Copy, Debug, PartialEq, Eq, Structural)]
pub enum Syscall {
    IpcRecv { ep: EndpointId },
    IpcSend { ep: EndpointId, msg: u64 },
    IpcReply { ep: EndpointId, msg: u64 },
    PageMap { page: VirtPage, flags: PageFlags },
    PageUnmap { page: VirtPage },
}

/// A page operation that the machine has to perform, in the page table at `root`, or in
/// the one that is in use.
#[derive(Clone, Copy, Debug, PartialEq, Eq)]
pub struct PageRequest {
    pub action: MemAction,
    pub root: Option<PhysFrame>,
}

/// How a call on pages stands: answered, or waiting for the page table.
#[derive(Clone, Copy, Debug, PartialEq, Eq)]
pub enum PageCall {
    Answered { code: u64 },
    Apply { request: PageRequest },
}

/// The answer to a refusal of the kernel's record of an address space.
pub open spec fn spec_refusal_code(e: AddressSpaceError) -> u64 {
    match e {
        AddressSpaceError::AlreadyMapped => SYSCALL_ERR_ALREADY_MAPPED,
        AddressSpaceError::NotMapped => SYSCALL_ERR_NOT_MAPPED,
        AddressSpaceError::CapacityExceeded => SYSCALL_ERR_CAPACITY,
    }
}

fn refusal_code(e: AddressSpaceError) -> (code: u64)
    ensures
        code == spec_refusal_code(e),
{
    match e {
        AddressSpaceError::AlreadyMapped => SYSCALL_ERR_ALREADY_MAPPED,
        AddressSpaceError::NotMapped => SYSCALL_ERR_NOT_MAPPED,
        AddressSpaceError::CapacityExceeded => SYSCALL_ERR_CAPACITY,
    }
}

impl Syscall {
    pub open spec fn is_ipc(self) -> bool {
        self is IpcRecv || self is IpcSend || self is IpcReply
    }
}

impl Syscall {
    /// The endpoint of a call that passes messages.
    pub open spec fn endpoint(self) -> EndpointId {
        match self {
            Syscall::IpcRecv { ep } => ep,
            Syscall::IpcSend { ep, .. } => ep,
            Syscall::IpcReply { ep, .. } => ep,
            _ => EndpointId(0),
        }
    }
}

impl KernelView {
    /// The current task, if it is alive, gets the result of a call on pages.
    pub open spec fn answer_page_call(self, code: u64) -> KernelView {
        if self.state(self.current) == TaskState::Dead {
            self
        } else {
            self.put_task(
                self.current as int,
                Task {
                    last_syscall_ret: Some(code),
                    last_syscall_ret_unread: true,
                    ..self.tasks[self.current as int]
                },
            )
        }
    }

    /// A page operation on the kernel's record, and what is left for the page table. A user
    /// address space needs a root for that.
    pub open spec fn page_operation(self, as_idx: int, action: MemAction) -> (
        KernelView,
        PageCall,
    ) {
        let s = self.spaces[as_idx];
        match s.apply_result(action) {
            Err(e) => (self, PageCall::Answered { code: spec_refusal_code(e) }),
            Ok(_) => {
                let m = self.put_space(as_idx, s.apply(action));
                if s.kind == AddressSpaceKind::Kernel {
                    (m, PageCall::Apply { request: PageRequest { action, root: None } })
                } else if s.root_page_frame is None {
                    (m, PageCall::Answered { code: SYSCALL_ERR_BAD_ASPACE })
                } else {
                    (
                        m,
                        PageCall::Apply {
                            request: PageRequest { action, root: s.root_page_frame },
                        },
                    )
                }
            },
        }
    }

    /// A task maps a page, to the frame of its memory demo.
    pub open spec fn page_map(self, idx: usize, page: VirtPage, flags: PageFlags) -> (
        KernelView,
        PageCall,
    ) {
        let as_idx = self.tasks[idx as int].address_space_id.0 as int;
        let (m, frame) = self.demo_frame(idx);
        match frame {
            None => (
                m.error("syscall: PageMap failed (no frame)").value(
                    "task_id",
                    m.tasks[idx as int].id.0,
                ),
                PageCall::Answered { code: SYSCALL_ERR_ARCH_FAILED },
            ),
            Some(frame) => m.page_operation(as_idx, MemAction::MapPage { page, frame, flags }),
        }
    }

    /// A task unmaps a page.
    pub open spec fn page_unmap(self, idx: usize, page: VirtPage) -> (KernelView, PageCall) {
        self.page_operation(
            self.tasks[idx as int].address_space_id.0 as int,
            MemAction::Unmap { page },
        )
    }

    /// The answer of a call on pages is given, if there is one already.
    pub open spec fn settle_page_call(self, call: PageCall) -> (
        KernelView,
        Result<Option<PageRequest>, FailStopReason>,
    ) {
        match call {
            PageCall::Answered { code } => (self.answer_page_call(code), Ok(None)),
            PageCall::Apply { request } => (self, Ok(Some(request))),
        }
    }

    /// The page table has answered.
    pub open spec fn finish_page_call(self, result: Result<(), PagingApplyError>) -> KernelView {
        self.answer_page_call(
            match result {
                Ok(_) => SYSCALL_OK,
                Err(_) => SYSCALL_ERR_ARCH_FAILED,
            },
        )
    }

    /// A call that passes messages shows in the trace, if it is on.
    pub open spec fn trace_syscall(
        self,
        kind: IpcSyscallKind,
        ep: EndpointId,
        msg: Option<u64>,
    ) -> KernelView {
        if self.features.traces_syscalls() {
            self.emit(
                Effect::IpcSyscall { kind, task: self.tasks[self.current as int].id, ep, msg },
            )
        } else {
            self
        }
    }

    /// A system call of the current task, and the page operation that it needs, if it does,
    /// or the fail-stop that it comes to.
    /// A kernel task may not pass messages: its call is ignored.
    #[verifier::opaque]
    pub open spec fn syscall(self, sc: Syscall) -> (
        KernelView,
        Result<Option<PageRequest>, FailStopReason>,
    ) {
        let idx = self.current;
        let tid = self.tasks[idx as int].id;
        if self.is_kernel_task(idx) && sc.is_ipc() {
            (
                self.error(
                    "syscall: kernel task IPC is forbidden (ignored at syscall boundary)",
                ).value("task_id", tid.0).value("ep_id", sc.endpoint().0 as u64),
                Ok(None),
            )
        } else {
            let m = self.log(LogEvent::SyscallHandled { task: tid });
            match sc {
                Syscall::IpcRecv { ep } => {
                    let (n, r) = m.trace_syscall(IpcSyscallKind::Recv, ep, None).ipc_recv(
                        ep,
                    ).inject_dead_partner(idx, tid, ep);
                    match r {
                        Ok(_) => (n, Ok(None)),
                        Err(reason) => (n, Err(reason)),
                    }
                },
                Syscall::IpcSend { ep, msg } => (
                    m.trace_syscall(IpcSyscallKind::Send, ep, Some(msg)).ipc_send(ep, msg),
                    Ok(None),
                ),
                Syscall::IpcReply { ep, msg } => (
                    m.trace_syscall(IpcSyscallKind::Reply, ep, Some(msg)).ipc_reply(ep, msg),
                    Ok(None),
                ),
                Syscall::PageMap { page, flags } => {
                    let (n, call) = m.page_map(idx, page, flags);
                    n.settle_page_call(call)
                },
                Syscall::PageUnmap { page } => {
                    let (n, call) = m.page_unmap(idx, page);
                    n.settle_page_call(call)
                },
            }
        }
    }

    /// The system call that the current task has waiting, if there is one. A dead task has
    /// it taken away.
    #[verifier::opaque]
    pub open spec fn pending_syscall(self) -> (
        KernelView,
        Result<Option<PageRequest>, FailStopReason>,
    ) {
        let t = self.tasks[self.current as int];
        let m = self.put_task(self.current as int, Task { pending_syscall: None, ..t });
        if t.state == TaskState::Dead {
            (m, Ok(None))
        } else {
            match t.pending_syscall {
                None => (self, Ok(None)),
                Some(sc) => m.log(LogEvent::SyscallIssued { task: t.id }).syscall(sc),
            }
        }
    }
}

impl KernelState {
    /// Gives the current task the result of a call on pages.
    pub fn set_last_syscall_ret_for_current(&mut self, ret: u64)
        requires
            old(self).wf(),
        ensures
            final(self).wf(),
            final(self)@ == old(self)@.answer_page_call(ret),
            final(self)@.room() >= old(self)@.room(),
    {
        let idx: usize = self.current_task();
        let t = self.task(idx);
        if t.state == TaskState::Dead {
            return;
        }
        self.put_task(
            idx,
            Task { last_syscall_ret: Some(ret), last_syscall_ret_unread: true, ..t },
        );
    }

    fn page_operation(&mut self, as_idx: usize, action: MemAction) -> (call: PageCall)
        requires
            old(self).wf(),
            as_idx < MAX_TASKS,
        ensures
            final(self).wf(),
            (final(self)@, call) == old(self)@.page_operation(as_idx as int, action),
            final(self)@.room() == old(self)@.room(),
    {
        let ghost m = self@;
        if let Err(e) = self.apply_in_space(as_idx, action) {
            assert(m.spaces.update(as_idx as int, m.spaces[as_idx as int]) =~= m.spaces);
            return PageCall::Answered { code: refusal_code(e) };
        }
        match self.space(as_idx).kind {
            AddressSpaceKind::Kernel => PageCall::Apply {
                request: PageRequest { action, root: None },
            },
            AddressSpaceKind::User => match self.space(as_idx).root_page_frame {
                Some(r) => PageCall::Apply { request: PageRequest { action, root: Some(r) } },
                None => PageCall::Answered { code: SYSCALL_ERR_BAD_ASPACE },
            },
        }
    }

    /// A task maps a page.
    pub fn syscall_page_map(&mut self, idx: usize, page: VirtPage, flags: PageFlags) -> (call:
        PageCall)
        requires
            old(self).wf(),
            idx < MAX_TASKS,
        ensures
            final(self).wf(),
            (final(self)@, call) == old(self)@.page_map(idx, page, flags),
            final(self)@.room() == old(self)@.room(),
    {
        let as_idx: usize = self.task(idx).address_space_id.0;
        match self.get_or_alloc_demo_frame(idx) {
            Some(frame) => self.page_operation(as_idx, MemAction::map(page, frame, flags)),
            None => {
                let id = self.task(idx).id;
                self.error("syscall: PageMap failed (no frame)");
                self.value("task_id", id.0);
                PageCall::Answered { code: SYSCALL_ERR_ARCH_FAILED }
            },
        }
    }

    /// A task unmaps a page.
    pub fn syscall_page_unmap(&mut self, idx: usize, page: VirtPage) -> (call: PageCall)
        requires
            old(self).wf(),
            idx < MAX_TASKS,
        ensures
            final(self).wf(),
            (final(self)@, call) == old(self)@.page_unmap(idx, page),
            final(self)@.room() == old(self)@.room(),
    {
        let as_idx: usize = self.task(idx).address_space_id.0;
        self.page_operation(as_idx, MemAction::unmap(page))
    }

    fn settle_page_call(&mut self, call: PageCall) -> (request: Result<
        Option<PageRequest>,
        FailStopReason,
    >)
        requires
            old(self).wf(),
        ensures
            final(self).wf(),
            (final(self)@, request) == old(self)@.settle_page_call(call),
            final(self)@.room() >= old(self)@.room(),
    {
        match call {
            PageCall::Answered { code } => {
                self.set_last_syscall_ret_for_current(code);
                Ok(None)
            },
            PageCall::Apply { request } => Ok(Some(request)),
        }
    }

    /// Goes on after the page table has answered to a call on pages.
    pub fn finish_page_call(&mut self, result: Result<(), PagingApplyError>)
        requires
            old(self).wf(),
        ensures
            final(self).wf(),
            final(self)@ == old(self)@.finish_page_call(result),
            final(self)@.room() >= old(self)@.room(),
    {
        let code: u64 = match result {
            Ok(_) => SYSCALL_OK,
            Err(_) => SYSCALL_ERR_ARCH_FAILED,
        };
        self.set_last_syscall_ret_for_current(code);
    }

    fn trace_syscall(&mut self, kind: IpcSyscallKind, ep: EndpointId, msg: Option<u64>)
        requires
            old(self).wf(),
        ensures
            final(self).wf(),
            final(self)@ == old(self)@.trace_syscall(kind, ep, msg),
            final(self)@.room() == old(self)@.room(),
    {
        if self.features().traces_syscalls() {
            let idx: usize = self.current_task();
            let task = self.task(idx).id;
            self.emit(Effect::IpcSyscall { kind, task, ep, msg });
        }
    }

    /// Performs a system call of the current task, as far as the kernel can by itself.
    pub fn handle_syscall(&mut self, sc: Syscall) -> (request: Result<
        Option<PageRequest>,
        FailStopReason,
    >)
        requires
            old(self).wf(),
            old(self)@.room() >= 4,
        ensures
            final(self).wf(),
            (final(self)@, request) == old(self)@.syscall(sc),
            final(self)@.room() >= old(self)@.room() - 4,
    {
        proof {
            reveal(KernelView::syscall);
        }
        let idx: usize = self.current_task();
        let tid = self.task(idx).id;
        if self.is_kernel_task_index(idx) {
            match sc {
                Syscall::IpcRecv { ep }
                | Syscall::IpcSend { ep, .. }
                | Syscall::IpcReply { ep, .. } => {
                    self.error(
                        "syscall: kernel task IPC is forbidden (ignored at syscall boundary)",
                    );
                    self.value("task_id", tid.0);
                    self.value("ep_id", ep.0 as u64);
                    return Ok(None);
                },
                _ => {},
            }
        }
        self.push_event(LogEvent::SyscallHandled { task: tid });
        match sc {
            Syscall::IpcRecv { ep } => {
                self.trace_syscall(IpcSyscallKind::Recv, ep, None);
                self.ipc_recv(ep);
                match on_after_ipc_recv(self, idx, tid, ep) {
                    Ok(_) => Ok(None),
                    Err(reason) => Err(reason),
                }
            },
            Syscall::IpcSend { ep, msg } => {
                self.trace_syscall(IpcSyscallKind::Send, ep, Some(msg));
                self.ipc_send(ep, msg);
                Ok(None)
            },
            Syscall::IpcReply { ep, msg } => {
                self.trace_syscall(IpcSyscallKind::Reply, ep, Some(msg));
                self.ipc_reply(ep, msg);
                Ok(None)
            },
            Syscall::PageMap { page, flags } => {
                let call = self.syscall_page_map(idx, page, flags);
                self.settle_page_call(call)
            },
            Syscall::PageUnmap { page } => {
                let call = self.syscall_page_unmap(idx, page);
                self.settle_page_call(call)
            },
        }
    }

    /// Performs the system call that the current task has waiting.
    pub fn handle_pending_syscall_if_any(&mut self) -> (request: Result<
        Option<PageRequest>,
        FailStopReason,
    >)
        requires
            old(self).wf(),
            old(self)@.room() >= 4,
        ensures
            final(self).wf(),
            (final(self)@, request) == old(self)@.pending_syscall(),
            final(self)@.room() >= old(self)@.room() - 4,
    {
        proof {
            reveal(KernelView::pending_syscall);
        }
        let idx: usize = self.current_task();
        let t = self.task(idx);
        if t.state == TaskState::Dead {
            self.put_task(idx, Task { pending_syscall: None, ..t });
            return Ok(None);
        }
        match t.pending_syscall {
            None => Ok(None),
            Some(sc) => {
                self.put_task(idx, Task { pending_syscall: None, ..t });
                self.push_event(LogEvent::SyscallIssued { task: t.id });
                self.handle_syscall(sc)
            },
        }
    }
}

} // verus!
