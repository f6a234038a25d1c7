//! The memory demo. The kernel task maps and unmaps a page in turn. A user task maps a
//! page, writes and reads it, unmaps it, and tries it once more.

use vstd::prelude::*;

use crate::arch::paging::PageFaultInfo;
use crate::arch::virt_layout::USER_SPACE_BASE;
use crate::kernel::demo::on_mem_demo;
use crate::kernel::kill::NO_ROOT_LINE;
use crate::kernel::lines::{error, info, push_error, push_info, push_value, value};
use crate::kernel::model::KernelView;
use crate::kernel::state::KernelState;
use crate::kernel::syscall::Syscall;
use crate::kernel::types::{
    FailStopReason, LogEvent, LogLine, Task, TaskState, DEMO_VIRT_PAGE_INDEX_TASK0,
    DEMO_VIRT_PAGE_INDEX_USER, MAX_TASKS, TASK0_INDEX, TASK1_INDEX, TASK2_INDEX,
};
use crate::mem::addr::{PhysFrame, VirtPage};
use crate::mem::address_space::AddressSpaceKind;
use crate::mem::paging::{MemAction, PageFlags};

verus! {

broadcast use crate::mem::address_space::lemma_view;

/// A write of a word to user memory that is read back, in one address space and then back
/// in the kernel's.
#[derive(Clone, Copy, Debug, PartialEq, Eq, Structural)]
pub struct UserRw {
    pub root: PhysFrame,
    pub kernel_root: PhysFrame,
    pub addr: u64,
    pub value: u64,
}

/// What the memory demo needs of the machine before it can go on.
#[derive(Clone, Copy, Debug, PartialEq, Eq, Structural)]
pub enum DemoRequest {
    Nothing,
    /// A page operation in the page table that is in use.
    Apply { action: MemAction },
    /// A guarded access to user memory, at the given stage of the demo.
    Access { stage: u8, rw: UserRw },
    /// Nothing any more: the demo cannot go on.
    Stop { reason: FailStopReason },
}

pub const RW_VALUE: u64 = 0xC0DE_0000_0000_0000;

pub const RW_AFTER_UNMAP_VALUE: u64 = 0xDEAD_0000_0000_0000;

pub open spec fn spec_demo_page(idx: usize) -> VirtPage {
    if idx == TASK1_INDEX || idx == TASK2_INDEX {
        VirtPage { number: DEMO_VIRT_PAGE_INDEX_USER }
    } else {
        VirtPage { number: DEMO_VIRT_PAGE_INDEX_TASK0 }
    }
}

/// The page that a task's memory demo uses.
pub fn demo_page_for_task(idx: usize) -> (page: VirtPage)
    ensures
        page == spec_demo_page(idx),
{
    if idx == TASK1_INDEX || idx == TASK2_INDEX {
        VirtPage::from_index(DEMO_VIRT_PAGE_INDEX_USER)
    } else {
        VirtPage::from_index(DEMO_VIRT_PAGE_INDEX_TASK0)
    }
}

/// The flags of a kernel page that can be written.
pub open spec fn spec_kernel_flags() -> PageFlags {
    PageFlags::present().spec_union(PageFlags::writable())
}

/// The flags of a user page that can be written.
pub open spec fn spec_user_flags() -> PageFlags {
    spec_kernel_flags().spec_union(PageFlags::user())
}

pub fn kernel_flags() -> (f: PageFlags)
    ensures
        f == spec_kernel_flags(),
{
    PageFlags::present().union(PageFlags::writable())
}

pub fn user_flags() -> (f: PageFlags)
    ensures
        f == spec_user_flags(),
{
    kernel_flags().union(PageFlags::user())
}

/// The word that a task writes: which test it is, who, and when.
pub open spec fn spec_test_value(word: u64, id: u64, tick: u64) -> u64 {
    (word + (id % 0x1_0000) * 0x1_0000 + tick % 0x1_0000) as u64
}

/// The word that a task writes in the memory demo.
pub fn test_value(word: u64, id: u64, tick: u64) -> (v: u64)
    requires
        word % 0x1_0000_0000 == 0,
    ensures
        v == spec_test_value(word, id, tick),
        v == word + (id % 0x1_0000) * 0x1_0000 + tick % 0x1_0000,
{
    assert(word % 0x1_0000_0000 == 0 ==> (word ^ ((id & 0xffff) << 16)) ^ (tick & 0xffff) == word
        + (id % 0x1_0000) * 0x1_0000 + tick % 0x1_0000) by (bit_vector);
    word ^ ((id & 0xffff) << 16) ^ (tick & 0xffff)
}

/// What is said of the access of a user task to its page.
pub open spec fn user_rw_lines(
    stage: u8,
    written: u64,
    result: Result<u64, PageFaultInfo>,
) -> Seq<LogLine> {
    if stage == 1 {
        seq![info("mem_demo[user]: stage1 RW (guarded; returned to kernel CR3)")] + match result {
            Ok(got) => seq![info("user_mem_test: read_back"), value("", got)] + if got == written {
                seq![info("user_mem_test: OK (value matched)")]
            } else {
                seq![
                    error("user_mem_test: MISMATCH!"),
                    value("expected", written),
                    value("got", got),
                ]
            },
            Err(_) => seq![error("UNEXPECTED: #PF in stage1 RW (Map直後のはず)")],
        }
    } else {
        seq![
            info("mem_demo[user]: stage3 RW-after-unmap (guarded; returned to kernel CR3)"),
        ] + match result {
            Ok(got) => seq![
                error("UNEXPECTED: RW succeeded after Unmap"),
                value("read_back", got),
            ],
            Err(_) => Seq::empty(),
        }
    }
}

/// Says what the access of a user task to its page came to.
pub fn show_user_rw(
    stage: u8,
    written: u64,
    result: &Result<u64, PageFaultInfo>,
    out: &mut Vec<LogLine>,
)
    ensures
        final(out)@ == old(out)@ + user_rw_lines(stage, written, *result),
{
    if stage == 1 {
        push_info(out, "mem_demo[user]: stage1 RW (guarded; returned to kernel CR3)");
        match *result {
            Ok(got) => {
                push_info(out, "user_mem_test: read_back");
                push_value(out, "", got);
                if got == written {
                    push_info(out, "user_mem_test: OK (value matched)");
                } else {
                    push_error(out, "user_mem_test: MISMATCH!");
                    push_value(out, "expected", written);
                    push_value(out, "got", got);
                }
            },
            Err(_) => {
                push_error(out, "UNEXPECTED: #PF in stage1 RW (Map直後のはず)");
            },
        }
    } else {
        push_info(
            out,
            "mem_demo[user]: stage3 RW-after-unmap (guarded; returned to kernel CR3)",
        );
        match *result {
            Ok(got) => {
                push_error(out, "UNEXPECTED: RW succeeded after Unmap");
                push_value(out, "read_back", got);
            },
            Err(_) => {},
        }
    }
    assert(out@ =~= old(out)@ + user_rw_lines(stage, written, *result));
}

/// What the kernel task is about to do.
pub open spec fn issuing_line(mapped: bool) -> &'static str {
    if mapped {
        "mem_demo: issuing Unmap (for current task)"
    } else {
        "mem_demo: issuing Map (for current task)"
    }
}

impl KernelView {
    /// The frame of a task's memory demo: the one that it has, or a new one if there is one.
    pub open spec fn demo_frame(self, idx: usize) -> (KernelView, Option<PhysFrame>) {
        if idx >= MAX_TASKS {
            (self, None)
        } else {
            match self.mem_demo_frame[idx as int] {
                Some(f) => (self, Some(f)),
                None => if self.frames.len() == 0 {
                    (self, None)
                } else {
                    let f = PhysFrame { number: self.frames[0] };
                    (
                        KernelView {
                            frames: self.frames.skip(1),
                            mem_demo_frame: self.mem_demo_frame.update(idx as int, Some(f)),
                            ..self
                        }.log(LogEvent::FrameAllocated),
                        Some(f),
                    )
                },
            }
        }
    }

    /// The access to user memory that the current task makes.
    pub open spec fn demo_rw(self, root: PhysFrame, word: u64) -> UserRw {
        UserRw {
            root,
            kernel_root: self.kernel_root(),
            addr: (USER_SPACE_BASE + spec_demo_page(self.current).number * 4096) as u64,
            value: spec_test_value(word, self.tasks[self.current as int].id.0, self.tick_count),
        }
    }

    pub open spec fn put_stage(self, idx: usize, stage: u8) -> KernelView {
        KernelView { mem_demo_stage: self.mem_demo_stage.update(idx as int, stage), ..self }
    }

    /// A turn of the memory demo for a user task.
    pub open spec fn user_mem_demo(self) -> (KernelView, DemoRequest) {
        let idx = self.current;
        let space = self.space_of(idx);
        let page = spec_demo_page(idx);
        let stage = self.mem_demo_stage[idx as int];
        if space.kind != AddressSpaceKind::User {
            (self.error("mem_demo[user]: task is not User; skip"), DemoRequest::Nothing)
        } else {
            let root = space.root_page_frame->0;
            if stage == 0 {
                (
                    self.info("mem_demo[user]: stage0 Map (via syscall)").issue(
                        Syscall::PageMap { page, flags: spec_user_flags() },
                    ).put_stage(idx, 1),
                    DemoRequest::Nothing,
                )
            } else if stage == 1 {
                (self, DemoRequest::Access { stage, rw: self.demo_rw(root, RW_VALUE) })
            } else if stage == 2 {
                (
                    self.info("mem_demo[user]: stage2 Unmap (via syscall)").issue(
                        Syscall::PageUnmap { page },
                    ).put_stage(idx, 3),
                    DemoRequest::Nothing,
                )
            } else {
                (
                    self,
                    DemoRequest::Access { stage, rw: self.demo_rw(root, RW_AFTER_UNMAP_VALUE) },
                )
            }
        }
    }

    /// A user task has accessed its page at a stage of the demo. While the page is mapped a
    /// success leads on; a fault, or a success after the page has gone, starts all over. A
    /// fault that would kill a task whose mappings cannot be taken out is a fail-stop.
    pub open spec fn finish_user_rw(
        self,
        idx: usize,
        stage: u8,
        result: Result<u64, PageFaultInfo>,
    ) -> (KernelView, Result<(), FailStopReason>) {
        match result {
            Ok(_) => (
                self.put_stage(
                    idx,
                    if stage == 1 {
                        2
                    } else {
                        0
                    },
                ),
                Ok(()),
            ),
            Err(pf) => if self.features.pf_demo && !self.can_be_killed(self.current) {
                (
                    self.say_user_fault(pf).error(NO_ROOT_LINE),
                    Err(FailStopReason::UserRootMissing),
                )
            } else {
                (self.user_page_fault(pf).put_stage(idx, 0), Ok(()))
            },
        }
    }

    /// What is said where the current task is kept from its turn.
    pub open spec fn say_demo_stop(self, reason: FailStopReason) -> KernelView {
        match reason {
            FailStopReason::UserRootMissing => self.error(
                "mem_demo: user root_page_frame is None (unexpected)",
            ),
            _ => self.info(issuing_line(self.mem_demo_mapped[self.current as int])).error(
                "address_space.apply: ERROR",
            ).info(
                if self.mem_demo_mapped[self.current as int] {
                    "reason = NotMapped"
                } else if self.space_of(self.current).maps(spec_demo_page(self.current)) {
                    "reason = AlreadyMapped"
                } else {
                    "reason = CapacityExceeded"
                },
            ),
        }
    }

    /// The kernel task takes the frame that it is going to map.
    pub open spec fn with_demo_frame(self) -> KernelView {
        if self.current == TASK0_INDEX && !self.mem_demo_mapped[TASK0_INDEX as int] {
            self.demo_frame(TASK0_INDEX).0
        } else {
            self
        }
    }

    /// What keeps the current task from its turn of the memory demo: a user task has no
    /// root, or the kernel's own record refuses the operation of the kernel task.
    pub open spec fn demo_stop(self) -> Option<FailStopReason> {
        let idx = self.current;
        let page = spec_demo_page(idx);
        let space = self.space_of(idx);
        if idx != TASK0_INDEX {
            if space.kind == AddressSpaceKind::User && space.root_page_frame is None {
                Some(FailStopReason::UserRootMissing)
            } else {
                None
            }
        } else if if self.mem_demo_mapped[idx as int] {
            !space.maps(page)
        } else {
            (self.mem_demo_frame[idx as int] is Some || self.frames.len() > 0) && (space.maps(page)
                || space.full())
        } {
            Some(FailStopReason::AddressSpaceApplyFailed)
        } else {
            None
        }
    }

    /// A turn of the memory demo for the kernel task. Without a free frame the kernel
    /// halts.
    pub open spec fn kernel_mem_demo(self) -> (KernelView, DemoRequest) {
        let idx = self.current;
        let page = spec_demo_page(idx);
        let as_idx = self.tasks[idx as int].address_space_id.0 as int;
        let s = self.info(issuing_line(self.mem_demo_mapped[idx as int]));
        let (m, frame) = if self.mem_demo_mapped[idx as int] {
            (s, None)
        } else {
            s.demo_frame(idx)
        };
        if !self.mem_demo_mapped[idx as int] && frame is None {
            (m.error("mem_demo: no more usable frames").halted(), DemoRequest::Nothing)
        } else {
            let action = if self.mem_demo_mapped[idx as int] {
                MemAction::Unmap { page }
            } else {
                MemAction::MapPage { page, frame: frame->0, flags: spec_kernel_flags() }
            };
            (
                m.put_space(as_idx, m.spaces[as_idx].apply(action)).info(
                    "address_space.apply: OK",
                ).info("mem_demo: applying arch paging (Task0 / current CR3)"),
                DemoRequest::Apply { action },
            )
        }
    }

    /// The page table has performed an operation of the kernel's memory demo.
    pub open spec fn finish_kernel_demo(self, idx: usize, action: MemAction) -> KernelView {
        KernelView {
            mem_demo_mapped: self.mem_demo_mapped.update(
                idx as int,
                !self.mem_demo_mapped[idx as int],
            ),
            ..self
        }.log(
            LogEvent::MemActionApplied {
                task: self.tasks[idx as int].id,
                address_space: self.tasks[idx as int].address_space_id,
                action,
            },
        )
    }

    /// A turn of the memory demo for the current task, or of a fault in its place, or a
    /// stop.
    #[verifier::opaque]
    pub open spec fn mem_demo(self) -> (KernelView, DemoRequest) {
        let (m, skip) = self.inject_mem_fault();
        if skip || m.state(m.current) == TaskState::Dead {
            (m, DemoRequest::Nothing)
        } else {
            let p = m.with_demo_frame();
            match p.demo_stop() {
                Some(reason) => (p.say_demo_stop(reason), DemoRequest::Stop { reason }),
                None => if p.current != TASK0_INDEX {
                    p.user_mem_demo()
                } else {
                    p.kernel_mem_demo()
                },
            }
        }
    }
}

impl KernelState {
    /// The frame of a task's memory demo.
    pub fn get_or_alloc_demo_frame(&mut self, idx: usize) -> (f: Option<PhysFrame>)
        requires
            old(self).wf(),
        ensures
            final(self).wf(),
            (final(self)@, f) == old(self)@.demo_frame(idx),
            final(self)@.room() == old(self)@.room(),
    {
        if idx >= MAX_TASKS {
            return None;
        }
        if let Some(f) = self.mem_demo_frame(idx) {
            return Some(f);
        }
        match self.allocate_frame() {
            Some(f) => {
                self.push_event(LogEvent::FrameAllocated);
                self.set_mem_demo_frame(idx, Some(f));
                Some(f)
            },
            None => None,
        }
    }

    fn user_mem_demo(&mut self) -> (request: DemoRequest)
        requires
            old(self).wf(),
            old(self)@.current != TASK0_INDEX,
            old(self)@.demo_stop() is None,
        ensures
            final(self).wf(),
            (final(self)@, request) == old(self)@.user_mem_demo(),
            final(self)@.room() >= old(self)@.room(),
    {
        let idx: usize = self.current_task();
        let t = self.task(idx);
        let page = demo_page_for_task(idx);
        if self.space(t.address_space_id.0).kind != AddressSpaceKind::User {
            self.error("mem_demo[user]: task is not User; skip");
            return DemoRequest::Nothing;
        }
        let root = self.space(t.address_space_id.0).root_page_frame.unwrap();
        let addr: u64 = USER_SPACE_BASE + page.start_address().0;
        let stage: u8 = self.mem_demo_stage(idx);
        match stage {
            0 => {
                self.info("mem_demo[user]: stage0 Map (via syscall)");
                let sc = Syscall::PageMap { page, flags: user_flags() };
                self.put_task(idx, Task { pending_syscall: Some(sc), ..t });
                self.set_mem_demo_stage(idx, 1);
                DemoRequest::Nothing
            },
            1 => {
                let value: u64 = test_value(RW_VALUE, t.id.0, self.tick_count());
                let kernel_root = self.kernel_root();
                DemoRequest::Access { stage, rw: UserRw { root, kernel_root, addr, value } }
            },
            2 => {
                self.info("mem_demo[user]: stage2 Unmap (via syscall)");
                let sc = Syscall::PageUnmap { page };
                self.put_task(idx, Task { pending_syscall: Some(sc), ..t });
                self.set_mem_demo_stage(idx, 3);
                DemoRequest::Nothing
            },
            _ => {
                let value: u64 = test_value(RW_AFTER_UNMAP_VALUE, t.id.0, self.tick_count());
                let kernel_root = self.kernel_root();
                DemoRequest::Access { stage, rw: UserRw { root, kernel_root, addr, value } }
            },
        }
    }

    /// Goes on after a user task has accessed its page.
    pub fn finish_user_rw(
        &mut self,
        idx: usize,
        stage: u8,
        result: Result<u64, PageFaultInfo>,
    ) -> (r: Result<(), FailStopReason>)
        requires
            old(self).wf(),
            idx < MAX_TASKS,
            old(self)@.room() >= 2,
        ensures
            final(self).wf(),
            (final(self)@, r) == old(self)@.finish_user_rw(idx, stage, result),
            final(self)@.room() >= old(self)@.room() - 2,
    {
        match result {
            Ok(_) => {
                if stage == 1 {
                    self.set_mem_demo_stage(idx, 2);
                } else {
                    self.set_mem_demo_stage(idx, 0);
                }
            },
            Err(pf) => {
                if self.features().pf_demo && !self.can_be_killed(self.current_task()) {
                    self.say_user_fault(pf);
                    self.error(NO_ROOT_LINE);
                    return Err(FailStopReason::UserRootMissing);
                }
                self.kill_current_task_due_to_user_pf(pf);
                self.set_mem_demo_stage(idx, 0);
            },
        }
        Ok(())
    }

    /// What keeps the current task from its turn of the memory demo.
    fn demo_stop(&self) -> (r: Option<FailStopReason>)
        requires
            self.wf(),
            self@.current != TASK0_INDEX || self@.mem_demo_mapped[0] || self@.mem_demo_frame[0]
                is Some || self@.frames.len() == 0,
        ensures
            r == self@.demo_stop(),
    {
        let idx: usize = self.current_task();
        let page = demo_page_for_task(idx);
        let s = self.space(self.task(idx).address_space_id.0);
        if idx != TASK0_INDEX {
            if s.kind == AddressSpaceKind::User && s.root_page_frame.is_none() {
                return Some(FailStopReason::UserRootMissing);
            }
            return None;
        }
        let refused = if self.mem_demo_mapped(idx) {
            !s.maps(page)
        } else {
            self.mem_demo_frame(idx).is_some() && (s.maps(page) || s.is_full())
        };
        if refused {
            Some(FailStopReason::AddressSpaceApplyFailed)
        } else {
            None
        }
    }

    /// Says what keeps the current task from its turn.
    fn say_demo_stop(&mut self, reason: FailStopReason)
        requires
            old(self).wf(),
        ensures
            final(self).wf(),
            final(self)@ == old(self)@.say_demo_stop(reason),
            final(self)@.room() == old(self)@.room(),
    {
        if let FailStopReason::UserRootMissing = reason {
            self.error("mem_demo: user root_page_frame is None (unexpected)");
            return;
        }
        let idx: usize = self.current_task();
        let as_idx: usize = self.task(idx).address_space_id.0;
        let mapped = self.space(as_idx).maps(demo_page_for_task(idx));
        if self.mem_demo_mapped(idx) {
            self.info("mem_demo: issuing Unmap (for current task)");
            self.error("address_space.apply: ERROR");
            self.info("reason = NotMapped");
        } else {
            self.info("mem_demo: issuing Map (for current task)");
            self.error("address_space.apply: ERROR");
            if mapped {
                self.info("reason = AlreadyMapped");
            } else {
                self.info("reason = CapacityExceeded");
            }
        }
    }

    fn kernel_mem_demo(&mut self) -> (request: DemoRequest)
        requires
            old(self).wf(),
            old(self)@.current == TASK0_INDEX,
            old(self)@.demo_stop() is None,
        ensures
            final(self).wf(),
            (final(self)@, request) == old(self)@.kernel_mem_demo(),
            final(self)@.room() == old(self)@.room(),
    {
        let idx: usize = self.current_task();
        let page = demo_page_for_task(idx);
        let as_idx: usize = self.task(idx).address_space_id.0;
        let action = if !self.mem_demo_mapped(idx) {
            self.info("mem_demo: issuing Map (for current task)");
            match self.get_or_alloc_demo_frame(idx) {
                Some(frame) => MemAction::map(page, frame, kernel_flags()),
                None => {
                    self.error("mem_demo: no more usable frames");
                    self.set_should_halt();
                    return DemoRequest::Nothing;
                },
            }
        } else {
            self.info("mem_demo: issuing Unmap (for current task)");
            MemAction::unmap(page)
        };
        let _ = self.apply_in_space(as_idx, action);
        self.info("address_space.apply: OK");
        self.info("mem_demo: applying arch paging (Task0 / current CR3)");
        DemoRequest::Apply { action }
    }

    /// Goes on after the page table has performed the operation of the kernel's memory demo.
    pub fn finish_kernel_demo(&mut self, idx: usize, action: MemAction)
        requires
            old(self).wf(),
            idx < MAX_TASKS,
        ensures
            final(self).wf(),
            final(self)@ == old(self)@.finish_kernel_demo(idx, action),
            final(self)@.room() == old(self)@.room(),
    {
        let mapped = self.mem_demo_mapped(idx);
        self.set_mem_demo_mapped(idx, !mapped);
        let t = self.task(idx);
        self.push_event(
            LogEvent::MemActionApplied {
                task: t.id,
                address_space: t.address_space_id,
                action,
            },
        );
    }

    fn do_mem_demo_normal(&mut self) -> (request: DemoRequest)
        requires
            old(self).wf(),
            old(self)@.state(old(self)@.current) != TaskState::Dead,
            old(self)@.demo_stop() is None,
        ensures
            final(self).wf(),
            (final(self)@, request) == if old(self)@.current != TASK0_INDEX {
                old(self)@.user_mem_demo()
            } else {
                old(self)@.kernel_mem_demo()
            },
            final(self)@.room() >= old(self)@.room(),
    {
        if self.current_task() != TASK0_INDEX {
            self.user_mem_demo()
        } else {
            self.kernel_mem_demo()
        }
    }

    /// Takes a turn of the memory demo.
    pub fn do_mem_demo(&mut self) -> (request: DemoRequest)
        requires
            old(self).wf(),
        ensures
            final(self).wf(),
            (final(self)@, request) == old(self)@.mem_demo(),
            final(self)@.room() >= old(self)@.room(),
    {
        proof {
            reveal(KernelView::mem_demo);
        }
        if on_mem_demo(self) {
            return DemoRequest::Nothing;
        }
        let idx: usize = self.current_task();
        if self.task(idx).state == TaskState::Dead {
            return DemoRequest::Nothing;
        }
        if idx == TASK0_INDEX && !self.mem_demo_mapped(idx) {
            let _ = self.get_or_alloc_demo_frame(idx);
        }
        if let Some(reason) = self.demo_stop() {
            self.say_demo_stop(reason);
            return DemoRequest::Stop { reason };
        }
        self.do_mem_demo_normal()
    }
}

} // verus!
