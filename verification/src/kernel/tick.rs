//! One tick of the kernel: an action of its own, a step of the current task, its system
//! call, and its clocks. A tick pauses where it needs an answer of the machine, and goes
//! on with the answer.

use vstd::prelude::*;

use crate::arch::paging::{PageFaultInfo, PagingApplyError};
use crate::kernel::mem_demo::{DemoRequest, UserRw};
use crate::kernel::model::KernelView;
use crate::kernel::state::KernelState;
use crate::kernel::syscall::{PageRequest, Syscall};
use crate::kernel::types::{
    next_activity_and_action, spec_next_activity_and_action, EndpointId, FailStopReason,
    KernelAction, KernelActivity, LogEvent, LogLine, Task, TaskState, MAX_TASKS, TASK1_INDEX,
};
use crate::mem::paging::MemAction;

verus! {

/// How far the counters must be from the end of their range for a tick.
pub const TICK_ROOM: u64 = 16;

/// What a tick has to remember while it pauses.
#[derive(Clone, Copy, Debug, PartialEq, Eq, Structural)]
pub struct TickContext {
    /// The task that was current when the tick began.
    pub ran: usize,
    pub next_activity: KernelActivity,
}

/// How a tick stands.
#[derive(Debug, PartialEq, Eq)]
pub enum TickProgress {
    /// The kernel has halted; nothing was done.
    Halted,
    /// The tick is over; this is what the self-check found.
    Done { violations: Vec<LogLine> },
    /// The machine has to perform a page operation in the page table that is in use.
    KernelDemo { ctx: TickContext, action: MemAction },
    /// The machine has to make a guarded access to user memory.
    UserAccess { ctx: TickContext, stage: u8, rw: UserRw },
    /// The machine has to perform a page operation for a system call.
    PageCall { ctx: TickContext, request: PageRequest },
    /// The kernel cannot go on; nothing more was done. The machine has to stop.
    Stopped { reason: FailStopReason },
}

/// What `TickProgress` stands for.
#[verifier::ext_equal]
pub enum TickOutcome {
    Halted,
    Done { violations: Seq<LogLine> },
    KernelDemo { ctx: TickContext, action: MemAction },
    UserAccess { ctx: TickContext, stage: u8, rw: UserRw },
    PageCall { ctx: TickContext, request: PageRequest },
    Stopped { reason: FailStopReason },
}

impl View for TickProgress {
    type V = TickOutcome;

    open spec fn view(&self) -> TickOutcome {
        match *self {
            TickProgress::Halted => TickOutcome::Halted,
            TickProgress::Done { violations } => TickOutcome::Done { violations: violations@ },
            TickProgress::KernelDemo { ctx, action } => TickOutcome::KernelDemo { ctx, action },
            TickProgress::UserAccess { ctx, stage, rw } => TickOutcome::UserAccess {
                ctx,
                stage,
                rw,
            },
            TickProgress::PageCall { ctx, request } => TickOutcome::PageCall { ctx, request },
            TickProgress::Stopped { reason } => TickOutcome::Stopped { reason },
        }
    }
}

/// The reply to a program that calls through the mailbox.
#[derive(Debug, PartialEq, Eq)]
pub enum MailboxReply {
    Ret { value: u64 },
    /// The call runs a tick; once that is over, the tick count is returned.
    Tick { progress: TickProgress },
    /// The kernel cannot go on. The machine has to stop.
    Stopped { reason: FailStopReason },
}

/// What `MailboxReply` stands for.
pub enum MailboxOutcome {
    Ret { value: u64 },
    Tick { outcome: TickOutcome },
    Stopped { reason: FailStopReason },
}

impl View for MailboxReply {
    type V = MailboxOutcome;

    open spec fn view(&self) -> MailboxOutcome {
        match *self {
            MailboxReply::Ret { value } => MailboxOutcome::Ret { value },
            MailboxReply::Tick { progress } => MailboxOutcome::Tick { outcome: progress@ },
            MailboxReply::Stopped { reason } => MailboxOutcome::Stopped { reason },
        }
    }
}

/// The call that a mailbox number stands for, if it passes messages.
pub open spec fn spec_mailbox_decode(sysno: u64, a0: u64, a1: u64) -> Option<Syscall> {
    let ep = EndpointId(a0 as usize);
    if sysno == 10 {
        Some(Syscall::IpcRecv { ep })
    } else if sysno == 11 {
        Some(Syscall::IpcSend { ep, msg: a1 })
    } else if sysno == 12 {
        Some(Syscall::IpcReply { ep, msg: a1 })
    } else {
        None
    }
}

impl KernelView {
    /// The end of a tick: the clocks of the task that ran, the next activity, and the
    /// self-check.
    pub open spec fn end_tick(self, ctx: TickContext) -> (KernelView, TickOutcome) {
        let m = self.update_runtime(ctx.ran);
        let s = if ctx.ran == m.current && m.state(ctx.ran) == TaskState::Running {
            m.update_time_slice(ctx.ran)
        } else {
            m.info("skip time_slice update due to task switch in this tick")
        };
        let n = KernelView { activity: ctx.next_activity, ..s };
        (n, TickOutcome::Done { violations: n.violations() })
    }

    /// The task that ran has died in the tick: nothing is done on its behalf, and somebody
    /// else runs.
    pub open spec fn end_tick_of_the_dead(self, ctx: TickContext) -> (KernelView, TickOutcome) {
        let m = KernelView {
            activity: ctx.next_activity,
            ..self.info(
                "tick: running task died in this tick; skip syscall/runtime/quantum updates",
            )
        };
        let n = if m.state(m.current) != TaskState::Running {
            m.error("tick: current_task not RUNNING at end-of-tick; forcing schedule").value(
                "current_task",
                m.current as u64,
            ).schedule()
        } else {
            m
        };
        (n, TickOutcome::Done { violations: n.violations() })
    }

    /// The part of a tick after the kernel's own action: a step of the task that runs, and
    /// one system call at most. A program in user mode takes the steps of the second task
    /// by itself.
    pub open spec fn after_action(self, ctx: TickContext) -> (KernelView, TickOutcome) {
        if self.state(ctx.ran) == TaskState::Dead {
            self.end_tick_of_the_dead(ctx)
        } else {
            let m = if self.features.ring3_mailbox_loop && ctx.ran == TASK1_INDEX {
                self
            } else {
                self.user_step(ctx.ran)
            };
            if ctx.ran == m.current {
                let (n, request) = m.pending_syscall();
                match request {
                    Ok(Some(request)) => (n, TickOutcome::PageCall { ctx, request }),
                    Ok(None) => n.end_tick(ctx),
                    Err(reason) => (n, TickOutcome::Stopped { reason }),
                }
            } else {
                m.end_tick(ctx)
            }
        }
    }

    /// A frame is taken, for no use but to show that it can be. Without one the kernel
    /// halts.
    pub open spec fn take_frame(self, taken: &'static str, missing: &'static str) -> KernelView {
        if self.frames.len() == 0 {
            self.error(missing).halted()
        } else {
            KernelView { frames: self.frames.skip(1), ..self }.info(taken).log(
                LogEvent::FrameAllocated,
            )
        }
    }

    pub open spec fn update_timer(self) -> KernelView {
        let now = (self.time_ticks + 1) as u64;
        KernelView { time_ticks: now, ..self }.value("time_ticks", now).log(
            LogEvent::TimerUpdated(now),
        ).wake_one_sleeper()
    }

    /// A tick begins.
    pub open spec fn begin_tick(self) -> KernelView {
        let n = (self.tick_count + 1) as u64;
        let m = KernelView { tick_count: n, ..self }.info("KernelState::tick()").value(
            "tick_count",
            n,
        );
        let h = if n % 50 == 0 {
            m.info("heartbeat").value("tick", n)
        } else {
            m
        };
        h.log(LogEvent::TickStarted(n)).value(
            "running_task",
            self.tasks[self.current as int].id.0,
        )
    }

    /// One tick.
    #[verifier::opaque]
    pub open spec fn tick(self) -> (KernelView, TickOutcome) {
        if self.should_halt {
            (self, TickOutcome::Halted)
        } else {
            let m = self.begin_tick();
            let (next_activity, action) = spec_next_activity_and_action(self.activity);
            let ctx = TickContext { ran: self.current, next_activity };
            match action {
                KernelAction::Nothing => m.info("action = None").after_action(ctx),
                KernelAction::UpdateTimer => m.info(
                    "action = UpdateTimer",
                ).update_timer().after_action(ctx),
                KernelAction::AllocateFrame => m.info("action = AllocateFrame").take_frame(
                    "allocated usable frame (tick)",
                    "no more usable frames; halting later",
                ).after_action(ctx),
                KernelAction::MemDemo => if self.features.ring3_mailbox_loop {
                    m.info("action = MemDemo").info(
                        "mem_demo skipped (ring3_mailbox_loop)",
                    ).after_action(ctx)
                } else {
                    let (d, request) = m.info("action = MemDemo").mem_demo();
                    match request {
                        DemoRequest::Nothing => d.after_action(ctx),
                        DemoRequest::Apply { action } => (
                            d,
                            TickOutcome::KernelDemo { ctx, action },
                        ),
                        DemoRequest::Access { stage, rw } => (
                            d,
                            TickOutcome::UserAccess { ctx, stage, rw },
                        ),
                        DemoRequest::Stop { reason } => (d, TickOutcome::Stopped { reason }),
                    }
                },
            }
        }
    }

    /// The tick goes on after the page operation of the kernel's memory demo. A refusal is a
    /// fail-stop.
    pub open spec fn resume_kernel_demo(
        self,
        ctx: TickContext,
        action: MemAction,
        result: Result<(), PagingApplyError>,
    ) -> (KernelView, TickOutcome) {
        match result {
            Ok(_) => self.finish_kernel_demo(ctx.ran, action).after_action(ctx),
            Err(_) => (
                self.error("arch::paging::apply_mem_action failed; abort (fail-stop)"),
                TickOutcome::Stopped { reason: FailStopReason::ArchApplyFailed },
            ),
        }
    }

    /// The tick goes on after the access to user memory.
    pub open spec fn resume_user_access(
        self,
        ctx: TickContext,
        stage: u8,
        result: Result<u64, PageFaultInfo>,
    ) -> (KernelView, TickOutcome) {
        let (m, r) = self.finish_user_rw(ctx.ran, stage, result);
        match r {
            Ok(_) => m.after_action(ctx),
            Err(reason) => (m, TickOutcome::Stopped { reason }),
        }
    }

    /// The tick goes on after the page operation of a system call.
    pub open spec fn resume_page_call(
        self,
        ctx: TickContext,
        result: Result<(), PagingApplyError>,
    ) -> (KernelView, TickOutcome) {
        self.finish_page_call(result).end_tick(ctx)
    }

    /// `n` frames are taken before the first tick; the kernel halts where one is missing.
    pub open spec fn take_frames(self, n: int) -> KernelView
        decreases n,
    {
        if n <= 0 {
            self
        } else {
            let m = self.take_frame(
                "allocated usable frame (bootstrap)",
                "no more frames in bootstrap",
            );
            if self.frames.len() == 0 {
                m
            } else {
                m.take_frames(n - 1)
            }
        }
    }

    /// Before the first tick five frames are taken.
    pub open spec fn bootstrap(self) -> KernelView {
        self.info("KernelState::bootstrap()").take_frames(5)
    }

    /// A call through the mailbox. The program in user mode counts as the second task.
    pub open spec fn mailbox(self, sysno: u64, a0: u64, a1: u64, a2: u64) -> (
        KernelView,
        MailboxOutcome,
    ) {
        if sysno == 1 {
            (
                self,
                MailboxOutcome::Ret { value: ((a0 + a1 + a2) % 0x1_0000_0000_0000_0000) as u64 },
            )
        } else if sysno == 2 {
            (self, MailboxOutcome::Ret { value: self.tick_count })
        } else if sysno == 30 {
            let (m, outcome) = self.tick();
            (m, MailboxOutcome::Tick { outcome })
        } else if sysno == 31 {
            let t = self.tasks[TASK1_INDEX as int];
            (
                self.put_task(TASK1_INDEX as int, Task { last_reply: None, ..t }),
                MailboxOutcome::Ret {
                    value: match t.last_reply {
                        Some(v) => v,
                        None => 0,
                    },
                },
            )
        } else {
            match spec_mailbox_decode(sysno, a0, a1) {
                Some(sc) => {
                    let m = if self.state(TASK1_INDEX) != TaskState::Dead {
                        KernelView { current: TASK1_INDEX, ..self }
                    } else {
                        self
                    };
                    let (n, r) = m.log(
                        LogEvent::SyscallIssued { task: m.tasks[m.current as int].id },
                    ).syscall(sc);
                    match r {
                        Ok(_) => (n, MailboxOutcome::Ret { value: 0 }),
                        Err(reason) => (n, MailboxOutcome::Stopped { reason }),
                    }
                },
                None => (self, MailboxOutcome::Ret { value: 0 }),
            }
        }
    }
}

impl KernelState {
    fn end_tick(&mut self, ctx: TickContext) -> (progress: TickProgress)
        requires
            old(self).wf(),
            ctx.ran < MAX_TASKS,
            old(self)@.room() >= 3,
        ensures
            final(self).wf(),
            (final(self)@, progress@) == old(self)@.end_tick(ctx),
            final(self)@.room() >= old(self)@.room() - 3,
    {
        self.update_runtime_for(ctx.ran);
        let still_running = ctx.ran == self.current_task() && self.task(ctx.ran).state
            == TaskState::Running;
        if still_running && !self.maybe_block_task(ctx.ran) {
            self.update_time_slice_for_and_maybe_schedule(ctx.ran);
        } else {
            self.info("skip time_slice update due to task switch in this tick");
        }
        self.set_activity(ctx.next_activity);
        TickProgress::Done { violations: self.debug_check_invariants() }
    }

    fn after_action(&mut self, ctx: TickContext) -> (progress: TickProgress)
        requires
            old(self).wf(),
            ctx.ran < MAX_TASKS,
            old(self)@.room() >= 7,
        ensures
            final(self).wf(),
            (final(self)@, progress@) == old(self)@.after_action(ctx),
            final(self)@.room() >= old(self)@.room() - 7,
    {
        if self.task(ctx.ran).state == TaskState::Dead {
            self.info("tick: running task died in this tick; skip syscall/runtime/quantum updates");
            self.set_activity(ctx.next_activity);
            if self.task(self.current_task()).state != TaskState::Running {
                self.error("tick: current_task not RUNNING at end-of-tick; forcing schedule");
                let current: usize = self.current_task();
                self.value("current_task", current as u64);
                self.schedule_next_task();
            }
            return TickProgress::Done { violations: self.debug_check_invariants() };
        }
        if !(self.features().ring3_mailbox_loop && ctx.ran == TASK1_INDEX) {
            self.user_step_issue_syscall(ctx.ran);
        }
        if ctx.ran == self.current_task() {
            match self.handle_pending_syscall_if_any() {
                Ok(Some(request)) => {
                    return TickProgress::PageCall { ctx, request };
                },
                Ok(None) => {},
                Err(reason) => {
                    return TickProgress::Stopped { reason };
                },
            }
        }
        self.end_tick(ctx)
    }

    /// Takes a frame; tells whether there was one.
    fn take_frame(&mut self, taken: &'static str, missing: &'static str) -> (r: bool)
        requires
            old(self).wf(),
        ensures
            final(self).wf(),
            final(self)@ == old(self)@.take_frame(taken, missing),
            r == (old(self)@.frames.len() > 0),
            final(self)@.room() == old(self)@.room(),
    {
        match self.allocate_frame() {
            Some(_) => {
                self.info(taken);
                self.push_event(LogEvent::FrameAllocated);
                true
            },
            None => {
                self.error(missing);
                self.set_should_halt();
                false
            },
        }
    }

    fn begin_tick(&mut self)
        requires
            old(self).wf(),
            old(self)@.room() >= 1,
        ensures
            final(self).wf(),
            final(self)@ == old(self)@.begin_tick(),
            final(self)@.room() >= old(self)@.room() - 1,
    {
        self.count_tick();
        let n: u64 = self.tick_count();
        self.info("KernelState::tick()");
        self.value("tick_count", n);
        if n % 50 == 0 {
            self.info("heartbeat");
            self.value("tick", n);
        }
        self.push_event(LogEvent::TickStarted(n));
        let running = self.task(self.current_task()).id;
        self.value("running_task", running.0);
    }

    /// Runs one tick, up to where it needs an answer of the machine.
    pub fn tick(&mut self) -> (progress: TickProgress)
        requires
            old(self).wf(),
            old(self)@.room() >= TICK_ROOM,
        ensures
            final(self).wf(),
            (final(self)@, progress@) == old(self)@.tick(),
            final(self)@.room() >= old(self)@.room() - TICK_ROOM,
    {
        proof {
            reveal(KernelView::tick);
        }
        if self.should_halt() {
            return TickProgress::Halted;
        }
        let ran: usize = self.current_task();
        let (next_activity, action) = next_activity_and_action(self.activity());
        let ctx = TickContext { ran, next_activity };
        self.begin_tick();
        match action {
            KernelAction::Nothing => {
                self.info("action = None");
            },
            KernelAction::UpdateTimer => {
                self.info("action = UpdateTimer");
                let now: u64 = self.count_time();
                self.value("time_ticks", now);
                self.push_event(LogEvent::TimerUpdated(now));
                self.maybe_wake_one_sleep_task();
            },
            KernelAction::AllocateFrame => {
                self.info("action = AllocateFrame");
                let _ = self.take_frame(
                    "allocated usable frame (tick)",
                    "no more usable frames; halting later",
                );
            },
            KernelAction::MemDemo => {
                self.info("action = MemDemo");
                if self.features().ring3_mailbox_loop {
                    self.info("mem_demo skipped (ring3_mailbox_loop)");
                } else {
                    match self.do_mem_demo() {
                        DemoRequest::Nothing => {},
                        DemoRequest::Apply { action } => {
                            return TickProgress::KernelDemo { ctx, action };
                        },
                        DemoRequest::Access { stage, rw } => {
                            return TickProgress::UserAccess { ctx, stage, rw };
                        },
                        DemoRequest::Stop { reason } => {
                            return TickProgress::Stopped { reason };
                        },
                    }
                }
            },
        }
        self.after_action(ctx)
    }

    /// Goes on with a tick after the page operation of the kernel's memory demo.
    pub fn resume_kernel_demo(
        &mut self,
        ctx: TickContext,
        action: MemAction,
        result: Result<(), PagingApplyError>,
    ) -> (progress: TickProgress)
        requires
            old(self).wf(),
            ctx.ran < MAX_TASKS,
            old(self)@.room() >= TICK_ROOM,
        ensures
            final(self).wf(),
            (final(self)@, progress@) == old(self)@.resume_kernel_demo(ctx, action, result),
            final(self)@.room() >= old(self)@.room() - TICK_ROOM,
    {
        if result.is_err() {
            self.error("arch::paging::apply_mem_action failed; abort (fail-stop)");
            return TickProgress::Stopped { reason: FailStopReason::ArchApplyFailed };
        }
        self.finish_kernel_demo(ctx.ran, action);
        self.after_action(ctx)
    }

    /// Goes on with a tick after an access to user memory.
    pub fn resume_user_access(
        &mut self,
        ctx: TickContext,
        stage: u8,
        result: Result<u64, PageFaultInfo>,
    ) -> (progress: TickProgress)
        requires
            old(self).wf(),
            ctx.ran < MAX_TASKS,
            old(self)@.room() >= TICK_ROOM,
        ensures
            final(self).wf(),
            (final(self)@, progress@) == old(self)@.resume_user_access(ctx, stage, result),
            final(self)@.room() >= old(self)@.room() - TICK_ROOM,
    {
        if let Err(reason) = self.finish_user_rw(ctx.ran, stage, result) {
            return TickProgress::Stopped { reason };
        }
        self.after_action(ctx)
    }

    /// Goes on with a tick after the page operation of a system call.
    pub fn resume_page_call(
        &mut self,
        ctx: TickContext,
        result: Result<(), PagingApplyError>,
    ) -> (progress: TickProgress)
        requires
            old(self).wf(),
            ctx.ran < MAX_TASKS,
            old(self)@.room() >= TICK_ROOM,
        ensures
            final(self).wf(),
            (final(self)@, progress@) == old(self)@.resume_page_call(ctx, result),
            final(self)@.room() >= old(self)@.room() - TICK_ROOM,
    {
        self.finish_page_call(result);
        self.end_tick(ctx)
    }

    /// Takes five frames before the first tick.
    pub fn bootstrap(&mut self)
        requires
            old(self).wf(),
        ensures
            final(self).wf(),
            final(self)@ == old(self)@.bootstrap(),
            final(self)@.room() == old(self)@.room(),
    {
        self.info("KernelState::bootstrap()");
        let ghost m = self@;
        let mut i: usize = 0;
        while i < 5
            invariant
                self.wf(),
                i <= 5,
                self@.take_frames(5 - i) == m.take_frames(5),
                self@.room() == old(self)@.room(),
                m == old(self)@.info("KernelState::bootstrap()"),
            decreases 5 - i,
        {
            if !self.take_frame(
                "allocated usable frame (bootstrap)",
                "no more frames in bootstrap",
            ) {
                return;
            }
            i += 1;
        }
    }
}

fn mailbox_decode(sysno: u64, a0: u64, a1: u64) -> (sc: Option<Syscall>)
    ensures
        sc == spec_mailbox_decode(sysno, a0, a1),
{
    let ep = EndpointId(a0 as usize);
    match sysno {
        10 => Some(Syscall::IpcRecv { ep }),
        11 => Some(Syscall::IpcSend { ep, msg: a1 }),
        12 => Some(Syscall::IpcReply { ep, msg: a1 }),
        _ => None,
    }
}

/// Serves a call of a program in user mode through the mailbox.
pub fn mailbox_dispatch(ks: &mut KernelState, sysno: u64, a0: u64, a1: u64, a2: u64) -> (reply:
    MailboxReply)
    requires
        old(ks).wf(),
        old(ks)@.room() >= TICK_ROOM,
    ensures
        final(ks).wf(),
        (final(ks)@, reply@) == old(ks)@.mailbox(sysno, a0, a1, a2),
        final(ks)@.room() >= old(ks)@.room() - TICK_ROOM,
{
    match sysno {
        1 => {
            return MailboxReply::Ret { value: a0.wrapping_add(a1).wrapping_add(a2) };
        },
        2 => {
            return MailboxReply::Ret { value: ks.tick_count() };
        },
        30 => {
            return MailboxReply::Tick { progress: ks.tick() };
        },
        31 => {
            let t = ks.task(TASK1_INDEX);
            ks.put_task(TASK1_INDEX, Task { last_reply: None, ..t });
            let value: u64 = match t.last_reply {
                Some(v) => v,
                None => 0,
            };
            return MailboxReply::Ret { value };
        },
        _ => {},
    }
    if let Some(sc) = mailbox_decode(sysno, a0, a1) {
        if ks.task(TASK1_INDEX).state != TaskState::Dead {
            ks.set_current(TASK1_INDEX);
        }
        let tid = ks.task(ks.current_task()).id;
        ks.push_event(LogEvent::SyscallIssued { task: tid });
        if let Err(reason) = ks.handle_syscall(sc) {
            return MailboxReply::Stopped { reason };
        }
    }
    MailboxReply::Ret { value: 0 }
}

} // verus!
