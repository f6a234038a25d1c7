//! Ticks and system calls keep the kernel consistent: the self-check at the end of a tick
//! never finds anything, and the kernel never stops of its own.

use vstd::prelude::*;

use crate::arch::paging::{PageFaultInfo, PagingApplyError};
use crate::kernel::demo::ipc_faults::DEAD_PARTNER_CODE;
use crate::kernel::laws::consistency::{
    calm, dead_kept, in_user_slot, is_user, kernel_kept, law_consistent_kernel_has_no_violations,
    lemma_same_endpoint, USER_PAGES,
};
use crate::kernel::laws::death::law_kill_keeps_consistent;
use crate::kernel::laws::messages::{
    law_recv_keeps_consistent, law_reply_keeps_consistent, law_send_keeps_consistent,
    lemma_same_places,
};
use crate::kernel::laws::scheduling::{law_schedule_makes_consistent, lemma_woken};
use crate::kernel::mem_demo::{spec_demo_page, spec_kernel_flags, DemoRequest, UserRw};
use crate::kernel::model::{initial_kernel, KernelView};
use crate::kernel::syscall::{PageRequest, Syscall};
use crate::kernel::tick::{TickContext, TickOutcome};
use crate::kernel::trace::IpcSyscallKind;
use crate::kernel::types::{
    spec_next_activity_and_action, EndpointId, FailStopReason, InjectionState, KernelAction,
    KernelFeatures, LogEvent, LogLine, Task, TaskId, TaskKillReason, TaskState, MAX_TASKS,
};
use crate::mem::addr::{PhysFrame, VirtPage};
use crate::mem::address_space::{
    law_apply_keeps_wf, lemma_maps, slot_free, slot_maps, AddressSpaceView,
};
use crate::mem::paging::{MemAction, PageFlags};
use crate::seqs::{first_such, lemma_first_such};

verus! {

/// The kernel task's memory demo: its page is mapped exactly when the kernel thinks so, and
/// nothing else is mapped in the kernel's address space.
pub open spec fn kernel_demo_is(m: KernelView, mapped: bool) -> bool {
    let s = m.spaces[0];
    &&& forall|j: int|
        0 <= j < s.slots.len() && (#[trigger] s.slots[j]) is Some ==> s.slots[j]->0.page
            == spec_demo_page(0)
    &&& s.maps(spec_demo_page(0)) == mapped
}

/// A kernel that can run for ever: it is consistent, its memory demo is in order, and it
/// reschedules when a task blocks.
pub open spec fn healthy(m: KernelView) -> bool {
    &&& m.consistent()
    &&& kernel_demo_is(m, m.mem_demo_mapped[0])
    &&& !m.features.ring3_mailbox
}

/// A page operation keeps the user pages of an address space in the user slot.
proof fn lemma_apply_in_user_slot(s: AddressSpaceView, action: MemAction)
    requires
        s.wf(),
        in_user_slot(s),
        action matches MemAction::MapPage { page, .. } ==> page.number < USER_PAGES,
    ensures
        in_user_slot(s.apply(action)),
        s.apply(action).wf(),
{
    law_apply_keeps_wf(s, action);
    lemma_first_such(s.slots, slot_free());
    match action {
        MemAction::MapPage { page, .. } => {
            lemma_first_such(s.slots, slot_maps(page));
        },
        MemAction::Unmap { page } => {
            lemma_first_such(s.slots, slot_maps(page));
        },
    }
}

/// A page operation of the current task in its own address space keeps the kernel
/// consistent.
proof fn lemma_page_operation(m: KernelView, action: MemAction)
    requires
        m.consistent(),
        action matches MemAction::MapPage { page, .. } ==> page.number < USER_PAGES,
    ensures
        m.page_operation(m.current as int, action).0.consistent(),
        m.page_operation(m.current as int, action).0.current == m.current,
        m.page_operation(m.current as int, action).0.features == m.features,
        dead_kept(m, m.page_operation(m.current as int, action).0),
        is_user(m.current) ==> kernel_kept(m, m.page_operation(m.current as int, action).0),
{
    let c = m.current as int;
    let n = m.page_operation(c, action).0;
    law_apply_keeps_wf(m.spaces[c], action);
    if is_user(m.current) {
        lemma_apply_in_user_slot(m.spaces[c], action);
    }
    lemma_same_endpoint(m, n, 0);
    lemma_same_endpoint(m, n, 1);
    assert(n.ready_ok());
}

/// A step of the current task that changes nothing of the kernel's own.
spec fn own_step(m: KernelView, n: KernelView) -> bool {
    &&& n.consistent()
    &&& n.current == m.current
    &&& n.features == m.features
    &&& dead_kept(m, n)
    &&& is_user(m.current) ==> kernel_kept(m, n)
}

proof fn lemma_page_map(m: KernelView, page: VirtPage, flags: PageFlags)
    requires
        m.consistent(),
        page.number < USER_PAGES,
    ensures
        own_step(m, m.page_map(m.current, page, flags).0),
{
    let (f, frame) = m.demo_frame(m.current);
    lemma_same_places(m, f);
    match frame {
        Some(frame) => {
            lemma_page_operation(f, MemAction::MapPage { page, frame, flags });
        },
        None => {
            lemma_same_places(f, m.page_map(m.current, page, flags).0);
        },
    }
}

/// A call on pages keeps the kernel consistent, whatever the page table will answer.
proof fn lemma_page_call(m: KernelView, sc: Syscall)
    requires
        m.consistent(),
        sc is PageMap || sc is PageUnmap,
        calm(Some(sc)),
    ensures
        own_step(m, m.syscall(sc).0),
        m.syscall(sc).1 is Ok,
{
    reveal(KernelView::syscall);
    let idx = m.current;
    let l = m.log(LogEvent::SyscallHandled { task: m.tasks[idx as int].id });
    lemma_same_places(m, l);
    let (n, call) = match sc {
        Syscall::PageMap { page, flags } => {
            lemma_page_map(l, page, flags);
            l.page_map(idx, page, flags)
        },
        Syscall::PageUnmap { page } => {
            lemma_page_operation(l, MemAction::Unmap { page });
            l.page_unmap(idx, page)
        },
        _ => (m, arbitrary()),
    };
    lemma_same_places(n, n.settle_page_call(call).0);
}

proof fn lemma_dead_partner(m: KernelView, idx: usize, tid: TaskId, ep: EndpointId)
    requires
        m.consistent(),
        idx < MAX_TASKS,
        tid == m.tasks[idx as int].id,
    ensures
        m.inject_dead_partner(idx, tid, ep).0.consistent(),
        m.inject_dead_partner(idx, tid, ep).1 is Ok,
        kernel_kept(m, m.inject_dead_partner(idx, tid, ep).0),
{
    if m.features.dead_partner_test && tid == TaskId(3) && !m.injected.dead_partner_fired {
        let n = KernelView {
            injected: InjectionState {
                dead_partner_fired: true,
                ..m.injected
            },
            ..m.error(
                "dead_partner_test: kill receiver (DemoInjected) right after IpcRecv",
            ).value("killed_task_id", tid.0).value("ep_id", ep.0 as u64).value(
                "demo_code",
                DEAD_PARTNER_CODE,
            )
        };
        lemma_same_places(m, n);
        assert(idx == 2);
        law_kill_keeps_consistent(
            n,
            idx,
            TaskKillReason::DemoInjected {
                code: DEAD_PARTNER_CODE,
            },
        );
    }
}

/// A system call of the current task keeps the kernel consistent.
pub proof fn law_syscall_keeps_consistent(m: KernelView, sc: Syscall)
    requires
        m.consistent(),
        !m.features.ring3_mailbox,
        calm(Some(sc)),
    ensures
        m.syscall(sc).0.consistent(),
        m.syscall(sc).0.features == m.features,
        dead_kept(m, m.syscall(sc).0),
        is_user(m.current) ==> kernel_kept(m, m.syscall(sc).0),
        m.syscall(sc).1 is Ok,
        m.syscall(sc).1->Ok_0 is Some ==> m.syscall(sc).0.current == m.current,
{
    reveal(KernelView::syscall);
    let idx = m.current;
    let tid = m.tasks[idx as int].id;
    let l = m.log(LogEvent::SyscallHandled { task: tid });
    lemma_same_places(m, l);
    if m.is_kernel_task(idx) && sc.is_ipc() {
        lemma_same_places(m, m.syscall(sc).0);
    } else {
        match sc {
            Syscall::IpcRecv { ep } => {
                let t = l.trace_syscall(IpcSyscallKind::Recv, ep, None);
                lemma_same_places(l, t);
                law_recv_keeps_consistent(t, ep);
                lemma_dead_partner(t.ipc_recv(ep), idx, tid, ep);
            },
            Syscall::IpcSend { ep, msg } => {
                let t = l.trace_syscall(IpcSyscallKind::Send, ep, Some(msg));
                lemma_same_places(l, t);
                law_send_keeps_consistent(t, ep, msg);
            },
            Syscall::IpcReply { ep, msg } => {
                let t = l.trace_syscall(IpcSyscallKind::Reply, ep, Some(msg));
                lemma_same_places(l, t);
                law_reply_keeps_consistent(t, ep, msg);
            },
            _ => {
                lemma_page_call(m, sc);
            },
        }
    }
}

/// The system call that the current task has waiting keeps the kernel healthy.
proof fn lemma_pending_syscall(m: KernelView)
    requires
        healthy(m),
    ensures
        healthy(m.pending_syscall().0),
        dead_kept(m, m.pending_syscall().0),
        m.pending_syscall().1 is Ok,
        m.pending_syscall().1->Ok_0 is Some ==> m.pending_syscall().0.current == m.current
            && is_user(m.current),
{
    reveal(KernelView::pending_syscall);
    let t = m.tasks[m.current as int];
    if let Some(sc) = t.pending_syscall {
        assert(is_user(m.current));
        assert(m.user_task_ok(m.current));
        let c = m.put_task(m.current as int, Task { pending_syscall: None, ..t });
        lemma_same_places(m, c);
        let l = c.log(LogEvent::SyscallIssued { task: t.id });
        lemma_same_places(c, l);
        law_syscall_keeps_consistent(l, sc);
    }
}

/// A step of a demo program keeps the kernel healthy.
proof fn lemma_user_step(m: KernelView, idx: usize)
    requires
        healthy(m),
        idx < MAX_TASKS,
    ensures
        healthy(m.user_step(idx)),
        dead_kept(m, m.user_step(idx)),
        m.user_step(idx).current == m.current,
{
    reveal(KernelView::user_step);
    lemma_same_places(m, m.user_step(idx));
}

proof fn lemma_time_slice(m: KernelView, ran: usize)
    requires
        healthy(m),
        ran < MAX_TASKS,
    ensures
        healthy(m.update_time_slice(ran)),
        dead_kept(m, m.update_time_slice(ran)),
{
    let n = m.update_time_slice(ran);
    if m.state(ran) == TaskState::Dead || ran != m.current || m.state(ran)
        != TaskState::Running {
        lemma_same_places(m, n);
    } else {
        let t = m.tasks[ran as int];
        let used = (t.time_slice_used + 1) as u64;
        let u = m.put_task(ran as int, Task { time_slice_used: used, ..t }).value(
            "time_slice_used",
            used,
        );
        lemma_same_places(m, u);
        if used >= m.quantum {
            let e = u.info("quantum expired").log(LogEvent::QuantumExpired(t.id, used));
            lemma_same_places(u, e);
            if e.ready.len() == 0 {
                lemma_same_places(e, n);
            } else {
                let s = e.info("quantum expired; scheduling next task");
                lemma_same_places(e, s);
                law_schedule_makes_consistent(s);
            }
        }
    }
}

proof fn lemma_end_tick(m: KernelView, ctx: TickContext)
    requires
        healthy(m),
        ctx.ran < MAX_TASKS,
    ensures
        healthy(m.end_tick(ctx).0),
        dead_kept(m, m.end_tick(ctx).0),
        m.end_tick(ctx).1 == (TickOutcome::Done { violations: Seq::<LogLine>::empty() }),
{
    let r = m.update_runtime(ctx.ran);
    lemma_same_places(m, r);
    lemma_time_slice(r, ctx.ran);
    let skipped = r.info("skip time_slice update due to task switch in this tick");
    lemma_same_places(r, skipped);
    let s = if ctx.ran == r.current && r.state(ctx.ran) == TaskState::Running {
        r.update_time_slice(ctx.ran)
    } else {
        skipped
    };
    let n = m.end_tick(ctx).0;
    lemma_same_places(s, n);
    law_consistent_kernel_has_no_violations(n);
}

/// How a tick may stand: over and with nothing to report, or waiting for the machine on
/// behalf of the current task.
pub open spec fn tick_well(n: KernelView, outcome: TickOutcome) -> bool {
    match outcome {
        TickOutcome::Halted => healthy(n),
        TickOutcome::Done { violations } => healthy(n) && violations.len() == 0,
        TickOutcome::KernelDemo { ctx, action } => {
            &&& n.consistent()
            &&& !n.features.ring3_mailbox
            &&& ctx.ran == 0
            &&& n.current == 0
            &&& kernel_demo_is(n, !n.mem_demo_mapped[0])
        },
        TickOutcome::UserAccess { ctx, .. } => healthy(n) && n.current == ctx.ran && is_user(
            ctx.ran,
        ),
        TickOutcome::PageCall { ctx, .. } => healthy(n) && n.current == ctx.ran && is_user(
            ctx.ran,
        ),
        TickOutcome::Stopped { .. } => false,
    }
}

proof fn lemma_after_action(m: KernelView, ctx: TickContext)
    requires
        healthy(m),
        ctx.ran < MAX_TASKS,
        ctx.ran == m.current || m.state(ctx.ran) == TaskState::Dead,
    ensures
        tick_well(m.after_action(ctx).0, m.after_action(ctx).1),
        dead_kept(m, m.after_action(ctx).0),
        m.after_action(ctx).1 is Done || m.after_action(ctx).1 is PageCall,
{
    if m.state(ctx.ran) == TaskState::Dead {
        let n = m.after_action(ctx).0;
        lemma_same_places(m, n);
        law_consistent_kernel_has_no_violations(n);
    } else {
        let u = if m.features.ring3_mailbox_loop && ctx.ran == 1 {
            m
        } else {
            m.user_step(ctx.ran)
        };
        lemma_user_step(m, ctx.ran);
        lemma_pending_syscall(u);
        let (n, request) = u.pending_syscall();
        if request == Ok::<Option<PageRequest>, FailStopReason>(None) {
            lemma_end_tick(n, ctx);
        }
    }
}

proof fn lemma_inject(m: KernelView)
    requires
        healthy(m),
    ensures
        healthy(m.inject_mem_fault().0),
        dead_kept(m, m.inject_mem_fault().0),
        m.inject_mem_fault().0.current == m.current,
{
    lemma_same_places(m, m.inject_mem_fault().0);
}

proof fn lemma_user_mem_demo(m: KernelView)
    requires
        healthy(m),
        is_user(m.current),
    ensures
        healthy(m.user_mem_demo().0),
        dead_kept(m, m.user_mem_demo().0),
        m.user_mem_demo().0.current == m.current,
        !(m.user_mem_demo().1 is Apply),
        !(m.user_mem_demo().1 is Stop),
{
    lemma_same_places(m, m.user_mem_demo().0);
}

/// One page at most is mapped in the kernel's address space, so there is room.
proof fn lemma_room_for_demo(m: KernelView)
    requires
        healthy(m),
    ensures
        !m.spaces[0].full(),
{
    let s = m.spaces[0];
    lemma_first_such(s.slots, slot_free());
    if s.full() {
        assert(!slot_free()(s.slots[0]));
        assert(!slot_free()(s.slots[1]));
    }
}

proof fn lemma_kernel_mem_demo(m: KernelView)
    requires
        healthy(m),
        m.current == 0,
    ensures
        ({
            let (n, request) = m.kernel_mem_demo();
            &&& n.consistent()
            &&& dead_kept(m, n)
            &&& n.current == 0
            &&& n.features == m.features
            &&& match request {
                DemoRequest::Nothing => healthy(n),
                DemoRequest::Apply { action } => kernel_demo_is(n, !n.mem_demo_mapped[0]),
                DemoRequest::Access { .. } => false,
                DemoRequest::Stop { .. } => false,
            }
        }),
{
    let (n, request) = m.kernel_mem_demo();
    let page = spec_demo_page(0);
    let s = m.spaces[0];
    let (f, frame) = m.demo_frame(0);
    lemma_same_places(m, f);
    lemma_maps(s, page);
    lemma_first_such(s.slots, slot_free());
    lemma_first_such(s.slots, slot_maps(page));
    lemma_room_for_demo(m);
    if m.mem_demo_mapped[0] {
        let action = MemAction::Unmap { page };
        law_apply_keeps_wf(s, action);
        lemma_maps(s.apply(action), page);
        lemma_same_endpoint(m, n, 0);
        lemma_same_endpoint(m, n, 1);
        assert(n.ready_ok());
        let k = first_such(s.slots, slot_maps(page))->0;
        assert forall|j: int| 0 <= j < s.slots.len() && j != k implies s.slots[j] is None by {
            if s.slots[j] is Some {
                assert(s.slots[j]->0.page == s.slots[k]->0.page);
            }
        }
        assert(kernel_demo_is(n, false));
    } else if frame is None {
        lemma_same_places(m, n);
    } else {
        let action = MemAction::MapPage {
            page,
            frame: frame->0,
            flags: spec_kernel_flags(),
        };
        law_apply_keeps_wf(s, action);
        lemma_maps(s.apply(action), page);
        lemma_same_endpoint(f, n, 0);
        lemma_same_endpoint(f, n, 1);
        assert(n.ready_ok());
        let k = first_such(s.slots, slot_free())->0;
        assert(s.apply(action).slots[k] is Some);
        assert(kernel_demo_is(n, true));
    }
}

proof fn lemma_mem_demo(m: KernelView)
    requires
        healthy(m),
    ensures
        ({
            let (n, request) = m.mem_demo();
            &&& n.current == m.current
            &&& dead_kept(m, n)
            &&& match request {
                DemoRequest::Nothing => healthy(n),
                DemoRequest::Apply { action } => {
                    &&& n.consistent()
                    &&& !n.features.ring3_mailbox
                    &&& n.current == 0
                    &&& kernel_demo_is(n, !n.mem_demo_mapped[0])
                },
                DemoRequest::Access { .. } => healthy(n) && is_user(n.current),
                DemoRequest::Stop { .. } => false,
            }
        }),
{
    reveal(KernelView::mem_demo);
    lemma_inject(m);
    let (n, skip) = m.inject_mem_fault();
    if !skip {
        let p = n.with_demo_frame();
        lemma_same_places(n, p);
        if n.current != 0 {
            lemma_user_mem_demo(p);
        } else {
            lemma_room_for_demo(p);
            lemma_kernel_mem_demo(p);
        }
    }
}

proof fn lemma_wake_sleeper(m: KernelView)
    requires
        healthy(m),
    ensures
        healthy(m.wake_one_sleeper()),
        dead_kept(m, m.wake_one_sleeper()),
        m.wake_one_sleeper().current == m.current,
{
    lemma_woken(m);
    let n = m.wake_one_sleeper();
    if m.waiting.len() > 0 {
        assert(n.spaces[0] == m.spaces[0]);
        assert(n.state(n.current) == TaskState::Running);
    }
}

proof fn lemma_update_timer(m: KernelView)
    requires
        healthy(m),
    ensures
        healthy(m.update_timer()),
        dead_kept(m, m.update_timer()),
        m.update_timer().current == m.current,
{
    let now = (m.time_ticks + 1) as u64;
    let t = KernelView { time_ticks: now, ..m }.value("time_ticks", now).log(
        LogEvent::TimerUpdated(now),
    );
    lemma_same_places(m, t);
    lemma_wake_sleeper(t);
}

/// A tick keeps a healthy kernel healthy, and the dead as they are. Where it is over, the
/// self-check has found nothing.
pub proof fn law_tick_keeps_healthy(m: KernelView)
    requires
        healthy(m),
    ensures
        tick_well(m.tick().0, m.tick().1),
        dead_kept(m, m.tick().0),
{
    reveal(KernelView::tick);
    if !m.should_halt {
        let b = m.begin_tick();
        lemma_same_places(m, b);
        let (next_activity, action) = spec_next_activity_and_action(m.activity);
        let ctx = TickContext { ran: m.current, next_activity };
        match action {
            KernelAction::Nothing => {
                let t = b.info("action = None");
                lemma_same_places(b, t);
                lemma_after_action(t, ctx);
            },
            KernelAction::UpdateTimer => {
                let t = b.info("action = UpdateTimer");
                lemma_same_places(b, t);
                lemma_update_timer(t);
                lemma_after_action(t.update_timer(), ctx);
            },
            KernelAction::AllocateFrame => {
                let f = b.info("action = AllocateFrame").take_frame(
                    "allocated usable frame (tick)",
                    "no more usable frames; halting later",
                );
                lemma_same_places(b, f);
                lemma_after_action(f, ctx);
            },
            KernelAction::MemDemo => {
                let t = b.info("action = MemDemo");
                lemma_same_places(b, t);
                if m.features.ring3_mailbox_loop {
                    let s = t.info("mem_demo skipped (ring3_mailbox_loop)");
                    lemma_same_places(t, s);
                    lemma_after_action(s, ctx);
                } else {
                    lemma_mem_demo(t);
                    let (d, request) = t.mem_demo();
                    if request is Nothing {
                        lemma_after_action(d, ctx);
                    }
                }
            },
        }
    }
}

/// A tick that goes on after the kernel's page operation was performed keeps the kernel
/// healthy.
pub proof fn law_resume_kernel_demo_keeps_healthy(
    m: KernelView,
    ctx: TickContext,
    action: MemAction,
)
    requires
        tick_well(m, TickOutcome::KernelDemo { ctx, action }),
    ensures
        tick_well(
            m.resume_kernel_demo(ctx, action, Ok(())).0,
            m.resume_kernel_demo(ctx, action, Ok(())).1,
        ),
        dead_kept(m, m.resume_kernel_demo(ctx, action, Ok(())).0),
{
    let f = m.finish_kernel_demo(ctx.ran, action);
    lemma_same_places(m, f);
    lemma_after_action(f, ctx);
}

/// A tick that goes on after an access to user memory keeps the kernel healthy, whatever
/// came of the access.
pub proof fn law_resume_user_access_keeps_healthy(
    m: KernelView,
    ctx: TickContext,
    stage: u8,
    rw: UserRw,
    result: Result<u64, PageFaultInfo>,
)
    requires
        tick_well(m, TickOutcome::UserAccess { ctx, stage, rw }),
    ensures
        tick_well(
            m.resume_user_access(ctx, stage, result).0,
            m.resume_user_access(ctx, stage, result).1,
        ),
        dead_kept(m, m.resume_user_access(ctx, stage, result).0),
{
    let f = m.finish_user_rw(ctx.ran, stage, result).0;
    match result {
        Ok(_) => {
            lemma_same_places(m, f);
        },
        Err(pf) => {
            if m.features.pf_demo {
                let reason = TaskKillReason::UserPageFault {
                    addr: pf.addr,
                    err: pf.err,
                    rip: pf.rip,
                };
                let s = m.say_user_fault(pf);
                lemma_same_places(m, s);
                law_kill_keeps_consistent(s, m.current, reason);
                lemma_same_places(s.kill(m.current, reason), f);
            } else {
                lemma_same_places(m, f);
            }
        },
    }
    lemma_after_action(f, ctx);
}

/// A tick that goes on after the page operation of a system call keeps the kernel healthy,
/// whether the page table accepted it or not.
pub proof fn law_resume_page_call_keeps_healthy(
    m: KernelView,
    ctx: TickContext,
    request: PageRequest,
    result: Result<(), PagingApplyError>,
)
    requires
        tick_well(m, TickOutcome::PageCall { ctx, request }),
    ensures
        tick_well(m.resume_page_call(ctx, result).0, m.resume_page_call(ctx, result).1),
        dead_kept(m, m.resume_page_call(ctx, result).0),
{
    let f = m.finish_page_call(result);
    lemma_same_places(m, f);
    lemma_end_tick(f, ctx);
}

/// The kernel starts healthy, if there are frames for the roots of both user tasks.
pub proof fn law_kernel_starts_healthy(
    frames: Seq<u64>,
    kernel_root: PhysFrame,
    features: KernelFeatures,
)
    requires
        frames.len() >= 2,
        !features.ring3_mailbox,
    ensures
        healthy(initial_kernel(frames, kernel_root, features)),
{
    let m = initial_kernel(frames, kernel_root, features);
    assert(m.ready.no_duplicates());
    assert forall|i: usize| #[trigger]
        m.ready.contains(i) <==> is_user(i) && m.state(i) == TaskState::Ready by {
        assert(m.ready[0] == 1 && m.ready[1] == 2);
    }
    assert(m.endpoint_ok(0));
    assert(m.endpoint_ok(1));
    assert(m.shape_ok());
    lemma_maps(m.spaces[0], spec_demo_page(0));
}

proof fn lemma_take_frames(m: KernelView, n: int)
    requires
        healthy(m),
    ensures
        healthy(m.take_frames(n)),
    decreases n,
{
    if n > 0 {
        let f = m.take_frame("allocated usable frame (bootstrap)", "no more frames in bootstrap");
        lemma_same_places(m, f);
        lemma_take_frames(f, n - 1);
    }
}

/// Taking the frames of the bootstrap keeps the kernel healthy.
pub proof fn law_bootstrap_keeps_healthy(m: KernelView)
    requires
        healthy(m),
    ensures
        healthy(m.bootstrap()),
{
    let b = m.info("KernelState::bootstrap()");
    lemma_same_places(m, b);
    lemma_take_frames(b, 5);
}

} // verus!
