//! What a tick does to the clocks and to the turn of activities, whatever else happens in it.

use vstd::prelude::*;

use crate::arch::paging::PagingApplyError;
use crate::kernel::demo::ipc_faults::DEAD_PARTNER_CODE;
use crate::kernel::endpoint::EndpointView;
use crate::kernel::ipc::IPC_ERR_DEAD_PARTNER;
use crate::kernel::mem_demo::DemoRequest;
use crate::kernel::model::KernelView;
use crate::kernel::sched::lemma_show_ready_queue;
use crate::kernel::syscall::Syscall;
use crate::kernel::tick::{TickContext, TickOutcome};
use crate::kernel::trace::{IpcPathEvent, IpcSyscallKind};
use crate::kernel::types::{
    BlockedReason, DemoProgress, Effect, EndpointId, InjectionState, KernelActivity,
    KernelCounters, LogEvent, Task, TaskId, TaskKillReason, TaskState, MAX_TASKS, TASK1_INDEX,
};
use crate::mem::addr::VirtPage;
use crate::mem::address_space::AddressSpaceKind;
use crate::mem::paging::{MemAction, PageFlags};
use crate::seqs::{other_than, swap_remove};

verus! {

/// The clocks stand where they stood, the activity and the features are the same.
pub open spec fn clocks_kept(m: KernelView, n: KernelView) -> bool {
    &&& n.tick_count == m.tick_count
    &&& n.time_ticks == m.time_ticks
    &&& n.activity == m.activity
    &&& n.quantum == m.quantum
    &&& n.features == m.features
}

#[verifier::rlimit(40)]
proof fn lemma_schedule_keeps(m: KernelView)
    ensures
        clocks_kept(m, m.schedule()),
{
    reveal(KernelView::schedule);
    let e = m.emit(
        Effect::SetVga {
            enabled: m.space_of(m.current).kind == AddressSpaceKind::Kernel,
        },
    ).compact_ready().yield_current();
    assert(clocks_kept(m, e));
    let w = if e.waiting.len() > 0 {
        e.info(
            "schedule_next_task: no ready tasks; try wake sleep waiter",
        ).wake_one_sleeper().compact_ready()
    } else {
        e
    };
    assert(clocks_kept(m, w));
    lemma_show_ready_queue(e);
    lemma_show_ready_queue(w);
    lemma_run_keeps(e.show_ready_queue(), m.current);
    lemma_run_keeps(w.show_ready_queue(), m.current);
}

proof fn lemma_run_keeps(m: KernelView, prev: usize)
    ensures
        clocks_kept(m, m.run_next(prev)),
{
}

#[verifier::rlimit(40)]
proof fn lemma_drop_senders_keeps(m: KernelView, ep: EndpointId)
    ensures
        clocks_kept(m, m.drop_broken_senders(ep)),
    decreases m.endpoints[ep.0 as int].send_queue.len(),
{
    let e = m.endpoints[ep.0 as int];
    if e.send_queue.len() == 0 || m.waits_to_send(ep)(e.send_queue.last()) || ep.0
        >= m.endpoints.len() {
    } else {
        let n = m.put_endpoint(
            ep.0 as int,
            EndpointView { send_queue: e.send_queue.drop_last(), ..e },
        ).say_broken_sender(e.send_queue.last(), ep).rescue(
            e.send_queue.last(),
            IPC_ERR_DEAD_PARTNER,
        );
        assert(n.endpoints[ep.0 as int].send_queue == e.send_queue.drop_last());
        lemma_drop_senders_keeps(n, ep);
    }
}

proof fn lemma_rescue_all_keeps(m: KernelView, waiters: Seq<usize>, err: u64)
    ensures
        clocks_kept(m, m.rescue_all(waiters, err)),
    decreases waiters.len(),
{
    if waiters.len() > 0 {
        lemma_rescue_all_keeps(m, waiters.drop_last(), err);
    }
}

#[verifier::rlimit(40)]
proof fn lemma_recv_keeps(m: KernelView, ep: EndpointId)
    ensures
        clocks_kept(m, m.ipc_recv(ep)),
{
    reveal(KernelView::ipc_recv);
    let c = m.current;
    let l = m.log(
        LogEvent::IpcRecvCalled { task: m.tasks[c as int].id, ep },
    );
    lemma_drop_senders_keeps(l, ep);
    let (f, taken) = l.recv_fast(ep, c);
    assert(clocks_kept(m, f));
    lemma_recv_slow_keeps(f, ep, c);
}

proof fn lemma_recv_slow_keeps(m: KernelView, ep: EndpointId, recv: usize)
    ensures
        clocks_kept(m, m.recv_slow(ep, recv)),
{
    let t = m.tasks[recv as int];
    let c = m.counters;
    let b = m.put_counters(
        KernelCounters {
            ipc_recv_slow: (c.ipc_recv_slow + 1) as u64,
            ..c
        },
    ).emit(
        Effect::IpcPath {
            event: IpcPathEvent::RecvSlow,
        },
    ).block(recv, BlockedReason::IpcRecv { ep });
    let w = b.put_endpoint(
        ep.0 as int,
        EndpointView {
            recv_waiter: Some(recv),
            ..b.endpoints[ep.0 as int]
        },
    ).log(LogEvent::IpcRecvBlocked { task: t.id, ep });
    lemma_schedule_keeps(w);
}

proof fn lemma_leave_keeps(m: KernelView, event: IpcPathEvent)
    ensures
        clocks_kept(m, m.leave_sender(event)),
{
    lemma_schedule_keeps(m);
}

#[verifier::rlimit(40)]
proof fn lemma_send_fast_keeps(m: KernelView, ep: EndpointId, msg: u64)
    ensures
        clocks_kept(m, m.send_fast(ep, msg).0),
{
    if let Some(recv) = m.receiver_at(ep) {
        let send = m.current;
        let e = m.endpoints[ep.0 as int];
        let woken = m.put_endpoint(ep.0 as int, EndpointView { recv_waiter: None, ..e }).wake(recv);
        let d = woken.put_task(
            recv as int,
            Task { last_msg: Some(msg), ..woken.tasks[recv as int] },
        );
        let w = d.await_reply(ep, send, m.tasks[recv as int].id).count_delivery(ep, recv);
        assert(clocks_kept(m, w));
        let c = w.counters;
        let l = w.put_counters(
            KernelCounters { ipc_send_fast: (c.ipc_send_fast + 1) as u64, ..c },
        ).emit(Effect::IpcPath { event: IpcPathEvent::SendFast }).log(
            LogEvent::IpcDelivered {
                from: m.tasks[send as int].id,
                to: m.tasks[recv as int].id,
                ep,
                msg,
            },
        );
        lemma_leave_keeps(l, IpcPathEvent::SendFast);
    }
}

#[verifier::rlimit(40)]
proof fn lemma_send_slow_keeps(m: KernelView, ep: EndpointId, msg: u64)
    ensures
        clocks_kept(m, m.send_slow(ep, msg)),
{
    let send = m.current;
    let t = m.tasks[send as int];
    let e = m.endpoints[ep.0 as int];
    let c = m.counters;
    let w = m.put_counters(
        KernelCounters { ipc_send_slow: (c.ipc_send_slow + 1) as u64, ..c },
    ).emit(Effect::IpcPath { event: IpcPathEvent::SendSlow }).put_endpoint(
        ep.0 as int,
        e.enqueue_sender(send),
    ).put_task(send as int, Task { pending_send_msg: Some(msg), ..t }).block(
        send,
        BlockedReason::IpcSend { ep },
    ).log(LogEvent::IpcSendBlocked { task: t.id, ep });
    lemma_leave_keeps(w, IpcPathEvent::SendSlow);
}

proof fn lemma_send_keeps(m: KernelView, ep: EndpointId, msg: u64)
    ensures
        clocks_kept(m, m.ipc_send(ep, msg)),
{
    reveal(KernelView::ipc_send);
    let l = m.log(LogEvent::IpcSendCalled { task: m.tasks[m.current as int].id, ep, msg });
    lemma_send_fast_keeps(l, ep, msg);
    lemma_send_slow_keeps(l.send_fast(ep, msg).0, ep, msg);
}

#[verifier::rlimit(40)]
proof fn lemma_reply_keeps(m: KernelView, ep: EndpointId, msg: u64)
    ensures
        clocks_kept(m, m.ipc_reply(ep, msg)),
{
    reveal(KernelView::ipc_reply);
    let e = m.endpoints[ep.0 as int];
    let p = m.put_endpoint(
        ep.0 as int,
        EndpointView { reply_queue: e.reply_queue.filter(m.waits_for_any_reply(ep)), ..e },
    );
    lemma_rescue_all_keeps(
        p,
        e.reply_queue.filter(m.broken_reply_entry(ep)),
        IPC_ERR_DEAD_PARTNER,
    );
    let id = m.tasks[m.current as int].id;
    assert(clocks_kept(m, m.sweep_reply_queue(ep)));
    assert(clocks_kept(m, m.take_reply_waiter(ep, id).0));
}

proof fn lemma_close_rescue_keeps(m: KernelView, waiters: Seq<usize>, drop_message: bool)
    ensures
        clocks_kept(m, m.rescue_all_at_close(waiters, drop_message)),
    decreases waiters.len(),
{
    if waiters.len() > 0 {
        lemma_close_rescue_keeps(
            m.rescue_at_close(waiters.last(), drop_message),
            waiters.drop_last(),
            drop_message,
        );
    }
}

proof fn lemma_close_keeps(m: KernelView, ep: EndpointId)
    ensures
        clocks_kept(m, m.close_endpoint(ep)),
{
    reveal(KernelView::close_endpoint);
    let e = m.endpoints[ep.0 as int];
    let c = m.put_endpoint(ep.0 as int, e.closed()).error(
        "ipc: endpoint CLOSED; rescuing waiters",
    ).value("ep_id", ep.0 as u64);
    let r = match e.recv_waiter {
        Some(idx) => c.rescue_at_close(idx, false),
        None => c,
    };
    lemma_close_rescue_keeps(r, e.send_queue, true);
    lemma_close_rescue_keeps(r.rescue_all_at_close(e.send_queue, true), e.reply_queue, false);
}

#[verifier::rlimit(40)]
proof fn lemma_release_from_keeps(
    m: KernelView,
    i: int,
    pos: int,
    dead: TaskId,
    woken: Seq<usize>,
)
    ensures
        clocks_kept(m, m.release_from(i, pos, dead, woken).0),
    decreases m.endpoints[i].reply_queue.len() - pos,
{
    if i < 0 || i >= m.endpoints.len() || pos < 0 || pos >= m.endpoints[i].reply_queue.len() {
    } else {
        let e = m.endpoints[i];
        let w = e.reply_queue[pos];
        if m.blocked_on_reply(w, e.id, dead) {
            let n = m.put_endpoint(
                i,
                EndpointView { reply_queue: swap_remove(e.reply_queue, pos), ..e },
            ).put_task(
                w as int,
                Task {
                    blocked_reason: None,
                    last_reply: Some(IPC_ERR_DEAD_PARTNER),
                    ..m.tasks[w as int]
                },
            ).say_released(m.tasks[w as int].id, dead);
            assert(n.endpoints[i].reply_queue == swap_remove(e.reply_queue, pos));
            lemma_release_from_keeps(
                n,
                i,
                pos,
                dead,
                if woken.len() < MAX_TASKS {
                    woken.push(w)
                } else {
                    woken
                },
            );
        } else {
            lemma_release_from_keeps(m, i, pos + 1, dead, woken);
        }
    }
}

proof fn lemma_wake_all_keeps(m: KernelView, list: Seq<usize>)
    ensures
        clocks_kept(m, m.wake_all(list)),
    decreases list.len(),
{
    if list.len() > 0 {
        lemma_wake_all_keeps(m, list.drop_last());
    }
}

proof fn lemma_release_keeps(m: KernelView, dead: TaskId)
    ensures
        clocks_kept(m, m.release_reply_waiters(dead)),
{
    reveal(KernelView::release_reply_waiters);
    lemma_release_from_keeps(m, 0, 0, dead, Seq::empty());
    let (a, woken) = m.release_from(0, 0, dead, Seq::empty());
    lemma_release_from_keeps(a, 1, 0, dead, woken);
    let (b, all) = a.release_from(1, 0, dead, woken);
    lemma_wake_all_keeps(b, all);
}

proof fn lemma_drop_mappings_keeps(m: KernelView, as_idx: usize)
    ensures
        clocks_kept(m, m.drop_user_mappings(as_idx)),
{
}

#[verifier::rlimit(40)]
proof fn lemma_bury_keeps(m: KernelView, idx: usize)
    ensures
        clocks_kept(m, m.bury(idx)),
{
    reveal(KernelView::bury);
    let b = KernelView {
        ready: m.ready.filter(other_than(idx)),
        ..m
    }.dequeue_wait(idx).forget_waiter(idx).put_task(
        idx as int,
        m.tasks[idx as int].made_dead(),
    );
    assert(clocks_kept(m, b));
    let d = KernelView {
        mem_demo_stage: b.mem_demo_stage.update(idx as int, 0),
        mem_demo_mapped: b.mem_demo_mapped.update(idx as int, false),
        mem_demo_frame: b.mem_demo_frame.update(idx as int, None),
        demo: DemoProgress { early_sent_by_task0: false, ..b.demo },
        ..b
    };
    lemma_drop_mappings_keeps(d, m.tasks[idx as int].address_space_id.0);
}

proof fn lemma_kill_keeps(m: KernelView, idx: usize, reason: TaskKillReason)
    ensures
        clocks_kept(m, m.kill(idx, reason)),
{
    reveal(KernelView::kill);
    let id = m.tasks[idx as int].id;
    let b = m.count_kill(reason).bury(idx);
    lemma_bury_keeps(m.count_kill(reason), idx);
    lemma_close_keeps(b, b.endpoints[0].id);
    let f = if b.endpoints[0].owner == Some(id) {
        b.close_endpoint(b.endpoints[0].id)
    } else {
        b
    };
    lemma_close_keeps(f, b.endpoints[1].id);
    let g = b.close_endpoints_of(id);
    lemma_release_keeps(g, id);
    let k = g.release_reply_waiters(id).log(LogEvent::TaskKilled { task: id, reason }).log(
        LogEvent::TaskStateChanged(id, TaskState::Dead),
    );
    lemma_schedule_keeps(k);
}

proof fn lemma_inject_keeps(m: KernelView, idx: usize, tid: TaskId, ep: EndpointId)
    ensures
        clocks_kept(m, m.inject_dead_partner(idx, tid, ep).0),
{
    let k = KernelView {
        injected: InjectionState { dead_partner_fired: true, ..m.injected },
        ..m.error(
            "dead_partner_test: kill receiver (DemoInjected) right after IpcRecv",
        ).value("killed_task_id", tid.0).value("ep_id", ep.0 as u64).value(
            "demo_code",
            DEAD_PARTNER_CODE,
        )
    };
    lemma_kill_keeps(k, idx, TaskKillReason::DemoInjected { code: DEAD_PARTNER_CODE });
}

#[verifier::rlimit(40)]
proof fn lemma_page_calls_keep(m: KernelView, idx: usize, page: VirtPage, flags: PageFlags)
    ensures
        clocks_kept(m, m.page_map(idx, page, flags).0),
        clocks_kept(m, m.page_unmap(idx, page).0),
{
}

#[verifier::rlimit(40)]
proof fn lemma_syscall_keeps(m: KernelView, sc: Syscall)
    ensures
        clocks_kept(m, m.syscall(sc).0),
{
    reveal(KernelView::syscall);
    let idx = m.current;
    let tid = m.tasks[idx as int].id;
    let l = m.log(LogEvent::SyscallHandled { task: tid });
    match sc {
        Syscall::IpcRecv { ep } => {
            let t = l.trace_syscall(IpcSyscallKind::Recv, ep, None);
            lemma_recv_keeps(t, ep);
            lemma_inject_keeps(t.ipc_recv(ep), idx, tid, ep);
        },
        Syscall::IpcSend { ep, msg } => {
            lemma_send_keeps(l.trace_syscall(IpcSyscallKind::Send, ep, Some(msg)), ep, msg);
        },
        Syscall::IpcReply { ep, msg } => {
            lemma_reply_keeps(l.trace_syscall(IpcSyscallKind::Reply, ep, Some(msg)), ep, msg);
        },
        Syscall::PageMap { page, flags } => {
            lemma_page_calls_keep(l, idx, page, flags);
        },
        Syscall::PageUnmap { page } => {
            lemma_page_calls_keep(l, idx, page, PageFlags::present());
        },
    }
}

proof fn lemma_pending_keeps(m: KernelView)
    ensures
        clocks_kept(m, m.pending_syscall().0),
{
    reveal(KernelView::pending_syscall);
    let t = m.tasks[m.current as int];
    let p = m.put_task(m.current as int, Task { pending_syscall: None, ..t });
    if let Some(sc) = t.pending_syscall {
        lemma_syscall_keeps(p.log(LogEvent::SyscallIssued { task: t.id }), sc);
    }
}

#[verifier::rlimit(40)]
proof fn lemma_step_keeps(m: KernelView, idx: usize)
    ensures
        clocks_kept(m, m.user_step(idx)),
{
    reveal(KernelView::user_step);
}

#[verifier::rlimit(40)]
proof fn lemma_kernel_turn_keeps(m: KernelView)
    ensures
        clocks_kept(m, m.kernel_mem_demo().0),
{
}

#[verifier::rlimit(40)]
proof fn lemma_user_turn_keeps(m: KernelView)
    ensures
        clocks_kept(m, m.user_mem_demo().0),
{
}

#[verifier::rlimit(40)]
proof fn lemma_mem_demo_keeps(m: KernelView)
    ensures
        clocks_kept(m, m.mem_demo().0),
{
    reveal(KernelView::mem_demo);
    let (f, skip) = m.inject_mem_fault();
    assert(clocks_kept(m, f));
    let p = f.with_demo_frame();
    assert(clocks_kept(m, p));
    lemma_user_turn_keeps(p);
    lemma_kernel_turn_keeps(p);
}

#[verifier::rlimit(40)]
proof fn lemma_end_keeps(m: KernelView, ctx: TickContext)
    ensures
        clocks_kept(KernelView { activity: ctx.next_activity, ..m }, m.end_tick(ctx).0),
        clocks_kept(KernelView { activity: ctx.next_activity, ..m }, m.end_tick_of_the_dead(ctx).0),
        m.end_tick(ctx).1 is Done,
        m.end_tick_of_the_dead(ctx).1 is Done,
{
    let r = m.update_runtime(ctx.ran);
    lemma_slice_keeps(r, ctx.ran);
    let d = KernelView {
        activity: ctx.next_activity,
        ..m.info("tick: running task died in this tick; skip syscall/runtime/quantum updates")
    };
    lemma_schedule_keeps(
        d.error("tick: current_task not RUNNING at end-of-tick; forcing schedule").value(
            "current_task",
            d.current as u64,
        ),
    );
}

#[verifier::rlimit(40)]
proof fn lemma_slice_keeps(m: KernelView, ran: usize)
    ensures
        clocks_kept(m, m.update_time_slice(ran)),
{
    let t = m.tasks[ran as int];
    let used = (t.time_slice_used + 1) as u64;
    let e = m.put_task(ran as int, Task { time_slice_used: used, ..t }).value(
        "time_slice_used",
        used,
    ).info("quantum expired").log(LogEvent::QuantumExpired(t.id, used));
    lemma_schedule_keeps(e.info("quantum expired; scheduling next task"));
}

/// The tick has come to an end: the clocks stand, and the next activity has its turn.
spec fn ended(m: KernelView, ctx: TickContext, n: KernelView, outcome: TickOutcome) -> bool {
    &&& n.tick_count == m.tick_count
    &&& n.time_ticks == m.time_ticks
    &&& n.quantum == m.quantum
    &&& n.features == m.features
    &&& outcome is Done ==> n.activity == ctx.next_activity
    &&& outcome matches TickOutcome::PageCall { ctx: c, .. } ==> c == ctx
    &&& outcome !is Halted && outcome !is KernelDemo && outcome !is UserAccess
}

#[verifier::rlimit(40)]
proof fn lemma_after_action_ends(m: KernelView, ctx: TickContext)
    ensures
        ended(m, ctx, m.after_action(ctx).0, m.after_action(ctx).1),
{
    lemma_end_keeps(m, ctx);
    lemma_step_keeps(m, ctx.ran);
    let u = if m.features.ring3_mailbox_loop && ctx.ran == TASK1_INDEX {
        m
    } else {
        m.user_step(ctx.ran)
    };
    lemma_end_keeps(u, ctx);
    lemma_pending_keeps(u);
    lemma_end_keeps(u.pending_syscall().0, ctx);
}

/// The activity that follows another.
pub open spec fn following(a: KernelActivity) -> KernelActivity {
    match a {
        KernelActivity::Idle => KernelActivity::UpdatingTimer,
        KernelActivity::UpdatingTimer => KernelActivity::AllocatingFrame,
        KernelActivity::AllocatingFrame => KernelActivity::MappingDemoPage,
        KernelActivity::MappingDemoPage => KernelActivity::Idle,
    }
}

/// What is asked of the machine in the middle of a tick belongs to this tick: it goes on for
/// the task that ran, with the next activity, and what is asked for is what the memory demo
/// wants.
pub open spec fn asks_for_this_tick(m: KernelView, outcome: TickOutcome) -> bool {
    let ctx = TickContext { ran: m.current, next_activity: following(m.activity) };
    let wanted = m.begin_tick().info("action = MemDemo").mem_demo().1;
    match outcome {
        TickOutcome::KernelDemo { ctx: c, action } => c == ctx && wanted == (DemoRequest::Apply {
            action,
        }),
        TickOutcome::UserAccess { ctx: c, stage, rw } => c == ctx && wanted
            == (DemoRequest::Access { stage, rw }),
        TickOutcome::PageCall { ctx: c, .. } => c == ctx,
        _ => true,
    }
}

/// Every tick counts itself, and only the tick whose turn it is to update the timer moves the
/// timer. Whatever happens in a tick, once it is over the next activity has its turn. A kernel
/// that is to halt does not tick.
#[verifier::rlimit(40)]
pub proof fn law_tick_moves_the_clocks(m: KernelView)
    requires
        m.tick_count < u64::MAX,
        m.time_ticks < u64::MAX,
    ensures
        ({
            let (n, outcome) = m.tick();
            &&& m.should_halt ==> n == m && outcome is Halted
            &&& !m.should_halt ==> {
                &&& outcome !is Halted
                &&& n.tick_count == m.tick_count + 1
                &&& n.time_ticks == m.time_ticks + if m.activity == KernelActivity::UpdatingTimer {
                    1int
                } else {
                    0
                }
                &&& n.features == m.features && n.quantum == m.quantum
                &&& outcome is Done ==> n.activity == following(m.activity)
                &&& outcome is KernelDemo || outcome is UserAccess ==> m.activity
                    == KernelActivity::MappingDemoPage
                &&& asks_for_this_tick(m, outcome)
            }
        }),
{
    reveal(KernelView::tick);
    if !m.should_halt {
        let b = m.begin_tick();
        lemma_begun(m);
        let ctx = TickContext { ran: m.current, next_activity: following(m.activity) };
        let t = b.info("action = UpdateTimer").update_timer();
        let f = b.info("action = AllocateFrame").take_frame(
            "allocated usable frame (tick)",
            "no more usable frames; halting later",
        );
        let a = b.info("action = MemDemo");
        match m.activity {
            KernelActivity::Idle => {
                lemma_after_action_ends(b.info("action = None"), ctx);
            },
            KernelActivity::UpdatingTimer => {
                lemma_after_action_ends(t, ctx);
            },
            KernelActivity::AllocatingFrame => {
                lemma_after_action_ends(f, ctx);
            },
            KernelActivity::MappingDemoPage => {
                lemma_after_action_ends(a.info("mem_demo skipped (ring3_mailbox_loop)"), ctx);
                lemma_mem_demo_keeps(a);
                lemma_after_action_ends(a.mem_demo().0, ctx);
            },
        }
    }
}

#[verifier::rlimit(40)]
proof fn lemma_begun(m: KernelView)
    requires
        m.tick_count < u64::MAX,
        m.time_ticks < u64::MAX,
    ensures
        ({
            let b = m.begin_tick();
            let t = b.info("action = UpdateTimer").update_timer();
            &&& b.tick_count == m.tick_count + 1
            &&& b.time_ticks == m.time_ticks
            &&& b.features == m.features
            &&& b.quantum == m.quantum
            &&& t.tick_count == m.tick_count + 1
            &&& t.time_ticks == m.time_ticks + 1
            &&& t.features == m.features
            &&& t.quantum == m.quantum
        }),
{
}

/// A tick that went on after an answer of the machine ends as any other.
#[verifier::rlimit(40)]
pub proof fn law_resumed_tick_ends_in_turn(
    m: KernelView,
    ctx: TickContext,
    action: MemAction,
    result: Result<(), PagingApplyError>,
)
    ensures
        ({
            let (n, outcome) = m.resume_page_call(ctx, result);
            &&& outcome is Done
            &&& n.activity == ctx.next_activity
            &&& n.tick_count == m.tick_count && n.time_ticks == m.time_ticks
        }),
        ({
            let (n, outcome) = m.resume_kernel_demo(ctx, action, result);
            &&& outcome is Done ==> n.activity == ctx.next_activity
            &&& n.tick_count == m.tick_count && n.time_ticks == m.time_ticks
            &&& result is Err ==> outcome is Stopped
        }),
{
    lemma_end_keeps(m.finish_page_call(result), ctx);
    lemma_after_action_ends(m.finish_kernel_demo(ctx.ran, action), ctx);
}

/// At the end of a tick the one who ran is charged for it, and where somebody else is current
/// by then nothing more happens. What the tick reports is what the self-check finds in the
/// kernel as it is left.
#[verifier::rlimit(40)]
pub proof fn law_end_of_tick_charges_who_ran(m: KernelView, ctx: TickContext)
    requires
        m.wf(),
        ctx.ran < MAX_TASKS,
        m.state(ctx.ran) != TaskState::Dead,
        m.tasks[ctx.ran as int].runtime_ticks < u64::MAX,
    ensures
        ({
            let (n, outcome) = m.end_tick(ctx);
            let t = m.tasks[ctx.ran as int];
            &&& outcome == (TickOutcome::Done { violations: n.violations() })
            &&& ctx.ran != m.current || t.state != TaskState::Running ==> n.tasks
                == m.tasks.update(
                ctx.ran as int,
                Task { runtime_ticks: (t.runtime_ticks + 1) as u64, ..t },
            ) && n.current == m.current && n.ready == m.ready
            &&& ctx.ran == m.current && t.state == TaskState::Running && t.time_slice_used + 1
                < m.quantum ==> n.tasks == m.tasks.update(
                ctx.ran as int,
                Task {
                    runtime_ticks: (t.runtime_ticks + 1) as u64,
                    time_slice_used: (t.time_slice_used + 1) as u64,
                    ..t
                },
            ) && n.current == m.current
        }),
{
    let n = m.end_tick(ctx).0;
    let t = m.tasks[ctx.ran as int];
    let r = Task { runtime_ticks: (t.runtime_ticks + 1) as u64, ..t };
    if ctx.ran != m.current || t.state != TaskState::Running {
        assert(n.tasks =~= m.tasks.update(ctx.ran as int, r));
    } else if t.time_slice_used + 1 < m.quantum {
        assert(n.tasks =~= m.tasks.update(
            ctx.ran as int,
            Task { time_slice_used: (t.time_slice_used + 1) as u64, ..r },
        ));
    }
}

} // verus!
