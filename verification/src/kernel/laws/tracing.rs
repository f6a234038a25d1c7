//! Tracing changes nothing but the trace: two kernels that differ in what they trace do
//! the same, step by step.

use vstd::prelude::*;

use crate::arch::paging::{PageFaultInfo, PagingApplyError};
use crate::kernel::demo::ipc_faults::DEAD_PARTNER_CODE;
use crate::kernel::endpoint::EndpointView;
use crate::kernel::ipc::IPC_ERR_DEAD_PARTNER;
use crate::kernel::kill::unmaps;
use crate::kernel::mem_demo::issuing_line;
use crate::kernel::model::{initial_kernel, KernelView};
use crate::kernel::syscall::Syscall;
use crate::kernel::tick::{spec_mailbox_decode, TickContext};
use crate::kernel::trace::{IpcPathEvent, IpcSyscallKind};
use crate::kernel::types::{
    spec_next_activity_and_action, BlockedReason, DemoProgress, Effect, EndpointId, InjectionState,
    KernelAction, KernelActivity, KernelCounters, KernelFeatures, LogEvent, LogLine, Task, TaskId,
    TaskKillReason, TaskState, MAX_TASKS, TASK0_INDEX, TASK1_INDEX,
};
use crate::mem::addr::PhysFrame;
use crate::mem::address_space::{AddressSpaceKind, AddressSpaceView};
use crate::mem::paging::MemAction;
use crate::seqs::{first_such, other_than, swap_remove};

verus! {

pub open spec fn is_no_trace() -> spec_fn(Effect) -> bool {
    |e: Effect| e !is IpcSyscall
}

/// What is left of the effects without the traced system calls.
pub open spec fn without_trace(effects: Seq<Effect>) -> Seq<Effect> {
    effects.filter(is_no_trace())
}

/// The features differ in what is traced only.
pub open spec fn same_features(a: KernelFeatures, b: KernelFeatures) -> bool {
    b == (KernelFeatures {
        ipc_trace_syscall: b.ipc_trace_syscall,
        ipc_trace_paths: b.ipc_trace_paths,
        ..a
    })
}

/// The kernels differ in what they trace, and have traced, only.
#[verifier::opaque]
pub open spec fn same_but_trace(a: KernelView, b: KernelView) -> bool {
    &&& same_features(a.features, b.features)
    &&& without_trace(a.effects) == without_trace(b.effects)
    &&& b == (KernelView { features: b.features, effects: b.effects, ..a })
}

broadcast proof fn lemma_emitted(s: Seq<Effect>, e: Effect)
    ensures
        #[trigger] without_trace(s.push(e)) == (if e is IpcSyscall {
            without_trace(s)
        } else {
            without_trace(s).push(e)
        }),
{
    reveal(Seq::filter);
    assert(s.push(e).drop_last() =~= s);
}

/// What the steps of the kernel go by is the same.
broadcast proof fn lemma_reads(a: KernelView, b: KernelView)
    requires
        #[trigger] same_but_trace(a, b),
    ensures
        a.frames == b.frames,
        a.tick_count == b.tick_count,
        a.time_ticks == b.time_ticks,
        a.should_halt == b.should_halt,
        a.activity == b.activity,
        a.spaces == b.spaces,
        a.tasks == b.tasks,
        a.current == b.current,
        a.ready == b.ready,
        a.waiting == b.waiting,
        a.quantum == b.quantum,
        a.mem_demo_mapped == b.mem_demo_mapped,
        a.mem_demo_stage == b.mem_demo_stage,
        a.mem_demo_frame == b.mem_demo_frame,
        a.endpoints == b.endpoints,
        a.demo == b.demo,
        a.injected == b.injected,
        a.counters == b.counters,
        same_features(a.features, b.features),
{
    reveal(same_but_trace);
}

broadcast proof fn lemma_put_task(a: KernelView, b: KernelView, idx: int, t: Task)
    requires
        same_but_trace(a, b),
    ensures
        #[trigger] same_but_trace(a.put_task(idx, t), b.put_task(idx, t)),
{
    reveal(same_but_trace);
}

broadcast proof fn lemma_put_endpoint(a: KernelView, b: KernelView, i: int, e: EndpointView)
    requires
        same_but_trace(a, b),
    ensures
        #[trigger] same_but_trace(a.put_endpoint(i, e), b.put_endpoint(i, e)),
{
    reveal(same_but_trace);
}

broadcast proof fn lemma_put_space(a: KernelView, b: KernelView, i: int, s: AddressSpaceView)
    requires
        same_but_trace(a, b),
    ensures
        #[trigger] same_but_trace(a.put_space(i, s), b.put_space(i, s)),
{
    reveal(same_but_trace);
}

broadcast proof fn lemma_put_counters(a: KernelView, b: KernelView, c: KernelCounters)
    requires
        same_but_trace(a, b),
    ensures
        #[trigger] same_but_trace(a.put_counters(c), b.put_counters(c)),
{
    reveal(same_but_trace);
}

broadcast proof fn lemma_put_demo(a: KernelView, b: KernelView, d: DemoProgress)
    requires
        same_but_trace(a, b),
    ensures
        #[trigger] same_but_trace(a.put_demo(d), b.put_demo(d)),
{
    reveal(same_but_trace);
}

broadcast proof fn lemma_log(a: KernelView, b: KernelView, ev: LogEvent)
    requires
        same_but_trace(a, b),
    ensures
        #[trigger] same_but_trace(a.log(ev), b.log(ev)),
{
    reveal(same_but_trace);
}

broadcast proof fn lemma_halted(a: KernelView, b: KernelView)
    requires
        same_but_trace(a, b),
    ensures
        #[trigger] same_but_trace(a.halted(), b.halted()),
{
    reveal(same_but_trace);
}

broadcast proof fn lemma_emit(a: KernelView, b: KernelView, e: Effect)
    requires
        same_but_trace(a, b),
    ensures
        #[trigger] same_but_trace(a.emit(e), b.emit(e)),
{
    reveal(same_but_trace);
    broadcast use lemma_emitted;

}

broadcast group group_writes {
    lemma_reads,
    lemma_put_task,
    lemma_put_endpoint,
    lemma_put_space,
    lemma_put_counters,
    lemma_put_demo,
    lemma_log,
    lemma_halted,
    lemma_emit,
}

proof fn lemma_same_predicates(a: KernelView, b: KernelView)
    requires
        same_but_trace(a, b),
    ensures
        a.is_ready() == b.is_ready(),
        a.is_sleeper() == b.is_sleeper(),
{
    reveal(same_but_trace);
    assert(a.is_ready() =~= b.is_ready());
    assert(a.is_sleeper() =~= b.is_sleeper());
}

broadcast proof fn lemma_wake(a: KernelView, b: KernelView, idx: usize)
    requires
        same_but_trace(a, b),
    ensures
        #[trigger] same_but_trace(a.wake(idx), b.wake(idx)),
{
    reveal(same_but_trace);
}

broadcast proof fn lemma_block(a: KernelView, b: KernelView, idx: usize, reason: BlockedReason)
    requires
        same_but_trace(a, b),
    ensures
        #[trigger] same_but_trace(a.block(idx, reason), b.block(idx, reason)),
{
    broadcast use group_writes;

    let ready = a.ready.filter(other_than(idx));
    let (a1, b1) = (KernelView { ready, ..a }, KernelView { ready, ..b });
    assert(same_but_trace(a1, b1)) by {
        reveal(same_but_trace);
    }
    let t = a.tasks[idx as int];
    let ev = LogEvent::TaskStateChanged(t.id, TaskState::Blocked);
    let (a2, b2) = (
        a1.put_task(idx as int, t.made_blocked(reason)).log(ev),
        b1.put_task(idx as int, t.made_blocked(reason)).log(ev),
    );
    assert(same_but_trace(a2, b2));
    assert(same_but_trace(a2.enqueue_wait(idx), b2.enqueue_wait(idx))) by {
        reveal(same_but_trace);
    }
}

broadcast proof fn lemma_compact(a: KernelView, b: KernelView)
    requires
        same_but_trace(a, b),
    ensures
        #[trigger] same_but_trace(a.compact_ready(), b.compact_ready()),
{
    reveal(same_but_trace);
    lemma_same_predicates(a, b);
}

broadcast proof fn lemma_yield(a: KernelView, b: KernelView)
    requires
        same_but_trace(a, b),
    ensures
        #[trigger] same_but_trace(a.yield_current(), b.yield_current()),
{
    reveal(same_but_trace);
}

broadcast proof fn lemma_wake_one(a: KernelView, b: KernelView)
    requires
        same_but_trace(a, b),
    ensures
        #[trigger] same_but_trace(a.wake_one_sleeper(), b.wake_one_sleeper()),
{
    broadcast use {group_writes, lemma_wake};

    lemma_same_predicates(a, b);
    let line = "waking 1 blocked task (Sleep only)";
    let (a1, b1) = (a.info(line), b.info(line));
    assert(same_but_trace(a1, b1));
    if let Some(pos) = first_such(a.waiting, a.is_sleeper()) {
        assert(same_but_trace(
            a1.dequeue_wait(a.waiting[pos]),
            b1.dequeue_wait(a.waiting[pos]),
        )) by {
            reveal(same_but_trace);
        }
    }
}

proof fn lemma_best(a: KernelView, b: KernelView, n: int)
    requires
        a.ready == b.ready,
        a.tasks == b.tasks,
    ensures
        a.best_ready_pos(n) == b.best_ready_pos(n),
    decreases n,
{
    if n > 1 {
        lemma_best(a, b, n - 1);
    }
}

broadcast proof fn lemma_dequeue(a: KernelView, b: KernelView)
    requires
        same_but_trace(a, b),
    ensures
        #[trigger] same_but_trace(a.dequeue_ready(), b.dequeue_ready()),
{
    broadcast use {group_writes, lemma_compact};

    lemma_compact(a, b);
    lemma_best(
        a.compact_ready(),
        b.compact_ready(),
        a.compact_ready().ready.len() as int,
    );
    reveal(same_but_trace);
}

broadcast proof fn lemma_enter_space(a: KernelView, b: KernelView, idx: usize)
    requires
        same_but_trace(a, b),
    ensures
        #[trigger] same_but_trace(a.enter_space_of(idx), b.enter_space_of(idx)),
{
    broadcast use group_writes;

}

proof fn lemma_next(a: KernelView, b: KernelView)
    requires
        same_but_trace(a, b),
    ensures
        a.next_ready() == b.next_ready(),
{
    broadcast use lemma_reads;

    lemma_same_predicates(a, b);
    lemma_best(
        a.compact_ready(),
        b.compact_ready(),
        a.compact_ready().ready.len() as int,
    );
}

proof fn lemma_make_current(a: KernelView, b: KernelView, idx: usize)
    requires
        same_but_trace(a, b),
    ensures
        same_but_trace(KernelView { current: idx, ..a }, KernelView { current: idx, ..b }),
{
    reveal(same_but_trace);
}

broadcast proof fn lemma_run_next(a: KernelView, b: KernelView, prev: usize)
    requires
        same_but_trace(a, b),
    ensures
        #[trigger] same_but_trace(a.run_next(prev), b.run_next(prev)),
{
    broadcast use {group_writes, lemma_enter_space, lemma_dequeue};

    lemma_next(a, b);
    lemma_dequeue(a, b);
    match a.next_ready() {
        None => {},
        Some(next) => {
            lemma_make_current(a.dequeue_ready(), b.dequeue_ready(), next);
        },
    }
}

broadcast proof fn lemma_run_idle(a: KernelView, b: KernelView)
    requires
        same_but_trace(a, b),
    ensures
        #[trigger] same_but_trace(a.run_idle(), b.run_idle()),
{
    reveal(same_but_trace);
    broadcast use lemma_emitted;

}

proof fn lemma_show_ready(a: KernelView, b: KernelView, n: int)
    requires
        same_but_trace(a, b),
    ensures
        same_but_trace(a.show_ready(n), b.show_ready(n)),
    decreases n,
{
    broadcast use group_writes;

    if n > 0 {
        lemma_show_ready(a, b, n - 1);
    }
}

proof fn lemma_show_ready_queue(a: KernelView, b: KernelView)
    requires
        same_but_trace(a, b),
    ensures
        same_but_trace(a.show_ready_queue(), b.show_ready_queue()),
{
    broadcast use group_writes;

    let n = a.ready.len() as int;
    let (a1, b1) = (
        a.info("sched: dump ready_queue before dequeue").value("rq_len", n as u64),
        b.info("sched: dump ready_queue before dequeue").value("rq_len", n as u64),
    );
    assert(same_but_trace(a1, b1));
    lemma_show_ready(a1, b1, n);
}

/// Somebody runs next: one who is ready, or else the kernel task.
spec fn run_on(m: KernelView, prev: usize) -> KernelView {
    if m.ready.len() > 0 {
        m.show_ready_queue().run_next(prev)
    } else {
        m.info("schedule_next_task: still no ready tasks; run idle(task0) and continue").run_idle()
    }
}

/// A sleeper is woken, if somebody waits.
spec fn try_sleeper(m: KernelView) -> KernelView {
    if m.ready.len() == 0 && m.waiting.len() > 0 {
        m.info(
            "schedule_next_task: no ready tasks; try wake sleep waiter",
        ).wake_one_sleeper().compact_ready()
    } else {
        m
    }
}

proof fn lemma_run_on(a: KernelView, b: KernelView, prev: usize)
    requires
        same_but_trace(a, b),
    ensures
        same_but_trace(run_on(a, prev), run_on(b, prev)),
{
    broadcast use {group_writes, lemma_run_next, lemma_run_idle};

    lemma_show_ready_queue(a, b);
}

proof fn lemma_try_sleeper(a: KernelView, b: KernelView)
    requires
        same_but_trace(a, b),
    ensures
        same_but_trace(try_sleeper(a), try_sleeper(b)),
{
    broadcast use {group_writes, lemma_wake_one, lemma_compact};

}

broadcast proof fn lemma_schedule(a: KernelView, b: KernelView)
    requires
        same_but_trace(a, b),
    ensures
        #[trigger] same_but_trace(a.schedule(), b.schedule()),
{
    broadcast use lemma_reads;

    reveal(KernelView::schedule);
    let e = Effect::SetVga {
        enabled: a.space_of(a.current).kind == AddressSpaceKind::Kernel,
    };
    let (a1, b1) = (a.emit(e).compact_ready(), b.emit(e).compact_ready());
    lemma_emit(a, b, e);
    lemma_compact(a.emit(e), b.emit(e));
    lemma_yield(a1, b1);
    let (a2, b2) = (a1.yield_current(), b1.yield_current());
    lemma_try_sleeper(a2, b2);
    lemma_run_on(try_sleeper(a2), try_sleeper(b2), a.current);
    assert(a.schedule() == run_on(try_sleeper(a2), a.current));
    assert(b.schedule() == run_on(try_sleeper(b2), b.current));
}

broadcast proof fn lemma_rescue(a: KernelView, b: KernelView, idx: usize, err: u64)
    requires
        same_but_trace(a, b),
    ensures
        #[trigger] same_but_trace(a.rescue(idx, err), b.rescue(idx, err)),
{
    broadcast use {group_writes, lemma_wake};

}

broadcast proof fn lemma_rescue_at_close(
    a: KernelView,
    b: KernelView,
    idx: usize,
    drop_message: bool,
)
    requires
        same_but_trace(a, b),
    ensures
        #[trigger] same_but_trace(
            a.rescue_at_close(idx, drop_message),
            b.rescue_at_close(idx, drop_message),
        ),
{
    broadcast use {group_writes, lemma_wake};

}

broadcast proof fn lemma_count_delivery(a: KernelView, b: KernelView, ep: EndpointId, recv: usize)
    requires
        same_but_trace(a, b),
    ensures
        #[trigger] same_but_trace(a.count_delivery(ep, recv), b.count_delivery(ep, recv)),
{
    broadcast use group_writes;

}

broadcast proof fn lemma_count_reply(a: KernelView, b: KernelView, ep: EndpointId, replier: usize)
    requires
        same_but_trace(a, b),
    ensures
        #[trigger] same_but_trace(a.count_reply(ep, replier), b.count_reply(ep, replier)),
{
    broadcast use group_writes;

}

broadcast proof fn lemma_await_reply(
    a: KernelView,
    b: KernelView,
    ep: EndpointId,
    send: usize,
    partner: TaskId,
)
    requires
        same_but_trace(a, b),
    ensures
        #[trigger] same_but_trace(
            a.await_reply(ep, send, partner),
            b.await_reply(ep, send, partner),
        ),
{
    broadcast use {group_writes, lemma_block};

}

broadcast proof fn lemma_answer_current(a: KernelView, b: KernelView, word: u64)
    requires
        same_but_trace(a, b),
    ensures
        #[trigger] same_but_trace(a.answer_current(word), b.answer_current(word)),
{
    broadcast use group_writes;

}

broadcast proof fn lemma_leave_sender(a: KernelView, b: KernelView, event: IpcPathEvent)
    requires
        same_but_trace(a, b),
    ensures
        #[trigger] same_but_trace(a.leave_sender(event), b.leave_sender(event)),
{
    broadcast use {group_writes, lemma_schedule};

}

broadcast group group_steps {
    lemma_wake,
    lemma_block,
    lemma_schedule,
    lemma_rescue,
    lemma_rescue_at_close,
    lemma_count_delivery,
    lemma_count_reply,
    lemma_await_reply,
    lemma_answer_current,
    lemma_leave_sender,
}

proof fn lemma_say_broken_sender(a: KernelView, b: KernelView, idx: usize, ep: EndpointId)
    requires
        same_but_trace(a, b),
    ensures
        same_but_trace(a.say_broken_sender(idx, ep), b.say_broken_sender(idx, ep)),
{
    broadcast use group_writes;

}

proof fn lemma_say_broken_waiter(a: KernelView, b: KernelView, idx: usize)
    requires
        same_but_trace(a, b),
    ensures
        same_but_trace(a.say_broken_waiter(idx), b.say_broken_waiter(idx)),
{
    broadcast use group_writes;

}

proof fn lemma_drop_broken(a: KernelView, b: KernelView, ep: EndpointId)
    requires
        same_but_trace(a, b),
    ensures
        same_but_trace(a.drop_broken_senders(ep), b.drop_broken_senders(ep)),
    decreases a.endpoints[ep.0 as int].send_queue.len(),
{
    broadcast use {group_writes, group_steps};

    assert(a.waits_to_send(ep) =~= b.waits_to_send(ep));
    let e = a.endpoints[ep.0 as int];
    if !(e.send_queue.len() == 0 || a.waits_to_send(ep)(e.send_queue.last()) || ep.0
        >= a.endpoints.len()) {
        let f = EndpointView { send_queue: e.send_queue.drop_last(), ..e };
        let last = e.send_queue.last();
        let (a1, b1) = (a.put_endpoint(ep.0 as int, f), b.put_endpoint(ep.0 as int, f));
        lemma_say_broken_sender(a1, b1, last, ep);
        lemma_drop_broken(
            a1.say_broken_sender(last, ep).rescue(last, IPC_ERR_DEAD_PARTNER),
            b1.say_broken_sender(last, ep).rescue(last, IPC_ERR_DEAD_PARTNER),
            ep,
        );
    }
}

proof fn lemma_recv_fast(a: KernelView, b: KernelView, ep: EndpointId, recv: usize)
    requires
        same_but_trace(a, b),
    ensures
        same_but_trace(a.recv_fast(ep, recv).0, b.recv_fast(ep, recv).0),
        a.recv_fast(ep, recv).1 == b.recv_fast(ep, recv).1,
{
    broadcast use {group_writes, group_steps};

    lemma_drop_broken(a, b, ep);
}

proof fn lemma_recv_slow(a: KernelView, b: KernelView, ep: EndpointId, recv: usize)
    requires
        same_but_trace(a, b),
    ensures
        same_but_trace(a.recv_slow(ep, recv), b.recv_slow(ep, recv)),
{
    broadcast use {group_writes, group_steps};

    let c = KernelCounters {
        ipc_recv_slow: (a.counters.ipc_recv_slow + 1) as u64,
        ..a.counters
    };
    let e = Effect::IpcPath { event: IpcPathEvent::RecvSlow };
    let r = BlockedReason::IpcRecv { ep };
    assert(same_but_trace(
        a.put_counters(c).emit(e).block(recv, r),
        b.put_counters(c).emit(e).block(recv, r),
    ));
}

broadcast proof fn lemma_ipc_recv(a: KernelView, b: KernelView, ep: EndpointId)
    requires
        same_but_trace(a, b),
    ensures
        #[trigger] same_but_trace(a.ipc_recv(ep), b.ipc_recv(ep)),
{
    broadcast use {group_writes, lemma_answer_current};

    reveal(KernelView::ipc_recv);
    let recv = a.current;
    let ev = LogEvent::IpcRecvCalled { task: a.tasks[recv as int].id, ep };
    lemma_log(a, b, ev);
    lemma_recv_fast(a.log(ev), b.log(ev), ep, recv);
    lemma_recv_slow(a.log(ev).recv_fast(ep, recv).0, b.log(ev).recv_fast(ep, recv).0, ep, recv);
}

proof fn lemma_send_fast(a: KernelView, b: KernelView, ep: EndpointId, msg: u64)
    requires
        same_but_trace(a, b),
    ensures
        same_but_trace(a.send_fast(ep, msg).0, b.send_fast(ep, msg).0),
        a.send_fast(ep, msg).1 == b.send_fast(ep, msg).1,
{
    broadcast use {group_writes, group_steps};

    assert(a.receiver_at(ep) == b.receiver_at(ep));
    match a.receiver_at(ep) {
        None => {},
        Some(recv) => {
            let free = EndpointView { recv_waiter: None, ..a.endpoints[ep.0 as int] };
            let (a1, b1) = (
                a.put_endpoint(ep.0 as int, free).wake(recv),
                b.put_endpoint(ep.0 as int, free).wake(recv),
            );
            assert(same_but_trace(a1, b1));
            let t = Task { last_msg: Some(msg), ..a1.tasks[recv as int] };
            let id = a.tasks[recv as int].id;
            let (a2, b2) = (
                a1.put_task(recv as int, t).await_reply(ep, a.current, id).count_delivery(ep, recv),
                b1.put_task(recv as int, t).await_reply(ep, a.current, id).count_delivery(ep, recv),
            );
            assert(same_but_trace(a2, b2));
        },
    }
}

proof fn lemma_send_slow(a: KernelView, b: KernelView, ep: EndpointId, msg: u64)
    requires
        same_but_trace(a, b),
    ensures
        same_but_trace(a.send_slow(ep, msg), b.send_slow(ep, msg)),
{
    broadcast use {group_writes, group_steps};

}

broadcast proof fn lemma_ipc_send(a: KernelView, b: KernelView, ep: EndpointId, msg: u64)
    requires
        same_but_trace(a, b),
    ensures
        #[trigger] same_but_trace(a.ipc_send(ep, msg), b.ipc_send(ep, msg)),
{
    broadcast use {group_writes, lemma_answer_current};

    reveal(KernelView::ipc_send);
    let ev = LogEvent::IpcSendCalled { task: a.tasks[a.current as int].id, ep, msg };
    let (a1, b1) = (a.log(ev), b.log(ev));
    lemma_log(a, b, ev);
    lemma_send_fast(a1, b1, ep, msg);
    lemma_send_slow(a1.send_fast(ep, msg).0, b1.send_fast(ep, msg).0, ep, msg);
}

broadcast proof fn lemma_rescue_all(a: KernelView, b: KernelView, waiters: Seq<usize>, err: u64)
    requires
        same_but_trace(a, b),
    ensures
        #[trigger] same_but_trace(a.rescue_all(waiters, err), b.rescue_all(waiters, err)),
    decreases waiters.len(),
{
    if waiters.len() > 0 {
        let last = waiters.last();
        lemma_rescue_all(a, b, waiters.drop_last(), err);
        let (a1, b1) = (
            a.rescue_all(waiters.drop_last(), err),
            b.rescue_all(waiters.drop_last(), err),
        );
        lemma_say_broken_waiter(a1, b1, last);
        lemma_rescue(a1.say_broken_waiter(last), b1.say_broken_waiter(last), last, err);
    }
}

proof fn lemma_take_reply_waiter(a: KernelView, b: KernelView, ep: EndpointId, partner: TaskId)
    requires
        same_but_trace(a, b),
    ensures
        same_but_trace(a.take_reply_waiter(ep, partner).0, b.take_reply_waiter(ep, partner).0),
        a.take_reply_waiter(ep, partner).1 == b.take_reply_waiter(ep, partner).1,
{
    broadcast use {group_writes, lemma_rescue_all};

    assert(a.waits_for_any_reply(ep) =~= b.waits_for_any_reply(ep));
    assert(a.broken_reply_entry(ep) =~= b.broken_reply_entry(ep));
    let (m, n) = (a.sweep_reply_queue(ep), b.sweep_reply_queue(ep));
    assert(same_but_trace(m, n));
    assert(m.waits_for_reply(ep, partner) =~= n.waits_for_reply(ep, partner));
}

broadcast proof fn lemma_ipc_reply(a: KernelView, b: KernelView, ep: EndpointId, msg: u64)
    requires
        same_but_trace(a, b),
    ensures
        #[trigger] same_but_trace(a.ipc_reply(ep, msg), b.ipc_reply(ep, msg)),
{
    broadcast use {group_writes, group_steps};

    reveal(KernelView::ipc_reply);
    let replier = a.tasks[a.current as int].id;
    lemma_take_reply_waiter(a, b, ep, replier);
    let (m, waiter) = a.take_reply_waiter(ep, replier);
    let n = b.take_reply_waiter(ep, replier).0;
    match waiter {
        None => {},
        Some(send) => {
            let to = m.tasks[send as int].id;
            let ev = LogEvent::IpcReplyCalled { task: replier, ep, to };
            let t = Task { last_reply: Some(msg), ..m.tasks[send as int] };
            assert(same_but_trace(
                m.log(ev).put_task(send as int, t).wake(send).count_reply(ep, a.current),
                n.log(ev).put_task(send as int, t).wake(send).count_reply(ep, a.current),
            ));
        },
    }
}

broadcast proof fn lemma_rescue_all_at_close(
    a: KernelView,
    b: KernelView,
    waiters: Seq<usize>,
    drop_message: bool,
)
    requires
        same_but_trace(a, b),
    ensures
        #[trigger] same_but_trace(
            a.rescue_all_at_close(waiters, drop_message),
            b.rescue_all_at_close(waiters, drop_message),
        ),
    decreases waiters.len(),
{
    if waiters.len() > 0 {
        let w = waiters.last();
        lemma_rescue_at_close(a, b, w, drop_message);
        lemma_rescue_all_at_close(
            a.rescue_at_close(w, drop_message),
            b.rescue_at_close(w, drop_message),
            waiters.drop_last(),
            drop_message,
        );
    }
}

broadcast proof fn lemma_close(a: KernelView, b: KernelView, ep: EndpointId)
    requires
        same_but_trace(a, b),
    ensures
        #[trigger] same_but_trace(a.close_endpoint(ep), b.close_endpoint(ep)),
{
    broadcast use {group_writes, lemma_rescue_at_close, lemma_rescue_all_at_close};

    reveal(KernelView::close_endpoint);
}

proof fn lemma_release_from(
    a: KernelView,
    b: KernelView,
    i: int,
    pos: int,
    dead: TaskId,
    woken: Seq<usize>,
)
    requires
        same_but_trace(a, b),
    ensures
        same_but_trace(
            a.release_from(i, pos, dead, woken).0,
            b.release_from(i, pos, dead, woken).0,
        ),
        a.release_from(i, pos, dead, woken).1 == b.release_from(i, pos, dead, woken).1,
    decreases a.endpoints[i].reply_queue.len() - pos,
{
    broadcast use group_writes;

    if 0 <= i < a.endpoints.len() && 0 <= pos < a.endpoints[i].reply_queue.len() {
        let e = a.endpoints[i];
        let w = e.reply_queue[pos];
        if a.blocked_on_reply(w, e.id, dead) {
            let q = EndpointView { reply_queue: swap_remove(e.reply_queue, pos), ..e };
            let t = Task {
                blocked_reason: None,
                last_reply: Some(IPC_ERR_DEAD_PARTNER),
                ..a.tasks[w as int]
            };
            let (a1, b1) = (
                a.put_endpoint(i, q).put_task(w as int, t).say_released(t.id, dead),
                b.put_endpoint(i, q).put_task(w as int, t).say_released(t.id, dead),
            );
            assert(same_but_trace(a1, b1));
            lemma_release_from(
                a1,
                b1,
                i,
                pos,
                dead,
                if woken.len() < MAX_TASKS {
                    woken.push(w)
                } else {
                    woken
                },
            );
        } else {
            lemma_release_from(a, b, i, pos + 1, dead, woken);
        }
    }
}

proof fn lemma_wake_all(a: KernelView, b: KernelView, list: Seq<usize>)
    requires
        same_but_trace(a, b),
    ensures
        same_but_trace(a.wake_all(list), b.wake_all(list)),
    decreases list.len(),
{
    if list.len() > 0 {
        lemma_wake_all(a, b, list.drop_last());
        lemma_wake(a.wake_all(list.drop_last()), b.wake_all(list.drop_last()), list.last());
    }
}

proof fn lemma_release(a: KernelView, b: KernelView, dead: TaskId)
    requires
        same_but_trace(a, b),
    ensures
        same_but_trace(a.release_reply_waiters(dead), b.release_reply_waiters(dead)),
{
    reveal(KernelView::release_reply_waiters);
    lemma_release_from(a, b, 0, 0, dead, Seq::empty());
    let (a1, woken) = a.release_from(0, 0, dead, Seq::empty());
    let b1 = b.release_from(0, 0, dead, Seq::empty()).0;
    lemma_release_from(a1, b1, 1, 0, dead, woken);
    let (a2, all) = a1.release_from(1, 0, dead, woken);
    lemma_wake_all(a2, b1.release_from(1, 0, dead, woken).0, all);
}

proof fn lemma_drop_mappings(a: KernelView, b: KernelView, as_idx: usize)
    requires
        same_but_trace(a, b),
    ensures
        same_but_trace(a.drop_user_mappings(as_idx), b.drop_user_mappings(as_idx)),
{
    broadcast use group_writes;

    let s = a.spaces[as_idx as int];
    let left = s.without_user_mappings().mappings().len() as u64;
    let (a1, b1) = (a.say_cleanup(as_idx, s), b.say_cleanup(as_idx, s));
    assert(same_but_trace(a1, b1));
    let (a2, b2) = (
        a1.put_space(as_idx as int, s.without_user_mappings()).value(
            "cleanup_user_mappings: after clear mapping_count",
            left,
        ),
        b1.put_space(as_idx as int, s.without_user_mappings()).value(
            "cleanup_user_mappings: after clear mapping_count",
            left,
        ),
    );
    assert(same_but_trace(a2, b2));
    let more = unmaps(s.user_pages(), s.root_page_frame->0, as_idx);
    let (a3, b3) = (
        KernelView { effects: a2.effects + more, ..a2 },
        KernelView { effects: b2.effects + more, ..b2 },
    );
    assert(same_but_trace(a3, b3)) by {
        reveal(same_but_trace);
        Seq::filter_distributes_over_add(a2.effects, more, is_no_trace());
        Seq::filter_distributes_over_add(b2.effects, more, is_no_trace());
    }
}

proof fn lemma_bury(a: KernelView, b: KernelView, idx: usize)
    requires
        same_but_trace(a, b),
    ensures
        same_but_trace(a.bury(idx), b.bury(idx)),
{
    reveal(KernelView::bury);
    reveal(same_but_trace);
    let (a1, b1) = (
        KernelView { ready: a.ready.filter(other_than(idx)), ..a }.dequeue_wait(idx),
        KernelView { ready: b.ready.filter(other_than(idx)), ..b }.dequeue_wait(idx),
    );
    assert(same_but_trace(a1, b1));
    let t = a.tasks[idx as int].made_dead();
    let (a2, b2) = (
        a1.forget_waiter(idx).put_task(idx as int, t),
        b1.forget_waiter(idx).put_task(idx as int, t),
    );
    assert(same_but_trace(a2, b2));
    let (a3, b3) = (
        KernelView {
            mem_demo_stage: a2.mem_demo_stage.update(idx as int, 0),
            mem_demo_mapped: a2.mem_demo_mapped.update(idx as int, false),
            mem_demo_frame: a2.mem_demo_frame.update(idx as int, None),
            demo: DemoProgress { early_sent_by_task0: false, ..a2.demo },
            ..a2
        },
        KernelView {
            mem_demo_stage: b2.mem_demo_stage.update(idx as int, 0),
            mem_demo_mapped: b2.mem_demo_mapped.update(idx as int, false),
            mem_demo_frame: b2.mem_demo_frame.update(idx as int, None),
            demo: DemoProgress { early_sent_by_task0: false, ..b2.demo },
            ..b2
        },
    );
    assert(same_but_trace(a3, b3));
    lemma_drop_mappings(a3, b3, a.tasks[idx as int].address_space_id.0);
}

broadcast proof fn lemma_kill(a: KernelView, b: KernelView, idx: usize, reason: TaskKillReason)
    requires
        same_but_trace(a, b),
    ensures
        #[trigger] same_but_trace(a.kill(idx, reason), b.kill(idx, reason)),
{
    broadcast use {group_writes, lemma_close, lemma_schedule};

    reveal(KernelView::kill);
    let (a1, b1) = (a.count_kill(reason), b.count_kill(reason));
    assert(same_but_trace(a1, b1));
    if idx < MAX_TASKS {
        let id = a.tasks[idx as int].id;
        lemma_bury(a1, b1, idx);
        let (a2, b2) = (a1.bury(idx).close_endpoints_of(id), b1.bury(idx).close_endpoints_of(id));
        assert(same_but_trace(a2, b2));
        lemma_release(a2, b2, id);
    }
}

proof fn lemma_trace_syscall(
    a: KernelView,
    b: KernelView,
    kind: IpcSyscallKind,
    ep: EndpointId,
    msg: Option<u64>,
)
    requires
        same_but_trace(a, b),
    ensures
        same_but_trace(a.trace_syscall(kind, ep, msg), b.trace_syscall(kind, ep, msg)),
{
    reveal(same_but_trace);
    broadcast use lemma_emitted;

}

/// The kernel says that it kills a receiver, before it does.
spec fn say_dead_partner(m: KernelView, tid: TaskId, ep: EndpointId) -> KernelView {
    m.error("dead_partner_test: kill receiver (DemoInjected) right after IpcRecv").value(
        "killed_task_id",
        tid.0,
    ).value("ep_id", ep.0 as u64).value("demo_code", DEAD_PARTNER_CODE)
}

proof fn lemma_inject_dead_partner(
    a: KernelView,
    b: KernelView,
    idx: usize,
    tid: TaskId,
    ep: EndpointId,
)
    requires
        same_but_trace(a, b),
    ensures
        same_but_trace(
            a.inject_dead_partner(idx, tid, ep).0,
            b.inject_dead_partner(idx, tid, ep).0,
        ),
        a.inject_dead_partner(idx, tid, ep).1 == b.inject_dead_partner(idx, tid, ep).1,
{
    broadcast use group_writes;

    let fired = InjectionState { dead_partner_fired: true, ..a.injected };
    let (a0, b0) = (say_dead_partner(a, tid, ep), say_dead_partner(b, tid, ep));
    assert(same_but_trace(a0, b0));
    let (a1, b1) = (
        KernelView { injected: fired, ..a0 },
        KernelView { injected: fired, ..b0 },
    );
    assert(same_but_trace(a1, b1)) by {
        reveal(same_but_trace);
    }
    lemma_kill(a1, b1, idx, TaskKillReason::DemoInjected { code: DEAD_PARTNER_CODE });
}

proof fn lemma_demo_frame(a: KernelView, b: KernelView, idx: usize)
    requires
        same_but_trace(a, b),
    ensures
        same_but_trace(a.demo_frame(idx).0, b.demo_frame(idx).0),
        a.demo_frame(idx).1 == b.demo_frame(idx).1,
{
    reveal(same_but_trace);
}

proof fn lemma_page_call(a: KernelView, b: KernelView, as_idx: int, action: MemAction)
    requires
        same_but_trace(a, b),
    ensures
        ({
            let (a1, c) = a.page_operation(as_idx, action);
            let (b1, d) = b.page_operation(as_idx, action);
            &&& same_but_trace(a1, b1)
            &&& c == d
            &&& same_but_trace(a1.settle_page_call(c).0, b1.settle_page_call(c).0)
            &&& a1.settle_page_call(c).1 == b1.settle_page_call(c).1
        }),
{
    broadcast use group_writes;

}

/// A system call does the same and asks for the same, whatever is traced.
pub proof fn law_tracing_keeps_syscall(a: KernelView, b: KernelView, sc: Syscall)
    requires
        same_but_trace(a, b),
    ensures
        same_but_trace(a.syscall(sc).0, b.syscall(sc).0),
        a.syscall(sc).1 == b.syscall(sc).1,
{
    broadcast use {group_writes, lemma_ipc_recv, lemma_ipc_send, lemma_ipc_reply};

    reveal(KernelView::syscall);
    let idx = a.current;
    let tid = a.tasks[idx as int].id;
    let ev = LogEvent::SyscallHandled { task: tid };
    lemma_log(a, b, ev);
    let (a1, b1) = (a.log(ev), b.log(ev));
    match sc {
        Syscall::IpcRecv { ep } => {
            lemma_trace_syscall(a1, b1, IpcSyscallKind::Recv, ep, None);
            let (a2, b2) = (
                a1.trace_syscall(IpcSyscallKind::Recv, ep, None).ipc_recv(ep),
                b1.trace_syscall(IpcSyscallKind::Recv, ep, None).ipc_recv(ep),
            );
            assert(same_but_trace(a2, b2));
            lemma_inject_dead_partner(a2, b2, idx, tid, ep);
        },
        Syscall::IpcSend { ep, msg } => {
            lemma_trace_syscall(a1, b1, IpcSyscallKind::Send, ep, Some(msg));
        },
        Syscall::IpcReply { ep, msg } => {
            lemma_trace_syscall(a1, b1, IpcSyscallKind::Reply, ep, Some(msg));
        },
        Syscall::PageMap { page, flags } => {
            lemma_demo_frame(a1, b1, idx);
            let as_idx = a.tasks[idx as int].address_space_id.0 as int;
            let (a2, frame) = a1.demo_frame(idx);
            let b2 = b1.demo_frame(idx).0;
            match frame {
                None => {},
                Some(frame) => {
                    lemma_page_call(a2, b2, as_idx, MemAction::MapPage { page, frame, flags });
                },
            }
        },
        Syscall::PageUnmap { page } => {
            let as_idx = a.tasks[idx as int].address_space_id.0 as int;
            lemma_page_call(a1, b1, as_idx, MemAction::Unmap { page });
        },
    }
}

proof fn lemma_pending(a: KernelView, b: KernelView)
    requires
        same_but_trace(a, b),
    ensures
        same_but_trace(a.pending_syscall().0, b.pending_syscall().0),
        a.pending_syscall().1 == b.pending_syscall().1,
{
    broadcast use group_writes;

    reveal(KernelView::pending_syscall);
    let t = a.tasks[a.current as int];
    let u = Task { pending_syscall: None, ..t };
    let (a1, b1) = (a.put_task(a.current as int, u), b.put_task(a.current as int, u));
    lemma_put_task(a, b, a.current as int, u);
    match t.pending_syscall {
        None => {},
        Some(sc) => {
            let ev = LogEvent::SyscallIssued { task: t.id };
            lemma_log(a1, b1, ev);
            law_tracing_keeps_syscall(a1.log(ev), b1.log(ev), sc);
        },
    }
}

proof fn lemma_user_step(a: KernelView, b: KernelView, idx: usize)
    requires
        same_but_trace(a, b),
    ensures
        same_but_trace(a.user_step(idx), b.user_step(idx)),
{
    broadcast use group_writes;

    reveal(KernelView::user_step);
    let ret = a.unread_ret(idx);
    let (m, n) = (
        a.read_ret(idx).show_word(idx, "syscall_ret_received", "ret", ret),
        b.read_ret(idx).show_word(idx, "syscall_ret_received", "ret", ret),
    );
    assert(same_but_trace(m, n));
    assert(a.sender_wants() == b.sender_wants());
    assert(a.server_wants(idx) == b.server_wants(idx));
    let d = DemoProgress { sent_by_task1: true, ..a.demo };
    let reply = m.tasks[idx as int].last_reply;
    let (r, s) = (
        m.show_word(idx, "ipc_reply_received", "reply", reply),
        n.show_word(idx, "ipc_reply_received", "reply", reply),
    );
    assert(same_but_trace(r, s));
    assert(same_but_trace(r.put_demo(d), s.put_demo(d)));
}

proof fn lemma_mem_demo(a: KernelView, b: KernelView)
    requires
        same_but_trace(a, b),
    ensures
        same_but_trace(a.mem_demo().0, b.mem_demo().0),
        a.mem_demo().1 == b.mem_demo().1,
{
    reveal(KernelView::mem_demo);
    lemma_inject_mem_fault(a, b);
    let (a1, b1) = (a.inject_mem_fault().0, b.inject_mem_fault().0);
    broadcast use group_writes;

    lemma_demo_frame(a1, b1, TASK0_INDEX);
    let (a2, b2) = (a1.with_demo_frame(), b1.with_demo_frame());
    assert(same_but_trace(a2, b2));
    lemma_user_mem_demo(a2, b2);
    lemma_kernel_mem_demo(a2, b2);

}

proof fn lemma_inject_mem_fault(a: KernelView, b: KernelView)
    requires
        same_but_trace(a, b),
    ensures
        same_but_trace(a.inject_mem_fault().0, b.inject_mem_fault().0),
        a.inject_mem_fault().1 == b.inject_mem_fault().1,
{
    reveal(same_but_trace);
    broadcast use lemma_emitted;

}

proof fn lemma_user_mem_demo(a: KernelView, b: KernelView)
    requires
        same_but_trace(a, b),
    ensures
        same_but_trace(a.user_mem_demo().0, b.user_mem_demo().0),
        a.user_mem_demo().1 == b.user_mem_demo().1,
{
    reveal(same_but_trace);
    broadcast use lemma_emitted;

}

proof fn lemma_kernel_mem_demo(a: KernelView, b: KernelView)
    requires
        same_but_trace(a, b),
    ensures
        same_but_trace(a.kernel_mem_demo().0, b.kernel_mem_demo().0),
        a.kernel_mem_demo().1 == b.kernel_mem_demo().1,
{
    broadcast use group_writes;

    let line = issuing_line(a.mem_demo_mapped[a.current as int]);
    lemma_emit(a, b, Effect::Say { line: LogLine::Info { msg: line } });
    lemma_demo_frame(a.info(line), b.info(line), a.current);
}

/// The self-check finds the same, whatever is traced.
pub proof fn law_tracing_keeps_violations(a: KernelView, b: KernelView)
    requires
        same_but_trace(a, b),
    ensures
        a.violations() == b.violations(),
{
    broadcast use lemma_reads;

    reveal(KernelView::violations);
    assert(a.task_state_lines_at() =~= b.task_state_lines_at());
    assert(a.mapping_lines_at(1) =~= b.mapping_lines_at(1));
    assert(a.mapping_lines_at(2) =~= b.mapping_lines_at(2));
    assert(a.dead_task_lines_at() =~= b.dead_task_lines_at());
    assert(a.waiting_lines_at() =~= b.waiting_lines_at());
    assert(a.sleeper_lines_at() =~= b.sleeper_lines_at());
    assert(a.blocked_task_lines_at() =~= b.blocked_task_lines_at());
    assert forall|i: int| a.endpoint_lines(i) == b.endpoint_lines(i) by {
        assert(a.sender_lines_at(i) =~= b.sender_lines_at(i));
        assert(a.reply_waiter_lines_at(i) =~= b.reply_waiter_lines_at(i));
    }
    assert(a.endpoint_lines_at() =~= b.endpoint_lines_at());
}

proof fn lemma_set_activity(a: KernelView, b: KernelView, activity: KernelActivity)
    requires
        same_but_trace(a, b),
    ensures
        same_but_trace(KernelView { activity, ..a }, KernelView { activity, ..b }),
{
    reveal(same_but_trace);
}

proof fn lemma_end_tick(a: KernelView, b: KernelView, ctx: TickContext)
    requires
        same_but_trace(a, b),
    ensures
        same_but_trace(a.end_tick(ctx).0, b.end_tick(ctx).0),
        a.end_tick(ctx).1 == b.end_tick(ctx).1,
{
    broadcast use {group_writes, lemma_schedule};

    let (a1, b1) = (a.update_runtime(ctx.ran), b.update_runtime(ctx.ran));
    assert(same_but_trace(a1, b1));
    let line = "skip time_slice update due to task switch in this tick";
    let (a2, b2) = if ctx.ran == a1.current && a1.state(ctx.ran) == TaskState::Running {
        (a1.update_time_slice(ctx.ran), b1.update_time_slice(ctx.ran))
    } else {
        (a1.info(line), b1.info(line))
    };
    assert(same_but_trace(a2, b2));
    lemma_set_activity(a2, b2, ctx.next_activity);
    law_tracing_keeps_violations(
        KernelView { activity: ctx.next_activity, ..a2 },
        KernelView { activity: ctx.next_activity, ..b2 },
    );
}

proof fn lemma_end_tick_of_the_dead(a: KernelView, b: KernelView, ctx: TickContext)
    requires
        same_but_trace(a, b),
    ensures
        same_but_trace(a.end_tick_of_the_dead(ctx).0, b.end_tick_of_the_dead(ctx).0),
        a.end_tick_of_the_dead(ctx).1 == b.end_tick_of_the_dead(ctx).1,
{
    broadcast use group_writes;

    let line = "tick: running task died in this tick; skip syscall/runtime/quantum updates";
    let (a0, b0) = (a.info(line), b.info(line));
    assert(same_but_trace(a0, b0));
    let (a1, b1) = (
        KernelView { activity: ctx.next_activity, ..a0 },
        KernelView { activity: ctx.next_activity, ..b0 },
    );
    lemma_set_activity(a0, b0, ctx.next_activity);
    let more = "tick: current_task not RUNNING at end-of-tick; forcing schedule";
    let (a2, b2) = (
        a1.error(more).value("current_task", a.current as u64),
        b1.error(more).value("current_task", a.current as u64),
    );
    assert(same_but_trace(a2, b2));
    lemma_schedule(a2, b2);
    law_tracing_keeps_violations(a1, b1);
    law_tracing_keeps_violations(a2.schedule(), b2.schedule());
}

proof fn lemma_after_action(a: KernelView, b: KernelView, ctx: TickContext)
    requires
        same_but_trace(a, b),
    ensures
        same_but_trace(a.after_action(ctx).0, b.after_action(ctx).0),
        a.after_action(ctx).1 == b.after_action(ctx).1,
{
    broadcast use lemma_reads;

    lemma_end_tick_of_the_dead(a, b, ctx);
    let quiet = a.features.ring3_mailbox_loop && ctx.ran == TASK1_INDEX;
    let (a1, b1) = if quiet {
        (a, b)
    } else {
        (a.user_step(ctx.ran), b.user_step(ctx.ran))
    };
    lemma_user_step(a, b, ctx.ran);
    lemma_end_tick(a1, b1, ctx);
    lemma_pending(a1, b1);
    lemma_end_tick(a1.pending_syscall().0, b1.pending_syscall().0, ctx);
}

proof fn lemma_update_timer(a: KernelView, b: KernelView)
    requires
        same_but_trace(a, b),
    ensures
        same_but_trace(a.update_timer(), b.update_timer()),
{
    let now = (a.time_ticks + 1) as u64;
    let (a1, b1) = (
        KernelView { time_ticks: now, ..a }.value("time_ticks", now).log(
            LogEvent::TimerUpdated(now),
        ),
        KernelView { time_ticks: now, ..b }.value("time_ticks", now).log(
            LogEvent::TimerUpdated(now),
        ),
    );
    assert(same_but_trace(a1, b1) && a.time_ticks == b.time_ticks) by {
        reveal(same_but_trace);
        broadcast use lemma_emitted;

    }
    lemma_wake_one(a1, b1);
}

broadcast proof fn lemma_take_frame(
    a: KernelView,
    b: KernelView,
    taken: &'static str,
    missing: &'static str,
)
    requires
        same_but_trace(a, b),
    ensures
        #[trigger] same_but_trace(a.take_frame(taken, missing), b.take_frame(taken, missing)),
{
    reveal(same_but_trace);
    broadcast use lemma_emitted;

}

proof fn lemma_begin_tick(a: KernelView, b: KernelView)
    requires
        same_but_trace(a, b),
    ensures
        same_but_trace(a.begin_tick(), b.begin_tick()),
{
    broadcast use group_writes;

    let n = (a.tick_count + 1) as u64;
    let (a1, b1) = (KernelView { tick_count: n, ..a }, KernelView { tick_count: n, ..b });
    assert(same_but_trace(a1, b1)) by {
        reveal(same_but_trace);
    }
    let (a2, b2) = (
        a1.info("KernelState::tick()").value("tick_count", n),
        b1.info("KernelState::tick()").value("tick_count", n),
    );
    assert(same_but_trace(a2, b2));
}

/// A tick does the same, asks for the same and finds the same, whatever is traced.
pub proof fn law_tracing_keeps_tick(a: KernelView, b: KernelView)
    requires
        same_but_trace(a, b),
    ensures
        same_but_trace(a.tick().0, b.tick().0),
        a.tick().1 == b.tick().1,
{
    broadcast use {group_writes, lemma_take_frame};

    reveal(KernelView::tick);
    lemma_begin_tick(a, b);
    let (m, n) = (a.begin_tick(), b.begin_tick());
    let (next_activity, action) = spec_next_activity_and_action(a.activity);
    let ctx = TickContext { ran: a.current, next_activity };
    match action {
        KernelAction::Nothing => {
            lemma_after_action(m.info("action = None"), n.info("action = None"), ctx);
        },
        KernelAction::UpdateTimer => {
            let (a1, b1) = (m.info("action = UpdateTimer"), n.info("action = UpdateTimer"));
            lemma_update_timer(a1, b1);
            lemma_after_action(a1.update_timer(), b1.update_timer(), ctx);
        },
        KernelAction::AllocateFrame => {
            let (a1, b1) = (m.info("action = AllocateFrame"), n.info("action = AllocateFrame"));
            let taken = "allocated usable frame (tick)";
            let missing = "no more usable frames; halting later";
            lemma_after_action(
                a1.take_frame(taken, missing),
                b1.take_frame(taken, missing),
                ctx,
            );
        },
        KernelAction::MemDemo => {
            let (a1, b1) = (m.info("action = MemDemo"), n.info("action = MemDemo"));
            let line = "mem_demo skipped (ring3_mailbox_loop)";
            lemma_after_action(a1.info(line), b1.info(line), ctx);
            lemma_mem_demo(a1, b1);
            lemma_after_action(a1.mem_demo().0, b1.mem_demo().0, ctx);
        },
    }
}

proof fn lemma_say_user_fault(a: KernelView, b: KernelView, pf: PageFaultInfo)
    requires
        same_but_trace(a, b),
    ensures
        same_but_trace(a.say_user_fault(pf), b.say_user_fault(pf)),
{
    broadcast use group_writes;

}

proof fn lemma_user_page_fault(a: KernelView, b: KernelView, pf: PageFaultInfo)
    requires
        same_but_trace(a, b),
    ensures
        same_but_trace(a.user_page_fault(pf), b.user_page_fault(pf)),
{
    broadcast use {group_writes, lemma_kill};

    lemma_say_user_fault(a, b, pf);
}

proof fn lemma_put_stage(a: KernelView, b: KernelView, idx: usize, stage: u8)
    requires
        same_but_trace(a, b),
    ensures
        same_but_trace(a.put_stage(idx, stage), b.put_stage(idx, stage)),
{
    reveal(same_but_trace);
}

proof fn lemma_finish_user_rw(
    a: KernelView,
    b: KernelView,
    idx: usize,
    stage: u8,
    accessed: Result<u64, PageFaultInfo>,
)
    requires
        same_but_trace(a, b),
    ensures
        same_but_trace(
            a.finish_user_rw(idx, stage, accessed).0,
            b.finish_user_rw(idx, stage, accessed).0,
        ),
        a.finish_user_rw(idx, stage, accessed).1 == b.finish_user_rw(idx, stage, accessed).1,
{
    let (a1, b1) = match accessed {
        Ok(_) => (a, b),
        Err(pf) => {
            lemma_user_page_fault(a, b, pf);
            (a.user_page_fault(pf), b.user_page_fault(pf))
        },
    };
    assert(same_but_trace(a1, b1));
    lemma_put_stage(a1, b1, idx, 0);
    lemma_put_stage(a1, b1, idx, 2);
    if let Err(pf) = accessed {
        lemma_say_user_fault(a, b, pf);
    }
    broadcast use group_writes;

}

proof fn lemma_finish_kernel_demo(
    a: KernelView,
    b: KernelView,
    idx: usize,
    action: MemAction,
)
    requires
        same_but_trace(a, b),
    ensures
        same_but_trace(a.finish_kernel_demo(idx, action), b.finish_kernel_demo(idx, action)),
{
    reveal(same_but_trace);
}

/// The rest of a tick, after the page operation of the kernel's memory demo, does the same,
/// asks for the same and finds the same, whatever is traced.
pub proof fn law_tracing_keeps_kernel_demo(
    a: KernelView,
    b: KernelView,
    ctx: TickContext,
    action: MemAction,
    applied: Result<(), PagingApplyError>,
)
    requires
        same_but_trace(a, b),
    ensures
        same_but_trace(
            a.resume_kernel_demo(ctx, action, applied).0,
            b.resume_kernel_demo(ctx, action, applied).0,
        ),
        a.resume_kernel_demo(ctx, action, applied).1 == b.resume_kernel_demo(
            ctx,
            action,
            applied,
        ).1,
{
    broadcast use lemma_emit;

    lemma_finish_kernel_demo(a, b, ctx.ran, action);
    lemma_after_action(
        a.finish_kernel_demo(ctx.ran, action),
        b.finish_kernel_demo(ctx.ran, action),
        ctx,
    );
}

/// The rest of a tick, after an access to user memory, does the same, asks for the same and
/// finds the same, whatever is traced.
pub proof fn law_tracing_keeps_user_access(
    a: KernelView,
    b: KernelView,
    ctx: TickContext,
    stage: u8,
    accessed: Result<u64, PageFaultInfo>,
)
    requires
        same_but_trace(a, b),
    ensures
        same_but_trace(
            a.resume_user_access(ctx, stage, accessed).0,
            b.resume_user_access(ctx, stage, accessed).0,
        ),
        a.resume_user_access(ctx, stage, accessed).1 == b.resume_user_access(
            ctx,
            stage,
            accessed,
        ).1,
{
    lemma_finish_user_rw(a, b, ctx.ran, stage, accessed);
    lemma_after_action(
        a.finish_user_rw(ctx.ran, stage, accessed).0,
        b.finish_user_rw(ctx.ran, stage, accessed).0,
        ctx,
    );
}

/// The rest of a tick, after the page operation of a system call, does the same and finds
/// the same, whatever is traced.
pub proof fn law_tracing_keeps_page_call(
    a: KernelView,
    b: KernelView,
    ctx: TickContext,
    applied: Result<(), PagingApplyError>,
)
    requires
        same_but_trace(a, b),
    ensures
        same_but_trace(a.resume_page_call(ctx, applied).0, b.resume_page_call(ctx, applied).0),
        a.resume_page_call(ctx, applied).1 == b.resume_page_call(ctx, applied).1,
{
    broadcast use group_writes;

    assert(same_but_trace(a.finish_page_call(applied), b.finish_page_call(applied)));
    lemma_end_tick(a.finish_page_call(applied), b.finish_page_call(applied), ctx);
}

/// A call through the mailbox does the same and is answered the same, whatever is traced.
pub proof fn law_tracing_keeps_mailbox(
    a: KernelView,
    b: KernelView,
    sysno: u64,
    a0: u64,
    a1: u64,
    a2: u64,
)
    requires
        same_but_trace(a, b),
    ensures
        same_but_trace(a.mailbox(sysno, a0, a1, a2).0, b.mailbox(sysno, a0, a1, a2).0),
        a.mailbox(sysno, a0, a1, a2).1 == b.mailbox(sysno, a0, a1, a2).1,
{
    broadcast use {lemma_reads, lemma_put_task, lemma_log};

    law_tracing_keeps_tick(a, b);
    lemma_make_current(a, b, TASK1_INDEX);
    match spec_mailbox_decode(sysno, a0, a1) {
        None => {},
        Some(sc) => {
            let (m, n) = if a.state(TASK1_INDEX) != TaskState::Dead {
                (
                    KernelView { current: TASK1_INDEX, ..a },
                    KernelView { current: TASK1_INDEX, ..b },
                )
            } else {
                (a, b)
            };
            let ev = LogEvent::SyscallIssued { task: m.tasks[m.current as int].id };
            lemma_log(m, n, ev);
            law_tracing_keeps_syscall(m.log(ev), n.log(ev), sc);
        },
    }
}

/// Two kernels that start with features that differ in what is traced only are the same
/// but for that.
pub proof fn law_tracing_keeps_start(
    frames: Seq<u64>,
    kernel_root: PhysFrame,
    f: KernelFeatures,
    g: KernelFeatures,
)
    requires
        same_features(f, g),
    ensures
        same_but_trace(
            initial_kernel(frames, kernel_root, f),
            initial_kernel(frames, kernel_root, g),
        ),
{
    reveal(same_but_trace);
}

} // verus!
