//! Faults: a task that is killed for one is named in the log with the reason, and nobody else
//! pays for it.

use vstd::prelude::*;

use crate::arch::paging::PageFaultInfo;
use crate::kernel::demo::ipc_faults::DEAD_PARTNER_CODE;
use crate::kernel::laws::consistency::is_user;
use crate::kernel::laws::death::{after_death, law_kill_keeps_consistent, lemma_after_death};
use crate::kernel::laws::messages::lemma_same_places;
use crate::kernel::laws::programs::says;
use crate::kernel::laws::scheduling::{
    lemma_ready_queue, lemma_roused, lemma_said, lemma_schedule_is, lemma_yield, roused, screen_of,
    IDLE_LINE, TRY_LINE,
};
use crate::kernel::model::KernelView;
use crate::kernel::sched::lemma_show_ready_queue;
use crate::kernel::types::{
    BlockedReason, Effect, EndpointId, InjectionState, KernelCounters, LogEvent, LogLine,
    TaskKillReason, TaskState, EVENT_LOG_CAP, MAX_ENDPOINTS, MAX_TASKS,
};
use crate::seqs::{equal_to, lemma_first_such_is, swap_remove};

verus! {

/// The event is among the last `d` of the log.
pub open spec fn recent(m: KernelView, ev: LogEvent, d: int) -> bool {
    exists|i: int|
        0 <= i < m.events.len() && m.events.len() - d <= i && #[trigger] m.events[i] == ev
}

proof fn lemma_log_keeps_recent(m: KernelView, new: LogEvent, ev: LogEvent, d: int)
    requires
        recent(m, ev, d),
        0 <= d < EVENT_LOG_CAP,
    ensures
        recent(m.log(new), ev, d + 1),
{
    let i = choose|i: int|
        0 <= i < m.events.len() && m.events.len() - d <= i && #[trigger] m.events[i] == ev;
    let n = m.log(new);
    let shift = m.events.len() + 1 - n.events.len();
    assert(n.events[i - shift] == ev);
}

proof fn lemma_more_recent(m: KernelView, n: KernelView, ev: LogEvent, d: int, e: int)
    requires
        recent(m, ev, d),
        d <= e,
        n.events == m.events,
    ensures
        recent(n, ev, e),
{
    let i = choose|i: int|
        0 <= i < m.events.len() && m.events.len() - d <= i && #[trigger] m.events[i] == ev;
    assert(n.events[i] == ev);
}

#[verifier::rlimit(40)]
proof fn lemma_schedule_keeps_recent(m: KernelView, ev: LogEvent)
    requires
        m.placed(),
        recent(m, ev, 2),
    ensures
        recent(m.schedule(), ev, 9),
{
    lemma_schedule_is(m);
    let e = m.emit(screen_of(m));
    lemma_said(m, e);
    lemma_yield(e);
    let y = e.yield_current();
    lemma_yield_keeps_recent(e, ev);
    lemma_roused(y);
    let w = roused(y);
    lemma_roused_keeps_recent(y, ev);
    if w.ready.len() > 0 {
        let q = w.show_ready_queue();
        lemma_show_ready_queue(w);
        lemma_said(w, q);
        lemma_more_recent(w, q, ev, 6, 6);
        lemma_run_next_keeps_recent(q, m.current, ev);
    } else {
        let q = w.info(IDLE_LINE);
        lemma_said(w, q);
        lemma_more_recent(w, q, ev, 6, 7);
        lemma_run_idle_keeps_recent(q, ev);
    }
}

#[verifier::rlimit(40)]
proof fn lemma_yield_keeps_recent(m: KernelView, ev: LogEvent)
    requires
        m.wf(),
        recent(m, ev, 2),
    ensures
        recent(m.yield_current(), ev, 4),
{
    let t = m.tasks[m.current as int];
    let a = m.put_task(m.current as int, t.made_ready());
    lemma_more_recent(m, a, ev, 2, 2);
    let b = LogEvent::TaskStateChanged(t.id, TaskState::Ready);
    lemma_log_keeps_recent(a, b, ev, 2);
    let c = a.log(b);
    let d = KernelView { ready: c.ready.push(m.current), ..c };
    lemma_more_recent(c, d, ev, 3, 3);
    lemma_log_keeps_recent(d, LogEvent::ReadyQueued(t.id), ev, 3);
    lemma_more_recent(c, c, ev, 3, 4);
    lemma_more_recent(m, m, ev, 2, 4);
}

proof fn lemma_roused_keeps_recent(m: KernelView, ev: LogEvent)
    requires
        m.placed(),
        recent(m, ev, 4),
    ensures
        recent(roused(m), ev, 6),
{
    if m.ready.len() == 0 && m.waiting.len() > 0 {
        let s = m.info(TRY_LINE);
        lemma_said(m, s);
        lemma_more_recent(m, s, ev, 4, 4);
        lemma_wake_keeps_recent(s, ev);
    } else {
        lemma_more_recent(m, m, ev, 4, 6);
    }
}

#[verifier::rlimit(40)]
proof fn lemma_wake_keeps_recent(m: KernelView, ev: LogEvent)
    requires
        m.placed(),
        m.waiting.len() > 0,
        recent(m, ev, 4),
    ensures
        recent(m.wake_one_sleeper(), ev, 6),
{
    let i = m.waiting[0];
    assert(m.waiting.contains(i));
    assert(m.blocked_on(i, BlockedReason::Sleep));
    lemma_first_such_is(m.waiting, m.is_sleeper(), 0);
    lemma_first_such_is(m.waiting, equal_to(i), 0);
    let s = m.info("waking 1 blocked task (Sleep only)");
    let t = s.tasks[i as int];
    let a = KernelView { waiting: swap_remove(s.waiting, 0), ..s };
    lemma_more_recent(m, a, ev, 4, 4);
    lemma_log_keeps_recent(a, LogEvent::WaitDequeued(t.id), ev, 4);
    let b = a.log(LogEvent::WaitDequeued(t.id));
    assert(b == s.dequeue_wait(i));
    let c = KernelView {
        ready: if !b.ready.contains(i) && b.ready.len() < MAX_TASKS {
            b.ready.push(i)
        } else {
            b.ready
        },
        ..b
    }.put_task(i as int, t.made_ready());
    lemma_more_recent(b, c, ev, 5, 5);
    lemma_log_keeps_recent(c, LogEvent::TaskStateChanged(t.id, TaskState::Ready), ev, 5);
}

#[verifier::rlimit(40)]
proof fn lemma_run_next_keeps_recent(m: KernelView, prev: usize, ev: LogEvent)
    requires
        m.placed(),
        m.ready.len() > 0,
        recent(m, ev, 6),
    ensures
        recent(m.run_next(prev), ev, 9),
{
    lemma_ready_queue(m);
    let next = m.next_ready()->0;
    let t = m.tasks[next as int];
    let q = KernelView { ready: m.dequeue_ready().ready, ..m };
    lemma_more_recent(m, q, ev, 6, 6);
    lemma_log_keeps_recent(q, LogEvent::ReadyDequeued(t.id), ev, 6);
    let d = m.dequeue_ready();
    lemma_more_recent(q.log(LogEvent::ReadyDequeued(t.id)), d, ev, 7, 7);
    let r = KernelView { current: next, ..d }.put_task(
        next as int,
        t.made_running(),
    ).enter_space_of(next);
    let c = r.counters;
    let k = r.put_counters(
        if next != prev {
            KernelCounters {
                sched_switches: (c.sched_switches + 1) as u64,
                ..c
            }
        } else {
            c
        },
    );
    lemma_more_recent(d, k, ev, 7, 7);
    lemma_log_keeps_recent(k, LogEvent::TaskSwitched(t.id), ev, 7);
    lemma_log_keeps_recent(
        k.log(LogEvent::TaskSwitched(t.id)),
        LogEvent::TaskStateChanged(t.id, TaskState::Running),
        ev,
        8,
    );
}

proof fn lemma_run_idle_keeps_recent(m: KernelView, ev: LogEvent)
    requires
        m.placed(),
        recent(m, ev, 7),
    ensures
        recent(m.run_idle(), ev, 9),
{
    let t = m.tasks[0];
    let k = KernelView {
        current: 0,
        ..m
    }.put_task(0, t.made_running()).emit(
        Effect::SwitchAddressSpaceQuiet { root: m.kernel_root() },
    ).emit(Effect::SetVga { enabled: true });
    lemma_more_recent(m, k, ev, 7, 7);
    lemma_log_keeps_recent(k, LogEvent::TaskSwitched(t.id), ev, 7);
    lemma_log_keeps_recent(
        k.log(LogEvent::TaskSwitched(t.id)),
        LogEvent::TaskStateChanged(t.id, TaskState::Running),
        ev,
        8,
    );
}

/// Whoever is killed is named in the log, with the reason.
#[verifier::rlimit(40)]
pub proof fn law_kill_is_in_the_log(m: KernelView, k: usize, reason: TaskKillReason)
    requires
        m.consistent(),
        is_user(k),
    ensures
        m.kill(k, reason).events.contains(
            LogEvent::TaskKilled { task: m.tasks[k as int].id, reason },
        ),
{
    reveal(KernelView::kill);
    lemma_after_death(m, k, reason);
    let ev = LogEvent::TaskKilled { task: m.tasks[k as int].id, reason };
    let n = after_death(m, k, reason);
    assert(n.events[n.events.len() - 2] == ev);
    assert(recent(n, ev, 2));
    if k == m.current {
        lemma_schedule_keeps_recent(n, ev);
    }
}

/// A page fault of a user task is put out with its address, its error code and where it
/// happened. Where the demo wants it the task is killed for it, and the log tells the same of
/// the fault; otherwise nothing happens to anybody.
#[verifier::rlimit(40)]
pub proof fn law_page_fault_is_fatal_where_wanted(m: KernelView, pf: PageFaultInfo)
    requires
        m.consistent(),
        is_user(m.current),
    ensures
        ({
            let n = m.user_page_fault(pf);
            let c = m.current;
            let reason = TaskKillReason::UserPageFault { addr: pf.addr, err: pf.err, rip: pf.rip };
            &&& m.features.pf_demo ==> n.consistent() && n.state(c) == TaskState::Dead
                && n.events.contains(LogEvent::TaskKilled { task: m.tasks[c as int].id, reason })
            &&& !m.features.pf_demo ==> n.tasks == m.tasks && n.current == c && n.spaces == m.spaces
                && n.events == m.events && says(m, n, "addr", pf.addr) && says(m, n, "err", pf.err)
                && says(m, n, "rip", pf.rip) && says(m, n, "task_id", m.tasks[c as int].id.0)
        }),
{
    let s = m.say_user_fault(pf);
    let reason = TaskKillReason::UserPageFault { addr: pf.addr, err: pf.err, rip: pf.rip };
    lemma_same_places(m, s);
    if m.features.pf_demo {
        law_kill_keeps_consistent(s, m.current, reason);
        law_kill_is_in_the_log(s, m.current, reason);
    } else {
        let n = m.user_page_fault(pf);
        let k = m.effects.len() as int;
        assert(n.effects[k + 1] == (Effect::Say {
            line: LogLine::Value { key: "task_id", value: m.tasks[m.current as int].id.0 },
        }));
        assert(n.effects[k + 2] == (Effect::Say {
            line: LogLine::Value { key: "addr", value: pf.addr },
        }));
        assert(n.effects[k + 3] == (Effect::Say {
            line: LogLine::Value { key: "err", value: pf.err },
        }));
        assert(n.effects[k + 4] == (Effect::Say {
            line: LogLine::Value { key: "rip", value: pf.rip },
        }));
    }
}

/// The third task dies once, right after it has asked to receive, where the demo wants it, and
/// nobody dies otherwise.
#[verifier::rlimit(40)]
pub proof fn law_dead_partner_dies_once(m: KernelView, idx: usize, ep: EndpointId)
    requires
        m.consistent(),
        is_user(idx),
        ep.0 < MAX_ENDPOINTS,
    ensures
        ({
            let id = m.tasks[idx as int].id;
            let (n, r) = m.inject_dead_partner(idx, id, ep);
            let dies = m.features.dead_partner_test && idx == 2 && !m.injected.dead_partner_fired;
            &&& r is Ok
            &&& dies ==> n.consistent() && n.state(2) == TaskState::Dead && n.events.contains(
                LogEvent::TaskKilled {
                    task: id,
                    reason: TaskKillReason::DemoInjected { code: 0xD34D_0001 },
                },
            )
            &&& !dies ==> n == m
        }),
{
    let id = m.tasks[idx as int].id;
    let k = KernelView {
        injected: InjectionState { dead_partner_fired: true, ..m.injected },
        ..m.error(
            "dead_partner_test: kill receiver (DemoInjected) right after IpcRecv",
        ).value("killed_task_id", id.0).value("ep_id", ep.0 as u64).value(
            "demo_code",
            DEAD_PARTNER_CODE,
        )
    };
    lemma_same_places(m, k);
    let reason = TaskKillReason::DemoInjected { code: DEAD_PARTNER_CODE };
    law_kill_keeps_consistent(k, idx, reason);
    law_kill_is_in_the_log(k, idx, reason);
}

} // verus!
