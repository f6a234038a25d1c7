//! Scheduling a kernel in which everything is in its place makes it consistent.

use vstd::prelude::*;

use crate::kernel::laws::consistency::{
    is_user, lemma_dequeued, lemma_moved_ready, lemma_same_endpoint,
};
use crate::kernel::model::KernelView;
use crate::kernel::sched::lemma_show_ready_queue;
use crate::kernel::types::{BlockedReason, Effect, LogEvent, Task, TaskState, TASK0_INDEX};
use crate::mem::address_space::AddressSpaceKind;
use crate::seqs::{
    lemma_filter_all, lemma_first_such_is, lemma_first_such_none, lemma_push, lemma_swap_remove,
    swap_remove,
};

verus! {

/// Who is left in the ready queue of a kernel in order: all of them, and two at most.
pub proof fn lemma_ready_queue(m: KernelView)
    requires
        m.placed(),
    ensures
        m.compact_ready() == m,
        m.ready.len() <= 2,
        is_user(m.current) && m.state(m.current) != TaskState::Ready ==> m.ready.len() <= 1,
        forall|j: int| 0 <= j < m.ready.len() ==> is_user(#[trigger] m.ready[j]),
{
    assert forall|j: int| 0 <= j < m.ready.len() implies m.is_ready()(#[trigger] m.ready[j])
        && is_user(m.ready[j]) by {
        assert(m.ready.contains(m.ready[j]));
    }
    lemma_filter_all(m.ready, m.is_ready());
    if m.ready.len() > 2 {
        assert(is_user(m.ready[0]) && is_user(m.ready[1]) && is_user(m.ready[2]));
    }
    if m.ready.len() == 2 {
        assert(is_user(m.ready[0]) && is_user(m.ready[1]));
        assert(m.is_ready()(m.ready[0]) && m.is_ready()(m.ready[1]));
    }
}

/// Two states of a task differ in nothing but whether it runs, why not, and the use of its
/// time slice; a dead task is dead in both, and one who waits goes on waiting for the same,
/// unless it was asleep.
pub open spec fn same_words(a: Task, b: Task) -> bool {
    &&& b == Task {
        state: b.state,
        blocked_reason: b.blocked_reason,
        time_slice_used: b.time_slice_used,
        ..a
    }
    &&& a.state == TaskState::Dead <==> b.state == TaskState::Dead
    &&& a.state == TaskState::Dead ==> a == b
    &&& a.state == TaskState::Blocked && a.blocked_reason != Some(BlockedReason::Sleep)
        ==> b.state == TaskState::Blocked
    &&& b.state == TaskState::Blocked ==> a.state == TaskState::Blocked && a.blocked_reason
        == b.blocked_reason
}

/// Nothing has changed but who runs, who is queued up to run and who sleeps, and the records
/// of that.
pub open spec fn only_scheduled(m: KernelView, n: KernelView) -> bool {
    &&& n == KernelView {
        tasks: n.tasks,
        current: n.current,
        ready: n.ready,
        waiting: n.waiting,
        events: n.events,
        effects: n.effects,
        counters: n.counters,
        ..m
    }
    &&& same_words(m.tasks[0], n.tasks[0])
    &&& same_words(m.tasks[1], n.tasks[1])
    &&& same_words(m.tasks[2], n.tasks[2])
}

/// No user task runs.
pub open spec fn nobody_runs(m: KernelView) -> bool {
    m.state(1) != TaskState::Running && m.state(2) != TaskState::Running
}

pub proof fn lemma_yielded(m: KernelView)
    requires
        m.placed(),
        m.state(m.current) == TaskState::Running,
        is_user(m.current),
    ensures
        m.yield_current().placed(),
        m.yield_current().ready == m.ready.push(m.current),
        m.yield_current().current == m.current,
        m.yield_current().tasks == m.tasks.update(
            m.current as int,
            m.tasks[m.current as int].made_ready(),
        ),
{
    lemma_ready_queue(m);
    let y = m.yield_current();
    assert(!m.ready.contains(m.current));
    lemma_push(m.ready, m.current);
    assert(y.ready == m.ready.push(m.current));
    lemma_moved_ready(m, y, m.current);
    lemma_same_endpoint(m, y, 0);
    lemma_same_endpoint(m, y, 1);
}

pub proof fn lemma_yield(m: KernelView)
    requires
        m.placed(),
    ensures
        m.yield_current().placed(),
        nobody_runs(m.yield_current()),
        m.yield_current().current == m.current,
        only_scheduled(m, m.yield_current()),
        able(m, 1) <==> m.yield_current().ready.contains(1),
        able(m, 2) <==> m.yield_current().ready.contains(2),
{
    if m.state(m.current) == TaskState::Running && m.current != TASK0_INDEX {
        lemma_yielded(m);
    }
    let y = m.yield_current();
    assert(y.ready.contains(1) <==> y.state(1) == TaskState::Ready);
    assert(y.ready.contains(2) <==> y.state(2) == TaskState::Ready);
}

proof fn lemma_run_idle(m: KernelView)
    requires
        m.placed(),
        nobody_runs(m),
    ensures
        m.run_idle().consistent(),
        only_scheduled(m, m.run_idle()),
        m.run_idle().tasks[m.run_idle().current as int].time_slice_used == 0,
{
    let r = m.run_idle();
    lemma_same_endpoint(m, r, 0);
    lemma_same_endpoint(m, r, 1);
}

/// The best position is a position of the queue, and nobody before it has a higher
/// priority.
pub proof fn lemma_best_ready_pos(m: KernelView, n: int)
    requires
        1 <= n <= m.ready.len(),
    ensures
        0 <= m.best_ready_pos(n) < n,
        forall|j: int|
            0 <= j < n ==> m.tasks[#[trigger] m.ready[j] as int].priority
                <= m.tasks[m.ready[m.best_ready_pos(n)] as int].priority,
        forall|j: int|
            0 <= j < m.best_ready_pos(n) ==> m.tasks[#[trigger] m.ready[j] as int].priority
                < m.tasks[m.ready[m.best_ready_pos(n)] as int].priority,
    decreases n,
{
    if n > 1 {
        lemma_best_ready_pos(m, n - 1);
    }
}

proof fn lemma_run_next(m: KernelView, prev: usize)
    requires
        m.placed(),
        nobody_runs(m),
        m.ready.len() > 0,
    ensures
        m.run_next(prev).consistent(),
        only_scheduled(m, m.run_next(prev)),
        m.run_next(prev).tasks[m.run_next(prev).current as int].time_slice_used == 0,
        m.ready.contains(m.run_next(prev).current),
        forall|j: int|
            0 <= j < m.ready.len() ==> m.tasks[#[trigger] m.ready[j] as int].priority
                <= m.tasks[m.run_next(prev).current as int].priority,
{
    lemma_ready_queue(m);
    lemma_best_ready_pos(m, m.ready.len() as int);
    let best = m.best_ready_pos(m.ready.len() as int);
    let next = m.ready[best];
    lemma_swap_remove(m.ready, best);
    assert(m.ready.contains(next));
    let r = m.run_next(prev);
    assert(r.ready == swap_remove(m.ready, best));
    assert forall|i: usize| #[trigger]
        r.ready.contains(i) <==> is_user(i) && r.state(i) == TaskState::Ready by {
        assert(m.ready.contains(i) <==> is_user(i) && m.state(i) == TaskState::Ready);
    }
    lemma_same_endpoint(m, r, 0);
    lemma_same_endpoint(m, r, 1);
}

proof fn lemma_best(m: KernelView, prev: usize)
    requires
        m.placed(),
        nobody_runs(m),
        m.ready.len() > 0,
    ensures
        able(m, m.run_next(prev).current),
        m.ready.contains(1) ==> m.tasks[1].priority
            <= m.tasks[m.run_next(prev).current as int].priority,
        m.ready.contains(2) ==> m.tasks[2].priority
            <= m.tasks[m.run_next(prev).current as int].priority,
        m.ready.contains(1) || m.ready.contains(2),
{
    lemma_run_next(m, prev);
    assert(m.ready.contains(m.ready[0]));
}

/// Saying something leaves everything in its place.
pub proof fn lemma_said(m: KernelView, n: KernelView)
    requires
        m.placed(),
        n == (KernelView { effects: n.effects, ..m }),
    ensures
        n.placed(),
{
    lemma_same_endpoint(m, n, 0);
    lemma_same_endpoint(m, n, 1);
    assert(n.ready_ok());
}

proof fn lemma_run_shown(m: KernelView, prev: usize)
    requires
        m.placed(),
        nobody_runs(m),
        m.ready.len() > 0,
    ensures
        ({
            let r = m.show_ready_queue().run_next(prev);
            &&& r.consistent()
            &&& only_scheduled(m, r)
            &&& r.tasks[r.current as int].time_slice_used == 0
            &&& able(m, r.current)
            &&& m.ready.contains(1) ==> m.tasks[1].priority <= m.tasks[r.current as int].priority
            &&& m.ready.contains(2) ==> m.tasks[2].priority <= m.tasks[r.current as int].priority
            &&& m.ready.contains(1) || m.ready.contains(2)
        }),
{
    lemma_show_ready_queue(m);
    let s = m.show_ready_queue();
    lemma_said(m, s);
    lemma_run_next(s, prev);
    lemma_best(s, prev);
}

/// The screen takes part in logging while the kernel task is current.
pub open spec fn screen_of(m: KernelView) -> Effect {
    Effect::SetVga { enabled: m.space_of(m.current).kind == AddressSpaceKind::Kernel }
}

/// What is said where nobody is ready.
pub const IDLE_LINE: &'static str =
    "schedule_next_task: still no ready tasks; run idle(task0) and continue";

/// What is said before a sleeper is woken for want of anybody else.
pub const TRY_LINE: &'static str = "schedule_next_task: no ready tasks; try wake sleep waiter";

/// Waking the first sleeper makes it ready and leaves everything in its place.
pub proof fn lemma_woken(m: KernelView)
    requires
        m.placed(),
    ensures
        m.waiting.len() == 0 ==> m.wake_one_sleeper() == m,
        m.waiting.len() > 0 ==> ({
            let n = m.wake_one_sleeper();
            let i = m.waiting[0];
            &&& n.placed()
            &&& m.blocked_on(i, BlockedReason::Sleep)
            &&& n.ready == m.ready.push(i)
            &&& n.tasks == m.tasks.update(i as int, m.tasks[i as int].made_ready())
            &&& !n.waiting.contains(i)
            &&& forall|j: usize| #[trigger]
                m.waiting.contains(j) && j != i ==> n.waiting.contains(j)
            &&& n == (KernelView {
                tasks: n.tasks,
                ready: n.ready,
                waiting: n.waiting,
                events: n.events,
                effects: n.effects,
                ..m
            })
        }),
{
    let n = m.wake_one_sleeper();
    if m.waiting.len() == 0 {
        lemma_first_such_none(m.waiting, m.is_sleeper());
    } else {
        let i = m.waiting[0];
        assert(m.waiting.contains(i));
        lemma_first_such_is(m.waiting, m.is_sleeper(), 0);
        let s = m.info("waking 1 blocked task (Sleep only)");
        lemma_dequeued(s, i);
        lemma_ready_queue(m);
        assert(!m.ready.contains(i));
        assert(m.ready.len() < 2) by {
            if m.ready.len() == 2 {
                assert(m.ready.contains(m.ready[0]) && m.ready.contains(m.ready[1]));
            }
        }
        lemma_push(m.ready, i);
        assert(n.ready == m.ready.push(i));
        lemma_moved_ready(m, n, i);
        lemma_same_endpoint(m, n, 0);
        lemma_same_endpoint(m, n, 1);
        assert forall|j: usize| #[trigger]
            n.waiting.contains(j) <==> n.blocked_on(j, BlockedReason::Sleep) by {
            assert(m.waiting.contains(j) <==> m.blocked_on(j, BlockedReason::Sleep));
        }
    }
}

/// A sleeper is woken, if nobody is ready.
pub open spec fn roused(m: KernelView) -> KernelView {
    if m.ready.len() == 0 && m.waiting.len() > 0 {
        m.info(TRY_LINE).wake_one_sleeper()
    } else {
        m
    }
}

/// One who is ready runs next; for want of one a sleeper is woken, and for want of one the
/// kernel task runs.
pub proof fn lemma_schedule_is(m: KernelView)
    requires
        m.placed(),
    ensures
        ({
            let w = roused(m.emit(screen_of(m)).yield_current());
            m.schedule() == if w.ready.len() > 0 {
                w.show_ready_queue().run_next(m.current)
            } else {
                w.info(IDLE_LINE).run_idle()
            }
        }),
{
    let e = m.emit(screen_of(m));
    lemma_said(m, e);
    lemma_ready_queue(e);
    lemma_yield(e);
    let y = e.yield_current();
    lemma_roused(y);
    lemma_ready_queue(roused(y));
    reveal(KernelView::schedule);
}

pub proof fn lemma_roused(m: KernelView)
    requires
        m.placed(),
    ensures
        roused(m).placed(),
        only_scheduled(m, roused(m)),
        roused(m).current == m.current,
        nobody_runs(m) ==> nobody_runs(roused(m)),
        m.ready.len() > 0 || m.waiting.len() == 0 ==> roused(m) == m,
        m.ready.len() == 0 && m.waiting.len() > 0 ==> roused(m).ready == seq![m.waiting[0]],
{
    if m.ready.len() == 0 && m.waiting.len() > 0 {
        let s = m.info(TRY_LINE);
        lemma_said(m, s);
        lemma_woken(s);
        assert(roused(m).ready =~= seq![m.waiting[0]]);
    }
}

/// Scheduling makes a kernel consistent in which everything is in its place. It changes
/// nothing but who runs, who is queued up to run and who sleeps; in particular it does not
/// halt.
pub proof fn law_schedule_makes_consistent(m: KernelView)
    requires
        m.placed(),
    ensures
        m.schedule().consistent(),
        only_scheduled(m, m.schedule()),
{
    lemma_schedule(m);
}

/// A user task that could run.
pub open spec fn able(m: KernelView, idx: usize) -> bool {
    is_user(idx) && (m.state(idx) == TaskState::Ready || m.state(idx) == TaskState::Running)
}

/// Of the user tasks that could run, one with the highest priority runs next. When none
/// could, the first sleeper is woken and runs, and when nobody sleeps the kernel task runs.
pub proof fn law_highest_priority_runs_next(m: KernelView)
    requires
        m.placed(),
    ensures
        able(m, 1) || able(m, 2) ==> able(m, m.schedule().current),
        !able(m, 1) && !able(m, 2) && m.waiting.len() > 0 ==> m.schedule().current
            == m.waiting[0],
        !able(m, 1) && !able(m, 2) && m.waiting.len() == 0 ==> m.schedule().current
            == TASK0_INDEX,
        forall|i: usize|
            able(m, i) ==> (#[trigger] m.tasks[i as int]).priority
                <= m.tasks[m.schedule().current as int].priority,
{
    lemma_schedule(m);
}

proof fn lemma_schedule(m: KernelView)
    requires
        m.placed(),
    ensures
        m.schedule().consistent(),
        only_scheduled(m, m.schedule()),
        m.schedule().tasks[m.schedule().current as int].time_slice_used == 0,
        able(m, 1) || able(m, 2) ==> able(m, m.schedule().current),
        !able(m, 1) && !able(m, 2) && m.waiting.len() > 0 ==> m.schedule().current
            == m.waiting[0],
        !able(m, 1) && !able(m, 2) && m.waiting.len() == 0 ==> m.schedule().current
            == TASK0_INDEX,
        able(m, 1) ==> m.tasks[1].priority <= m.tasks[m.schedule().current as int].priority,
        able(m, 2) ==> m.tasks[2].priority <= m.tasks[m.schedule().current as int].priority,
{
    lemma_schedule_is(m);
    let e = m.emit(screen_of(m));
    lemma_said(m, e);
    lemma_yield(e);
    let y = e.yield_current();
    lemma_roused(y);
    let w = roused(y);
    if y.ready.len() > 0 {
        assert(y.ready.contains(y.ready[0]));
    }
    if w.ready.len() > 0 {
        lemma_run_shown(w, m.current);
        assert(w.ready.contains(m.schedule().current));
    } else {
        lemma_said(w, w.info(IDLE_LINE));
        lemma_run_idle(w.info(IDLE_LINE));
    }
}

/// A slice ends with the quantum: at the end of a tick the task that runs next has used up
/// less than a quantum, and if another user task was queued when the slice ended, whoever
/// runs has a new slice.
pub proof fn law_slice_ends_with_the_quantum(m: KernelView)
    requires
        m.consistent(),
        m.quantum >= 1,
        m.tasks[m.current as int].time_slice_used < m.quantum,
    ensures
        ({
            let r = m.update_time_slice(m.current);
            &&& r.consistent()
            &&& r.tasks[r.current as int].time_slice_used < r.quantum
            &&& m.tasks[m.current as int].time_slice_used + 1 == m.quantum
                ==> r.tasks[r.current as int].time_slice_used == 0
            &&& m.tasks[m.current as int].time_slice_used + 1 < m.quantum ==> r.current
                == m.current
        }),
{
    let ran = m.current;
    let t = m.tasks[ran as int];
    let used = (t.time_slice_used + 1) as u64;
    let n = m.put_task(ran as int, Task { time_slice_used: used, ..t }).value(
        "time_slice_used",
        used,
    );
    lemma_same_endpoint(m, n, 0);
    lemma_same_endpoint(m, n, 1);
    assert(n.consistent());
    if used >= m.quantum {
        let e = n.info("quantum expired").log(LogEvent::QuantumExpired(t.id, used));
        lemma_same_endpoint(m, e, 0);
        lemma_same_endpoint(m, e, 1);
        assert(e.placed());
        if e.ready.len() == 0 {
            let z = m.update_time_slice(ran);
            lemma_same_endpoint(m, z, 0);
            lemma_same_endpoint(m, z, 1);
            assert(z.consistent());
        } else {
            let s = e.info("quantum expired; scheduling next task");
            lemma_said(e, s);
            lemma_schedule(s);
        }
    }
}

} // verus!
