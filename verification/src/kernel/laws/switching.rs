//! What the machine is told when another task comes to run: whose page table is entered, and
//! whether the screen takes part in logging.

use vstd::prelude::*;

use crate::kernel::laws::consistency::{is_user, other_user};
use crate::kernel::laws::scheduling::{
    lemma_best_ready_pos, lemma_ready_queue, lemma_roused, lemma_said, lemma_schedule_is,
    lemma_yield, lemma_yielded, roused, screen_of, IDLE_LINE,
};
use crate::kernel::model::KernelView;
use crate::kernel::sched::lemma_show_ready_queue;
use crate::kernel::types::{Effect, KernelCounters, LogEvent, TaskState, MAX_TASKS};
use crate::mem::address_space::{AddressSpaceKind, AddressSpaceView};

verus! {

/// An order to enter a page table.
pub open spec fn is_switch(e: Effect) -> bool {
    e is SwitchAddressSpace || e is SwitchAddressSpaceQuiet
}

/// The order to enter the page table of this very address space; into the kernel's own the
/// machine goes without a word.
pub open spec fn enters(e: Effect, s: AddressSpaceView) -> bool {
    match e {
        Effect::SwitchAddressSpace { target } => s.kind == AddressSpaceKind::User && target
            == s.root_page_frame,
        Effect::SwitchAddressSpaceQuiet { root } => s.kind == AddressSpaceKind::Kernel && Some(
            root,
        ) == s.root_page_frame,
        _ => false,
    }
}

/// After these orders the machine is in the address space: the last order to enter a page
/// table is for it.
pub open spec fn ends_in(effects: Seq<Effect>, s: AddressSpaceView) -> bool {
    exists|i: int|
        0 <= i < effects.len() && enters(#[trigger] effects[i], s) && forall|j: int|
            i < j < effects.len() ==> !is_switch(#[trigger] effects[j])
}

/// After these orders the screen is on or off: the last order about it says so.
pub open spec fn leaves_screen(effects: Seq<Effect>, on: bool) -> bool {
    exists|i: int|
        0 <= i < effects.len() && #[trigger] effects[i] == (Effect::SetVga { enabled: on })
            && forall|j: int| i < j < effects.len() ==> !(#[trigger] effects[j] is SetVga)
}

/// The orders from `a` on are about who runs and what is said, and about nothing else.
pub open spec fn only_switches(a: Seq<Effect>, b: Seq<Effect>) -> bool {
    &&& a.is_prefix_of(b)
    &&& forall|i: int|
        a.len() <= i < b.len() ==> (#[trigger] b[i] is Say || b[i] is SetVga || is_switch(b[i]))
}

/// The orders from `a` on only say something.
pub open spec fn only_says(a: Seq<Effect>, b: Seq<Effect>) -> bool {
    &&& a.is_prefix_of(b)
    &&& forall|i: int| a.len() <= i < b.len() ==> #[trigger] b[i] is Say
}

/// What holds of the orders of two steps holds of those of both together.
pub proof fn lemma_chain(a: Seq<Effect>, b: Seq<Effect>, c: Seq<Effect>)
    requires
        only_switches(a, b) || only_says(a, b),
        only_switches(b, c) || only_says(b, c),
    ensures
        only_switches(a, c),
        only_says(a, b) && only_says(b, c) ==> only_says(a, c),
{
    assert forall|i: int| 0 <= i < a.len() implies a[i] == c[i] by {
        assert(b[i] == b.subrange(0, a.len() as int)[i]);
        assert(c[i] == c.subrange(0, b.len() as int)[i]);
    }
    assert(a =~= c.subrange(0, a.len() as int));
    assert forall|i: int| a.len() <= i < b.len() implies b[i] == c[i] by {
        assert(c[i] == c.subrange(0, b.len() as int)[i]);
    }
}

#[verifier::rlimit(40)]
proof fn lemma_show_ready_says(m: KernelView, n: int)
    requires
        0 <= n,
    ensures
        only_says(m.effects, m.show_ready(n).effects),
    decreases n,
{
    if n > 0 {
        lemma_show_ready_says(m, n - 1);
        let r = m.show_ready(n - 1);
        assert(only_says(r.effects, m.show_ready(n).effects));
        lemma_chain(m.effects, r.effects, m.show_ready(n).effects);
    } else {
        assert(m.effects =~= m.effects.subrange(0, m.effects.len() as int));
    }
}

proof fn lemma_show_ready_queue_says(m: KernelView)
    ensures
        only_says(m.effects, m.show_ready_queue().effects),
{
    let k = m.info("sched: dump ready_queue before dequeue").value("rq_len", m.ready.len() as u64);
    lemma_show_ready_says(k, m.ready.len() as int);
    assert(only_says(m.effects, k.effects));
    lemma_chain(m.effects, k.effects, m.show_ready_queue().effects);
}

proof fn lemma_roused_says(m: KernelView)
    ensures
        only_says(m.effects, roused(m).effects),
{
}

/// From `m` to `n` another task has come to run, and the machine was told to enter its
/// address space.
pub open spec fn switched(m: KernelView, n: KernelView) -> bool {
    let t = m.tasks[n.current as int];
    let s = m.spaces[t.address_space_id.0 as int];
    &&& ends_in(n.effects, s)
    &&& leaves_screen(n.effects, s.kind == AddressSpaceKind::Kernel)
    &&& only_switches(m.effects, n.effects)
    &&& n.events.len() >= 2
    &&& n.events[n.events.len() - 2] == LogEvent::TaskSwitched(t.id)
    &&& n.events[n.events.len() - 1] == LogEvent::TaskStateChanged(t.id, TaskState::Running)
}

#[verifier::rlimit(40)]
proof fn lemma_run_next_switches(m: KernelView, prev: usize)
    requires
        m.placed(),
        m.ready.len() > 0,
    ensures
        switched(m, m.run_next(prev)),
        is_user(m.run_next(prev).current),
        m.run_next(prev).counters == (KernelCounters {
            sched_switches: if m.run_next(prev).current != prev {
                (m.counters.sched_switches + 1) as u64
            } else {
                m.counters.sched_switches
            },
            ..m.counters
        }),
        m.run_next(prev).current != m.ready[0] ==> m.tasks[m.ready[0] as int].priority
            < m.tasks[m.run_next(prev).current as int].priority,
{
    lemma_ready_queue(m);
    lemma_best_ready_pos(m, m.ready.len() as int);
    let best = m.best_ready_pos(m.ready.len() as int);
    let next = m.ready[best];
    assert(m.ready.contains(next));
    let r = m.run_next(prev);
    let k = m.effects.len() as int;
    let s = m.space_of(next);
    match s.kind {
        AddressSpaceKind::User => {
            assert(enters(r.effects[k + 1], s));
            assert(r.effects[k] == (Effect::SetVga { enabled: false }));
        },
        AddressSpaceKind::Kernel => {
            assert(enters(r.effects[k], s));
            assert(r.effects[k + 1] == (Effect::SetVga { enabled: true }));
        },
    }
}

#[verifier::rlimit(40)]
proof fn lemma_run_idle_switches(m: KernelView)
    requires
        m.placed(),
    ensures
        switched(m, m.run_idle()),
        m.run_idle().counters == m.counters,
{
    let r = m.run_idle();
    let k = m.effects.len() as int;
    assert(enters(r.effects[k], m.spaces[0]));
    assert(r.effects[k + 1] == (Effect::SetVga { enabled: true }));
}

/// The kernel just before somebody comes to run, and what was said on the way there.
#[verifier::rlimit(40)]
proof fn lemma_before_switch(m: KernelView)
    requires
        m.placed(),
    ensures
        ({
            let w = roused(m.emit(screen_of(m)).yield_current());
            let q = if w.ready.len() > 0 {
                w.show_ready_queue()
            } else {
                w.info(IDLE_LINE)
            };
            &&& m.schedule() == if w.ready.len() > 0 {
                q.run_next(m.current)
            } else {
                q.run_idle()
            }
            &&& w.placed()
            &&& q.placed()
            &&& q == KernelView { effects: q.effects, ..w }
            &&& only_switches(m.effects, q.effects)
            &&& q.counters == m.counters
            &&& q.spaces == m.spaces
            &&& forall|i: int|
                0 <= i < MAX_TASKS ==> (#[trigger] q.tasks[i]).id == m.tasks[i].id
                    && q.tasks[i].address_space_id == m.tasks[i].address_space_id
                    && q.tasks[i].priority == m.tasks[i].priority
        }),
{
    lemma_schedule_is(m);
    let e = m.emit(screen_of(m));
    lemma_said(m, e);
    lemma_yield(e);
    let y = e.yield_current();
    assert(y.effects == e.effects);
    lemma_roused(y);
    lemma_roused_says(y);
    let w = roused(y);
    assert(only_switches(m.effects, y.effects));
    lemma_chain(m.effects, y.effects, w.effects);
    if w.ready.len() > 0 {
        let q = w.show_ready_queue();
        lemma_show_ready_queue(w);
        lemma_show_ready_queue_says(w);
        lemma_said(w, q);
        lemma_chain(m.effects, w.effects, q.effects);
    } else {
        let q = w.info(IDLE_LINE);
        lemma_said(w, q);
        assert(only_says(w.effects, q.effects));
        lemma_chain(m.effects, w.effects, q.effects);
    }
}

/// Whoever comes to run, the machine ends up in that task's own address space: a user task
/// in the page table with the root of its address space, the kernel task in the kernel's. The
/// screen takes part in logging exactly while the kernel task runs. The log ends with who
/// runs, and a switch is counted where a user task comes to run that did not before.
#[verifier::rlimit(40)]
pub proof fn law_next_task_runs_in_its_own_space(m: KernelView)
    requires
        m.placed(),
    ensures
        switched(m, m.schedule()),
        m.schedule().counters == (KernelCounters {
            sched_switches: if is_user(m.schedule().current) && m.schedule().current
                != m.current {
                (m.counters.sched_switches + 1) as u64
            } else {
                m.counters.sched_switches
            },
            ..m.counters
        }),
{
    lemma_before_switch(m);
    let w = roused(m.emit(screen_of(m)).yield_current());
    if w.ready.len() > 0 {
        let q = w.show_ready_queue();
        lemma_run_next_switches(q, m.current);
        lemma_chain(m.effects, q.effects, m.schedule().effects);
    } else {
        let q = w.info(IDLE_LINE);
        lemma_run_idle_switches(q);
        lemma_chain(m.effects, q.effects, m.schedule().effects);
    }
}

/// Of two user tasks with the same priority none runs twice in a row while the other is
/// ready: they take turns.
#[verifier::rlimit(40)]
pub proof fn law_equal_priorities_take_turns(m: KernelView)
    requires
        m.consistent(),
        is_user(m.current),
        m.state(other_user(m.current)) == TaskState::Ready,
        m.tasks[1].priority == m.tasks[2].priority,
    ensures
        m.schedule().current == other_user(m.current),
{
    let o = other_user(m.current);
    lemma_before_switch(m);
    let e = m.emit(screen_of(m));
    lemma_said(m, e);
    lemma_ready_queue(e);
    assert(m.ready.contains(o));
    lemma_yielded(e);
    let y = e.yield_current();
    lemma_roused(y);
    let q = y.show_ready_queue();
    lemma_run_next_switches(q, m.current);
    assert(!m.ready.contains(m.current));
    assert(!m.ready.contains(0));
    assert(m.ready.contains(m.ready[0]));
    assert(y.ready[0] == o);
}

} // verus!
