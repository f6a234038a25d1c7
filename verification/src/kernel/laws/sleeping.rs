//! Sleep: whoever goes to sleep stands in the queue of sleepers until it is woken or dies.

use vstd::prelude::*;

use crate::kernel::laws::consistency::{
    is_user, lemma_moved_ready, lemma_same_endpoint, other_user,
};
use crate::kernel::laws::scheduling::{law_schedule_makes_consistent, lemma_woken};
use crate::kernel::model::KernelView;
use crate::kernel::types::{BlockedReason, TaskState, MAX_TASKS};
use crate::seqs::{lemma_filter_from, lemma_push, other_than};

verus! {

proof fn lemma_queue_has_room(m: KernelView)
    requires
        m.placed(),
        is_user(m.current),
        m.state(m.current) == TaskState::Running,
    ensures
        m.waiting.len() < MAX_TASKS,
        !m.waiting.contains(m.current),
{
    if m.waiting.len() >= 2 {
        assert(m.waiting.contains(m.waiting[0]) && m.waiting.contains(m.waiting[1]));
    }
}

/// A user task that goes to sleep is the last in the queue of sleepers. Everything is in its
/// place, and the kernel can go on.
pub proof fn law_sleeper_joins_the_queue(m: KernelView)
    requires
        m.consistent(),
        is_user(m.current),
    ensures
        ({
            let n = m.block_current(BlockedReason::Sleep);
            &&& n.blocked_on(m.current, BlockedReason::Sleep)
            &&& n.waiting == m.waiting.push(m.current)
            &&& n.tasks[other_user(m.current) as int] == m.tasks[other_user(m.current) as int]
            &&& n.placed()
            &&& n.schedule().consistent()
        }),
{
    let c = m.current;
    let n = m.block_current(BlockedReason::Sleep);
    lemma_queue_has_room(m);
    lemma_push(m.waiting, c);
    assert(n.waiting == m.waiting.push(c));
    assert(!m.ready.contains(c));
    lemma_filter_from(m.ready, other_than(c));
    assert(n.ready == m.ready.filter(other_than(c)));
    lemma_moved_ready(m, n, c);
    lemma_same_endpoint(m, n, 0);
    lemma_same_endpoint(m, n, 1);
    assert forall|i: usize| #[trigger]
        n.waiting.contains(i) <==> n.blocked_on(i, BlockedReason::Sleep) by {
        assert(m.waiting.contains(i) <==> m.blocked_on(i, BlockedReason::Sleep));
    }
    law_schedule_makes_consistent(n);
}

/// The timer wakes the sleeper that stands first in the queue, and it alone: that one is
/// ready and has left the queue, the other goes on sleeping.
pub proof fn law_first_sleeper_is_woken(m: KernelView)
    requires
        m.consistent(),
        m.waiting.len() > 0,
    ensures
        ({
            let n = m.wake_one_sleeper();
            let i = m.waiting[0];
            &&& n.consistent()
            &&& m.blocked_on(i, BlockedReason::Sleep)
            &&& n.state(i) == TaskState::Ready
            &&& n.ready == m.ready.push(i)
            &&& !n.waiting.contains(i)
            &&& n.tasks[other_user(i) as int] == m.tasks[other_user(i) as int]
            &&& m.waiting.contains(other_user(i)) ==> n.waiting.contains(other_user(i))
        }),
{
    lemma_woken(m);
}

} // verus!
