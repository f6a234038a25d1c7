//! The death of a user task leaves a consistent kernel behind: the task is gone for good,
//! and nobody waits for it.

use vstd::prelude::*;

use crate::kernel::endpoint::EndpointView;
use crate::kernel::ipc::{IPC_ERR_DEAD_PARTNER, IPC_ERR_ENDPOINT_CLOSED};
use crate::kernel::laws::consistency::{
    is_user, kernel_kept, lemma_dequeued, lemma_moved_ready, lemma_moved_task, lemma_same_endpoint,
    other_user,
};
use crate::kernel::laws::messages::lemma_same_places;
use crate::kernel::laws::scheduling::law_schedule_makes_consistent;
use crate::kernel::model::KernelView;
use crate::kernel::types::{
    BlockedReason, EndpointId, LogEvent, Task, TaskId, TaskKillReason, TaskState,
};
use crate::mem::address_space::law_clear_leaves_no_user_mapping;
use crate::seqs::{
    lemma_filter_from, lemma_push, lemma_swap_out, other_than, swap_remove,
};

verus! {

/// Everything is in its place, and the user task `k` is dead.
pub open spec fn placed_without(m: KernelView, k: usize) -> bool {
    &&& is_user(k)
    &&& m.loosely_placed()
    &&& m.state(k) == TaskState::Dead
}

pub proof fn lemma_bury(m: KernelView, k: usize)
    requires
        m.placed(),
        is_user(k),
    ensures
        placed_without(m.bury(k), k),
        m.bury(k).current == m.current,
        m.bury(k).tasks == m.tasks.update(k as int, m.tasks[k as int].made_dead()),
        m.bury(k).endpoints[0].is_closed == m.endpoints[0].is_closed,
        m.bury(k).endpoints[1].is_closed == m.endpoints[1].is_closed,
        m.bury(k).endpoints[0].owner == m.endpoints[0].owner,
        m.bury(k).endpoints[1].owner == m.endpoints[1].owner,
        kernel_kept(m, m.bury(k)),
{
    reveal(KernelView::bury);
    let n = m.bury(k);
    let s = m.spaces[k as int];
    lemma_filter_from(m.ready, other_than(k));
    lemma_dequeued(m, k);
    lemma_swap_out(m.endpoints[0].send_queue, k);
    lemma_swap_out(m.endpoints[0].reply_queue, k);
    lemma_swap_out(m.endpoints[1].send_queue, k);
    lemma_swap_out(m.endpoints[1].reply_queue, k);
    law_clear_leaves_no_user_mapping(s);
    assert(s.root_page_frame is Some);
    assert(n.spaces == m.spaces.update(k as int, s.without_user_mappings()));
    assert(n.waiting == m.dequeue_wait(k).waiting);
    assert forall|i: usize| #[trigger]
        n.waiting.contains(i) <==> n.blocked_on(i, BlockedReason::Sleep) by {
        assert(m.waiting.contains(i) <==> m.blocked_on(i, BlockedReason::Sleep));
    }
    assert(n.endpoints[0] == m.endpoints[0].without_task(k));
    assert(n.endpoints[1] == m.endpoints[1].without_task(k));
    assert(s.without_user_mappings().wf());
    lemma_moved_task(m, n, 0, k);
    lemma_moved_task(m, n, 1, k);
    lemma_moved_ready(m, n, k);
}

/// Where nobody but `o` can wait, a queue is empty or holds `o` alone.
proof fn lemma_queue_of_one(q: Seq<usize>, o: usize)
    requires
        q.no_duplicates(),
        forall|i: usize| #[trigger] q.contains(i) ==> i == o,
    ensures
        q.contains(o) ==> q == seq![o],
        !q.contains(o) ==> q == Seq::<usize>::empty(),
{
    if q.len() > 1 {
        assert(q.contains(q[0]) && q.contains(q[1]));
    }
    if q.len() == 1 {
        assert(q.contains(q[0]));
        assert(q =~= seq![o]);
    } else {
        assert(q =~= Seq::empty());
    }
}

/// With one user task dead, only the other one can wait at an endpoint.
proof fn lemma_waiters(m: KernelView, k: usize, e: int)
    requires
        placed_without(m, k),
        e == 0 || e == 1,
    ensures
        ({
            let o = other_user(k);
            let ep = EndpointId(e as usize);
            let end = m.endpoints[e];
            &&& end.recv_waiter == if m.blocked_on(o, BlockedReason::IpcRecv { ep }) {
                Some(o)
            } else {
                None
            }
            &&& end.send_queue == if m.blocked_on(o, BlockedReason::IpcSend { ep }) {
                seq![o]
            } else {
                Seq::empty()
            }
            &&& end.reply_queue == if m.blocked_for_reply(o, e) {
                seq![o]
            } else {
                Seq::empty()
            }
        }),
{
    let o = other_user(k);
    let ep = EndpointId(e as usize);
    let end = m.endpoints[e];
    assert(m.endpoint_ok(e));
    if let Some(i) = end.recv_waiter {
        assert(m.blocked_on(i, BlockedReason::IpcRecv { ep }));
    }
    lemma_queue_of_one(end.send_queue, o);
    lemma_queue_of_one(end.reply_queue, o);
    assert(end.send_queue.contains(o) <==> m.blocked_on(o, BlockedReason::IpcSend { ep }));
    assert(end.reply_queue.contains(o) <==> m.blocked_for_reply(o, e));
}

/// The endpoint is closed and said to be, before its waiters are sent on.
pub open spec fn shut(m: KernelView, e: int) -> KernelView {
    m.put_endpoint(e, m.endpoints[e].closed()).error(
        "ipc: endpoint CLOSED; rescuing waiters",
    ).value("ep_id", e as u64)
}

/// Closing an endpoint sends on the one task that can wait there.
pub proof fn lemma_close_is(m: KernelView, k: usize, e: int)
    requires
        placed_without(m, k),
        e == 0 || e == 1,
        !m.endpoints[e].is_closed,
    ensures
        ({
            let o = other_user(k);
            let c = shut(m, e);
            m.close_endpoint(EndpointId(e as usize)) == match m.waits_at(o, e) {
                Some(r) => c.rescue_at_close(o, r is IpcSend),
                None => c,
            }
        }),
{
    let o = other_user(k);
    let end = m.endpoints[e];
    let c = shut(m, e);
    reveal(KernelView::close_endpoint);
    lemma_waiters(m, k, e);
    assert(m.user_task_ok(o));
    reveal_with_fuel(KernelView::rescue_all_at_close, 2);
    assert(seq![o].last() == o);
    assert(seq![o].drop_last() =~= Seq::<usize>::empty());
}

/// The state in which closing an endpoint leaves the kernel and its waiter.
pub open spec fn closed_well(m: KernelView, n: KernelView, k: usize, e: int) -> bool {
    let o = other_user(k);
    &&& placed_without(n, k)
    &&& n.endpoints[e].is_closed
    &&& n.endpoints[1 - e] == m.endpoints[1 - e]
    &&& n.endpoints[e].owner == m.endpoints[e].owner
    &&& n.current == m.current
    &&& n.tasks[k as int] == m.tasks[k as int]
    &&& n.tasks[0] == m.tasks[0]
    &&& m.waits_at(o, e) is None ==> n.tasks[o as int] == m.tasks[o as int]
    &&& m.waits_at(o, e) is Some ==> n.state(o) == TaskState::Ready
        && n.tasks[o as int].last_reply == Some(IPC_ERR_ENDPOINT_CLOSED)
    &&& m.waits_at(o, e) matches Some(r) ==> n.tasks[o as int].pending_send_msg == if r is IpcSend {
        None
    } else {
        m.tasks[o as int].pending_send_msg
    }
    &&& kernel_kept(m, n)
}

proof fn lemma_close_nobody(m: KernelView, k: usize, e: int)
    requires
        placed_without(m, k),
        e == 0 || e == 1,
        !m.endpoints[e].is_closed,
        m.waits_at(other_user(k), e) is None,
    ensures
        closed_well(m, shut(m, e), k, e),
{
    let o = other_user(k);
    let n = shut(m, e);
    lemma_waiters(m, k, e);
    assert(m.endpoint_ok(e));
    lemma_same_endpoint(m, n, 1 - e);
    lemma_moved_task(m, n, e, o);
    assert(n.ready_ok());
}

proof fn lemma_close_somebody(m: KernelView, k: usize, e: int, drop_message: bool)
    requires
        placed_without(m, k),
        e == 0 || e == 1,
        !m.endpoints[e].is_closed,
        m.waits_at(other_user(k), e) is Some,
        drop_message == m.waits_at(other_user(k), e)->0 is IpcSend,
    ensures
        closed_well(m, shut(m, e).rescue_at_close(other_user(k), drop_message), k, e),
{
    let o = other_user(k);
    let n = shut(m, e).rescue_at_close(o, drop_message);
    lemma_waiters(m, k, e);
    assert(m.endpoint_ok(e));
    assert(!m.ready.contains(o));
    assert(!m.ready.contains(k));
    lemma_queue_of_one(m.ready, o);
    lemma_push(m.ready, o);
    assert(n.ready == m.ready.push(o));
    lemma_moved_ready(m, n, o);
    lemma_same_endpoint(m, n, 1 - e);
    lemma_moved_task(m, n, e, o);
}

pub proof fn lemma_close(m: KernelView, k: usize, e: int)
    requires
        placed_without(m, k),
        e == 0 || e == 1,
    ensures
        closed_well(m, m.close_endpoint(EndpointId(e as usize)), k, e),
{
    let o = other_user(k);
    if m.endpoints[e].is_closed {
        reveal(KernelView::close_endpoint);
        lemma_waiters(m, k, e);
        assert(m.endpoint_ok(e));
        assert(m.user_task_ok(o));
    } else {
        lemma_close_is(m, k, e);
        match m.waits_at(o, e) {
            Some(r) => lemma_close_somebody(m, k, e, r is IpcSend),
            None => lemma_close_nobody(m, k, e),
        }
    }
}

/// The kernel after the one task that can wait for the dead one's reply was sent on.
pub open spec fn released(m: KernelView, k: usize) -> KernelView {
    let o = other_user(k);
    let dead = m.tasks[k as int].id;
    if m.blocked_for_reply(o, 0) {
        released_at(m, o, 0, dead)
    } else if m.blocked_for_reply(o, 1) {
        released_at(m, o, 1, dead)
    } else {
        m
    }
}

pub open spec fn released_at(m: KernelView, o: usize, e: int, dead: TaskId) -> KernelView {
    m.put_endpoint(e, EndpointView { reply_queue: Seq::empty(), ..m.endpoints[e] }).put_task(
        o as int,
        Task {
            blocked_reason: None,
            last_reply: Some(IPC_ERR_DEAD_PARTNER),
            ..m.tasks[o as int]
        },
    ).say_released(m.tasks[o as int].id, dead).wake(o)
}

pub proof fn lemma_release_is(m: KernelView, k: usize)
    requires
        placed_without(m, k),
    ensures
        m.release_reply_waiters(m.tasks[k as int].id) == released(m, k),
{
    let o = other_user(k);
    let id = m.tasks[k as int].id;
    reveal(KernelView::release_reply_waiters);
    lemma_waiters(m, k, 0);
    lemma_waiters(m, k, 1);
    assert(m.user_task_ok(o));
    reveal_with_fuel(KernelView::release_from, 3);
    reveal_with_fuel(KernelView::wake_all, 3);
    assert(swap_remove(seq![o], 0) =~= Seq::<usize>::empty());
    assert(Seq::<usize>::empty().push(o) =~= seq![o]);
    assert(seq![o].drop_last() =~= Seq::<usize>::empty());
}

proof fn lemma_released_at(m: KernelView, k: usize, e: int)
    requires
        placed_without(m, k),
        e == 0 || e == 1,
        m.blocked_for_reply(other_user(k), e),
    ensures
        ({
            let o = other_user(k);
            let n = released_at(m, o, e, m.tasks[k as int].id);
            &&& n.placed()
            &&& n.tasks[k as int] == m.tasks[k as int]
            &&& n.tasks[0] == m.tasks[0]
            &&& n.current == m.current
            &&& n.endpoints[0].is_closed == m.endpoints[0].is_closed
            &&& n.endpoints[1].is_closed == m.endpoints[1].is_closed
            &&& n.state(o) == TaskState::Ready
            &&& n.tasks[o as int].last_reply == Some(IPC_ERR_DEAD_PARTNER)
            &&& kernel_kept(m, n)
        }),
{
    let o = other_user(k);
    let n = released_at(m, o, e, m.tasks[k as int].id);
    assert(m.user_task_ok(o));
    lemma_waiters(m, k, e);
    assert(m.endpoint_ok(e));
    assert(!m.ready.contains(o));
    assert(!m.ready.contains(k));
    lemma_queue_of_one(m.ready, o);
    lemma_push(m.ready, o);
    assert(n.ready == m.ready.push(o));
    lemma_moved_ready(m, n, o);
    lemma_same_endpoint(m, n, 1 - e);
    assert(!m.blocked_on(o, BlockedReason::IpcRecv { ep: EndpointId(e as usize) }));
    lemma_moved_task(m, n, e, o);
}

pub proof fn lemma_release(m: KernelView, k: usize)
    requires
        placed_without(m, k),
    ensures
        ({
            let o = other_user(k);
            let n = m.release_reply_waiters(m.tasks[k as int].id);
            &&& n.placed()
            &&& n.tasks[k as int] == m.tasks[k as int]
            &&& n.tasks[0] == m.tasks[0]
            &&& n.current == m.current
            &&& n.endpoints[0].is_closed == m.endpoints[0].is_closed
            &&& n.endpoints[1].is_closed == m.endpoints[1].is_closed
            &&& m.blocked_for_reply(o, 0) || m.blocked_for_reply(o, 1) ==> n.state(o)
                == TaskState::Ready && n.tasks[o as int].last_reply == Some(IPC_ERR_DEAD_PARTNER)
            &&& !m.blocked_for_reply(o, 0) && !m.blocked_for_reply(o, 1) ==> n.tasks[o as int]
                == m.tasks[o as int]
            &&& kernel_kept(m, n)
        }),
{
    lemma_release_is(m, k);
    if m.blocked_for_reply(other_user(k), 0) {
        lemma_released_at(m, k, 0);
    } else if m.blocked_for_reply(other_user(k), 1) {
        lemma_released_at(m, k, 1);
    } else {
        assert(m.user_task_ok(other_user(k)));
    }
}

/// The kernel after a user task has died, before another one is scheduled.
pub open spec fn after_death(m: KernelView, k: usize, reason: TaskKillReason) -> KernelView {
    let id = m.tasks[k as int].id;
    m.count_kill(reason).bury(k).close_endpoints_of(id).release_reply_waiters(id).log(
        LogEvent::TaskKilled { task: id, reason },
    ).log(LogEvent::TaskStateChanged(id, TaskState::Dead))
}

/// What a task that waited for the dead one is told: that the endpoint has closed, if it
/// was the dead one's, and otherwise that the partner is dead.
pub open spec fn word_for_waiter(m: KernelView, k: usize, e: int) -> u64 {
    if m.endpoints[e].owner == Some(m.tasks[k as int].id) {
        IPC_ERR_ENDPOINT_CLOSED
    } else {
        IPC_ERR_DEAD_PARTNER
    }
}

/// The state in which closing all endpoints of the dead task leaves the other one.
pub proof fn lemma_close_all(m: KernelView, k: usize)
    requires
        placed_without(m, k),
    ensures
        ({
            let o = other_user(k);
            let id = m.tasks[k as int].id;
            let n = m.close_endpoints_of(id);
            &&& placed_without(n, k)
            &&& n.current == m.current
            &&& n.tasks[k as int] == m.tasks[k as int]
            &&& n.tasks[0] == m.tasks[0]
            &&& kernel_kept(m, n)
            &&& m.endpoints[0].owner == Some(id) ==> n.endpoints[0].is_closed
            &&& m.endpoints[1].owner == Some(id) ==> n.endpoints[1].is_closed
            &&& if (m.endpoints[0].owner == Some(id) && m.waits_at(o, 0) is Some) || (
            m.endpoints[1].owner == Some(id) && m.waits_at(o, 1) is Some) {
                n.state(o) == TaskState::Ready && n.tasks[o as int].last_reply == Some(
                    IPC_ERR_ENDPOINT_CLOSED,
                )
            } else {
                n.tasks[o as int] == m.tasks[o as int]
            }
        }),
{
    let id = m.tasks[k as int].id;
    let f = if m.endpoints[0].owner == Some(id) {
        m.close_endpoint(m.endpoints[0].id)
    } else {
        m
    };
    if m.endpoints[0].owner == Some(id) {
        lemma_close(m, k, 0);
    }
    if m.endpoints[1].owner == Some(id) {
        lemma_close(f, k, 1);
    }
}

pub proof fn lemma_after_death(m: KernelView, k: usize, reason: TaskKillReason)
    requires
        m.placed(),
        is_user(k),
    ensures
        ({
            let o = other_user(k);
            let id = m.tasks[k as int].id;
            let n = after_death(m, k, reason);
            &&& n.placed()
            &&& n.current == m.current
            &&& n.state(k) == TaskState::Dead
            &&& n.tasks[0] == m.tasks[0]
            &&& m.state(o) != TaskState::Blocked ==> n.tasks[o as int] == m.tasks[o as int]
            &&& forall|e: int|
                (e == 0 || e == 1) && #[trigger] m.blocked_for_reply(o, e) ==> n.state(o)
                    == TaskState::Ready && n.tasks[o as int].last_reply == Some(
                    word_for_waiter(m, k, e),
                )
            &&& forall|e: int|
                (e == 0 || e == 1) && (#[trigger] m.endpoints[e]).owner == Some(id)
                    ==> n.endpoints[e].is_closed
            &&& forall|e: int|
                (e == 0 || e == 1) && (#[trigger] m.endpoints[e]).owner == Some(id) && m.waits_at(
                    o,
                    e,
                ) is Some ==> n.state(o) == TaskState::Ready && n.tasks[o as int].last_reply
                    == Some(IPC_ERR_ENDPOINT_CLOSED)
            &&& kernel_kept(m, n)
        }),
{
    let o = other_user(k);
    let id = m.tasks[k as int].id;
    let c = m.count_kill(reason);
    lemma_same_places(m, c);
    let b = c.bury(k);
    lemma_bury(c, k);
    assert(m.user_task_ok(o));
    lemma_close_all(b, k);
    let g = b.close_endpoints_of(id);
    lemma_release(g, k);
    let r = g.release_reply_waiters(id);
    lemma_same_places(r, after_death(m, k, reason));
}

/// Killing a user task keeps the kernel consistent, and the task is dead.
pub proof fn law_kill_keeps_consistent(m: KernelView, k: usize, reason: TaskKillReason)
    requires
        m.consistent(),
        is_user(k),
    ensures
        m.kill(k, reason).consistent(),
        m.kill(k, reason).state(k) == TaskState::Dead,
        kernel_kept(m, m.kill(k, reason)),
{
    reveal(KernelView::kill);
    lemma_after_death(m, k, reason);
    let n = after_death(m, k, reason);
    if k == m.current {
        law_schedule_makes_consistent(n);
    }
}

/// Whoever waits for the reply of a task that dies is sent on, with a word that says why.
pub proof fn law_waiter_of_dead_is_sent_on(
    m: KernelView,
    k: usize,
    reason: TaskKillReason,
    e: int,
)
    requires
        m.consistent(),
        is_user(k),
        e == 0 || e == 1,
        m.blocked_for_reply(other_user(k), e),
    ensures
        m.kill(k, reason).state(other_user(k)) == TaskState::Ready || m.kill(k, reason).state(
            other_user(k),
        ) == TaskState::Running,
        m.kill(k, reason).tasks[other_user(k) as int].last_reply == Some(word_for_waiter(m, k, e)),
{
    reveal(KernelView::kill);
    lemma_after_death(m, k, reason);
    let n = after_death(m, k, reason);
    if k == m.current {
        law_schedule_makes_consistent(n);
    }
}

/// The endpoints of a task that dies close, and whoever waits there is sent on with a word
/// that says so.
pub proof fn law_endpoints_close_with_their_owner(
    m: KernelView,
    k: usize,
    reason: TaskKillReason,
    e: int,
)
    requires
        m.consistent(),
        is_user(k),
        e == 0 || e == 1,
        m.endpoints[e].owner == Some(m.tasks[k as int].id),
    ensures
        m.kill(k, reason).endpoints[e].is_closed,
        m.waits_at(other_user(k), e) is Some ==> m.kill(k, reason).tasks[other_user(
            k,
        ) as int].last_reply == Some(IPC_ERR_ENDPOINT_CLOSED) && m.kill(k, reason).state(
            other_user(k),
        ) != TaskState::Blocked,
{
    reveal(KernelView::kill);
    lemma_after_death(m, k, reason);
    let n = after_death(m, k, reason);
    if k == m.current {
        law_schedule_makes_consistent(n);
    }
}

/// Closing an endpoint leaves it empty, sends the task that waited there on with a word that
/// says so, drops a message that was not taken, and leaves the other endpoint alone.
pub proof fn law_close_sends_the_waiter_on(m: KernelView, k: usize, e: int)
    requires
        placed_without(m, k),
        e == 0 || e == 1,
        !m.endpoints[e].is_closed,
    ensures
        ({
            let o = other_user(k);
            let n = m.close_endpoint(EndpointId(e as usize));
            let end = n.endpoints[e];
            &&& end.is_closed && end.recv_waiter is None && end.send_queue.len() == 0
                && end.reply_queue.len() == 0
            &&& n.endpoints[1 - e] == m.endpoints[1 - e]
            &&& m.waits_at(o, e) matches Some(r) ==> {
                &&& n.state(o) == TaskState::Ready
                &&& n.tasks[o as int].last_reply == Some(IPC_ERR_ENDPOINT_CLOSED)
                &&& n.tasks[o as int].blocked_reason is None
                &&& r is IpcSend ==> n.tasks[o as int].pending_send_msg is None
            }
            &&& m.waits_at(o, e) is None ==> n.tasks == m.tasks
        }),
{
    lemma_close(m, k, e);
    lemma_close_is(m, k, e);
    let n = m.close_endpoint(EndpointId(e as usize));
    assert(n.endpoint_ok(e));
}

} // verus!
