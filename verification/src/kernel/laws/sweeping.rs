//! Queues are swept of entries that do not belong there, and nobody is lost: whoever leaves
//! a queue without being served is sent on.

use vstd::prelude::*;

use crate::kernel::endpoint::EndpointView;
use crate::kernel::ipc::IPC_ERR_DEAD_PARTNER;
use crate::kernel::laws::messages::lemma_nothing_to_sweep;
use crate::kernel::model::KernelView;
use crate::kernel::trace::{IpcPathEvent, IpcSyscallKind};
use crate::kernel::types::{
    BlockedReason, Effect, EndpointId, LogEvent, TaskId, TaskState, MAX_ENDPOINTS, MAX_TASKS,
};
use crate::seqs::{
    last_such, lemma_filter_from, lemma_last_such, lemma_last_such_is, lemma_last_such_none,
    lemma_swap_remove,
};

verus! {

/// A task that is alive need not wait for anything; one that was blocked is ready.
pub open spec fn sent_on(m: KernelView, n: KernelView, idx: usize) -> bool {
    &&& n.state(idx) != TaskState::Blocked
    &&& n.tasks[idx as int].blocked_reason is None
    &&& m.state(idx) == TaskState::Blocked ==> n.state(idx) == TaskState::Ready
    &&& n.tasks[idx as int].last_reply == Some(IPC_ERR_DEAD_PARTNER)
    &&& n.tasks[idx as int].pending_send_msg is None
}

/// A task is sent on, and the others stay as they are.
proof fn lemma_rescued(m: KernelView, idx: usize)
    requires
        m.tasks.len() == MAX_TASKS,
    ensures
        ({
            let n = m.rescue(idx, IPC_ERR_DEAD_PARTNER);
            &&& n.tasks.len() == MAX_TASKS
            &&& n.endpoints == m.endpoints
            &&& idx < MAX_TASKS && m.state(idx) != TaskState::Dead ==> sent_on(m, n, idx)
            &&& idx < MAX_TASKS && m.state(idx) != TaskState::Blocked ==> n.state(idx)
                == m.state(idx)
            &&& forall|i: int| 0 <= i < MAX_TASKS && i != idx ==> n.tasks[i] == m.tasks[i]
            &&& idx < MAX_TASKS && m.state(idx) == TaskState::Dead ==> n.tasks[idx as int]
                == m.tasks[idx as int]
        }),
{
}

/// Whoever of `waiters` is alive is sent on; the others stay as they are.
proof fn lemma_rescued_all(m: KernelView, waiters: Seq<usize>)
    requires
        m.tasks.len() == MAX_TASKS,
    ensures
        ({
            let n = m.rescue_all(waiters, IPC_ERR_DEAD_PARTNER);
            &&& n.tasks.len() == MAX_TASKS
            &&& n.endpoints == m.endpoints
            &&& forall|i: usize|
                i < MAX_TASKS && #[trigger] waiters.contains(i) && m.state(i) != TaskState::Dead
                    ==> sent_on(m, n, i)
            &&& forall|i: usize|
                #![trigger n.tasks[i as int]]
                #![trigger waiters.contains(i)]
                i < MAX_TASKS && (!waiters.contains(i) || m.state(i) == TaskState::Dead)
                    ==> n.tasks[i as int] == m.tasks[i as int]
        }),
    decreases waiters.len(),
{
    if waiters.len() > 0 {
        let rest = waiters.drop_last();
        let last = waiters.last();
        let k = m.rescue_all(rest, IPC_ERR_DEAD_PARTNER);
        lemma_rescued_all(m, rest);
        let w = k.say_broken_waiter(last);
        lemma_rescued(w, last);
        assert forall|i: usize| #[trigger] waiters.contains(i) implies rest.contains(i) || i
            == last by {
            let j = choose|j: int| 0 <= j < waiters.len() && waiters[j] == i;
            if j < rest.len() {
                assert(rest[j] == i);
            }
        }
        assert forall|i: usize| #[trigger] rest.contains(i) implies waiters.contains(i) by {
            let j = choose|j: int| 0 <= j < rest.len() && rest[j] == i;
            assert(waiters[j] == i);
        }
        assert(waiters[waiters.len() - 1] == last && waiters.contains(last));
        let n = w.rescue(last, IPC_ERR_DEAD_PARTNER);
        assert(n == m.rescue_all(waiters, IPC_ERR_DEAD_PARTNER));
        if last < MAX_TASKS {
            if rest.contains(last) && m.state(last) != TaskState::Dead {
                assert(sent_on(m, k, last));
            } else {
                assert(k.tasks[last as int] == m.tasks[last as int]);
            }
            assert(m.state(last) != TaskState::Dead ==> sent_on(m, n, last));
        }
        assert forall|i: usize|
            i < MAX_TASKS && #[trigger] waiters.contains(i) && m.state(i)
                != TaskState::Dead implies sent_on(m, n, i) by {
            if i != last {
                assert(rest.contains(i));
                assert(sent_on(m, k, i));
                assert(n.tasks[i as int] == k.tasks[i as int]);
            }
        }
        assert forall|i: usize|
            #![trigger n.tasks[i as int]]
            #![trigger waiters.contains(i)]
            i < MAX_TASKS && (!waiters.contains(i) || m.state(i)
                == TaskState::Dead) implies n.tasks[i as int] == m.tasks[i as int] by {
            assert(!rest.contains(i) || m.state(i) == TaskState::Dead);
            assert(k.tasks[i as int] == m.tasks[i as int]);
        }
    }
}

/// Who takes a waiter for a reply leaves nobody behind. An entry of the queue that does not
/// wait for a reply there leaves the queue, and if it is alive it is sent on, whether or not
/// a waiter is found; if it is dead it gets nothing. The others stay as they were, and in
/// the queue, but for the one who is taken.
pub proof fn law_broken_reply_waiters_are_sent_on(m: KernelView, ep: EndpointId, partner: TaskId)
    requires
        m.wf(),
        ep.0 < MAX_ENDPOINTS,
    ensures
        ({
            let (n, taken) = m.take_reply_waiter(ep, partner);
            let before = m.endpoints[ep.0 as int].reply_queue;
            let after = n.endpoints[ep.0 as int].reply_queue;
            &&& forall|i: usize| #[trigger]
                before.contains(i) && !m.waits_for_any_reply(ep)(i) ==> !after.contains(i) && (i
                    < MAX_TASKS && m.state(i) != TaskState::Dead ==> sent_on(m, n, i)) && (i
                    < MAX_TASKS && m.state(i) == TaskState::Dead ==> n.tasks[i as int]
                    == m.tasks[i as int])
            &&& forall|i: usize| #[trigger]
                before.contains(i) && m.waits_for_any_reply(ep)(i) ==> n.tasks[i as int]
                    == m.tasks[i as int] && (taken != Some(i) ==> after.contains(i))
            &&& taken matches Some(i) ==> before.contains(i) && m.waits_for_reply(ep, partner)(i)
            &&& taken is None ==> (forall|i: usize| #[trigger]
                before.contains(i) ==> !m.waits_for_reply(ep, partner)(i))
        }),
{
    let e = m.endpoints[ep.0 as int];
    let q = e.reply_queue;
    let p = m.waits_for_any_reply(ep);
    let b = m.broken_reply_entry(ep);
    lemma_filter_from(q, p);
    lemma_filter_from(q, b);
    let k = m.put_endpoint(ep.0 as int, EndpointView { reply_queue: q.filter(p), ..e });
    lemma_rescued_all(k, q.filter(b));
    let s = m.sweep_reply_queue(ep);
    assert forall|i: usize| #[trigger] q.contains(i) && p(i) implies s.tasks[i as int]
        == m.tasks[i as int] by {
        assert(!q.filter(b).contains(i));
    }
    let f = q.filter(p);
    assert(s.endpoints[ep.0 as int].reply_queue == f);
    let w = s.waits_for_reply(ep, partner);
    lemma_last_such(f, w);
    assert forall|i: usize| #[trigger] q.contains(i) && m.waits_for_reply(ep, partner)(i) implies w(
        i,
    ) by {
        assert(p(i));
    }
    match last_such(f, w) {
        Some(pos) => {
            lemma_swap_remove(f, pos);
            assert(f.contains(f[pos]));
        },
        None => {
            assert forall|i: usize| #[trigger] q.contains(i) implies !m.waits_for_reply(
                ep,
                partner,
            )(i) by {
                if m.waits_for_reply(ep, partner)(i) {
                    assert(f.contains(i));
                    let j = choose|j: int| 0 <= j < f.len() && f[j] == i;
                    assert(w(f[j]));
                }
            }
        },
    }
    assert forall|i: usize| #[trigger] q.contains(i) && !p(i) implies !f.contains(i) && (i
        < MAX_TASKS && m.state(i) != TaskState::Dead ==> sent_on(m, s, i)) && (i < MAX_TASKS
        && m.state(i) == TaskState::Dead ==> s.tasks[i as int] == m.tasks[i as int]) by {
        assert(b(i));
        assert(q.filter(b).contains(i));
        assert(k.state(i) == m.state(i) || i >= MAX_TASKS);
        if i < MAX_TASKS && m.state(i) != TaskState::Dead {
            assert(sent_on(k, s, i));
        }
    }
    let (n, taken) = m.take_reply_waiter(ep, partner);
    assert(n.tasks == s.tasks);
    if let Some(i) = taken {
        assert(f.contains(i));
        assert(q.contains(i) && p(i));
        assert(w(i));
        assert(m.waits_for_reply(ep, partner)(i));
    }
    assert forall|i: usize| #[trigger] q.contains(i) && p(i) && taken != Some(
        i,
    ) implies n.endpoints[ep.0 as int].reply_queue.contains(i) by {
        assert(f.contains(i));
    }
}

/// A reply for which nobody waits does nothing but trace that: where everybody in the queue
/// waits for the reply of somebody else, they all go on waiting.
pub proof fn law_reply_without_waiter_does_nothing(m: KernelView, ep: EndpointId, msg: u64)
    requires
        m.wf(),
        m.ipc_refused(IpcSyscallKind::Reply, ep) is None,
        forall|j: int|
            0 <= j < m.endpoints[ep.0 as int].reply_queue.len() ==> m.waits_for_any_reply(ep)(
                #[trigger] m.endpoints[ep.0 as int].reply_queue[j],
            ) && !m.waits_for_reply(ep, m.tasks[m.current as int].id)(
                m.endpoints[ep.0 as int].reply_queue[j],
            ),
    ensures
        m.ipc_reply(ep, msg) == m.emit(Effect::IpcPath { event: IpcPathEvent::ReplyNoWaiter }),
{
    reveal(KernelView::ipc_reply);
    lemma_nothing_to_sweep(m, ep);
    lemma_last_such_none(
        m.endpoints[ep.0 as int].reply_queue,
        m.waits_for_reply(ep, m.tasks[m.current as int].id),
    );
}

/// Nothing is delivered to a dead task: where one stands at an endpoint as its receiver,
/// the delivery is broken off with a line in the log, and the sender goes on to wait for
/// another receiver.
pub proof fn law_nothing_is_delivered_to_the_dead(
    m: KernelView,
    ep: EndpointId,
    msg: u64,
    dead: usize,
)
    requires
        m.wf(),
        m.ipc_refused(IpcSyscallKind::Send, ep) is None,
        m.endpoints[ep.0 as int].recv_waiter == Some(dead),
        dead < MAX_TASKS,
        m.state(dead) == TaskState::Dead,
    ensures
        ({
            let l = m.log(
                LogEvent::IpcSendCalled { task: m.tasks[m.current as int].id, ep, msg },
            );
            let s = l.error("ipc_send_fastpath: recv_waiter is DEAD; abort deliver");
            &&& l.send_fast(ep, msg) == (s, false)
            &&& m.ipc_send(ep, msg) == s.send_slow(ep, msg)
            &&& s.tasks == m.tasks
            &&& s.endpoints == m.endpoints
        }),
{
    reveal(KernelView::ipc_send);
}

/// What `n` made of the tasks of `m`: each one is as it was, or sent on.
pub open spec fn kept_or_sent_on(m: KernelView, n: KernelView) -> bool {
    forall|i: usize|
        i < MAX_TASKS ==> (#[trigger] n.tasks[i as int]) == m.tasks[i as int] || (m.state(i)
            != TaskState::Dead && sent_on(m, n, i) && (m.state(i) != TaskState::Blocked ==> n.state(
            i,
        ) == m.state(i)))
}

proof fn lemma_dropped(m: KernelView, ep: EndpointId)
    requires
        m.tasks.len() == MAX_TASKS,
        ep.0 < m.endpoints.len(),
    ensures
        ({
            let n = m.drop_broken_senders(ep);
            let before = m.endpoints[ep.0 as int].send_queue;
            let after = n.endpoints[ep.0 as int].send_queue;
            &&& n.tasks.len() == MAX_TASKS
            &&& after.len() <= before.len()
            &&& after == before.take(after.len() as int)
            &&& after.len() > 0 ==> m.waits_to_send(ep)(after.last())
            &&& forall|j: int|
                after.len() <= j < before.len() ==> !m.waits_to_send(ep)(#[trigger] before[j]) && (
                before[j] < MAX_TASKS && m.state(before[j]) != TaskState::Dead ==> sent_on(
                    m,
                    n,
                    before[j],
                ))
            &&& forall|i: usize|
                i < MAX_TASKS && m.waits_to_send(ep)(i) ==> #[trigger] n.tasks[i as int]
                    == m.tasks[i as int]
            &&& kept_or_sent_on(m, n)
        }),
    decreases m.endpoints[ep.0 as int].send_queue.len(),
{
    let e = m.endpoints[ep.0 as int];
    let before = e.send_queue;
    if before.len() == 0 || m.waits_to_send(ep)(before.last()) {
        assert(before =~= before.take(before.len() as int));
    } else {
        let last = before.last();
        let k = m.put_endpoint(
            ep.0 as int,
            EndpointView { send_queue: before.drop_last(), ..e },
        ).say_broken_sender(last, ep);
        let r = k.rescue(last, IPC_ERR_DEAD_PARTNER);
        lemma_rescued(k, last);
        lemma_dropped(r, ep);
        let n = m.drop_broken_senders(ep);
        let after = n.endpoints[ep.0 as int].send_queue;
        assert(before.drop_last().take(after.len() as int) =~= before.take(after.len() as int));
        assert forall|i: usize| i < MAX_TASKS && i != last implies r.tasks[i as int]
            == m.tasks[i as int] by {}
        if last < MAX_TASKS {
            assert(n.tasks[last as int] == r.tasks[last as int] || sent_on(r, n, last));
        }
        assert forall|j: int| after.len() <= j < before.len() implies !m.waits_to_send(ep)(
            #[trigger] before[j],
        ) && (before[j] < MAX_TASKS && m.state(before[j]) != TaskState::Dead ==> sent_on(
            m,
            n,
            before[j],
        )) by {
            if before[j] != last {
                assert(before.drop_last()[j] == before[j]);
            }
        }
        if after.len() > 0 {
            assert(r.waits_to_send(ep)(after.last()));
        }
    }
}

/// An entry that leaves the queue of senders unserved, because it does not wait to send or
/// has no message, is sent on if it is alive.
pub proof fn law_broken_senders_are_sent_on(m: KernelView, ep: EndpointId)
    requires
        m.wf(),
        ep.0 < MAX_ENDPOINTS,
    ensures
        ({
            let n = m.drop_broken_senders(ep);
            let before = m.endpoints[ep.0 as int].send_queue;
            let after = n.endpoints[ep.0 as int].send_queue;
            &&& n.tasks.len() == MAX_TASKS
            &&& after.len() <= before.len()
            &&& after == before.take(after.len() as int)
            &&& after.len() > 0 ==> m.waits_to_send(ep)(after.last())
            &&& forall|j: int|
                after.len() <= j < before.len() ==> !m.waits_to_send(ep)(#[trigger] before[j]) && (
                before[j] < MAX_TASKS && m.state(before[j]) != TaskState::Dead ==> sent_on(
                    m,
                    n,
                    before[j],
                ))
            &&& forall|i: usize|
                i < MAX_TASKS && m.waits_to_send(ep)(i) ==> #[trigger] n.tasks[i as int]
                    == m.tasks[i as int]
        }),
{
    lemma_dropped(m, ep);
}

/// Of several senders the one who came last is served first: its word is the receiver's, it
/// waits for the reply, and the others stay in line as they were. This holds of any kernel in
/// which that entry of the queue is in order.
pub proof fn law_last_sender_is_served(m: KernelView, ep: EndpointId, recv: usize)
    requires
        m.wf(),
        ep.0 < MAX_ENDPOINTS,
        recv < MAX_TASKS,
        ({
            let q = m.endpoints[ep.0 as int].send_queue;
            &&& q.len() > 0
            &&& q.last() < MAX_TASKS
            &&& q.last() != recv
            &&& m.state(q.last()) == TaskState::Blocked
            &&& m.tasks[q.last() as int].blocked_reason == Some(BlockedReason::IpcSend { ep })
            &&& m.tasks[q.last() as int].pending_send_msg is Some
        }),
        m.endpoints[ep.0 as int].reply_queue.len() < MAX_TASKS,
    ensures
        ({
            let e = m.endpoints[ep.0 as int];
            let s = e.send_queue.last();
            let (n, taken) = m.recv_fast(ep, recv);
            let f = n.endpoints[ep.0 as int];
            &&& taken
            &&& n.tasks[recv as int].last_msg == m.tasks[s as int].pending_send_msg
            &&& n.tasks[s as int].pending_send_msg is None
            &&& n.tasks[s as int].blocked_reason == Some(
                BlockedReason::IpcReply { partner: m.tasks[recv as int].id, ep },
            )
            &&& f.send_queue == e.send_queue.drop_last()
            &&& !e.reply_queue.contains(s) ==> f.reply_queue == e.reply_queue.push(s)
            &&& f.recv_waiter == e.recv_waiter
            &&& n.endpoints[1 - ep.0] == m.endpoints[1 - ep.0]
        }),
{
    let s = m.endpoints[ep.0 as int].send_queue.last();
    assert(m.waits_to_send(ep)(s));
    assert(m.drop_broken_senders(ep) == m);
}

/// Whoever queues up to send, or for a reply, stands last in line.
pub proof fn law_newcomers_stand_last(e: EndpointView, idx: usize)
    ensures
        e.send_queue.len() < MAX_TASKS && !e.send_queue.contains(idx) ==> e.enqueue_sender(
            idx,
        ).send_queue == e.send_queue.push(idx),
        e.reply_queue.len() < MAX_TASKS && !e.reply_queue.contains(idx)
            ==> e.enqueue_reply_waiter(idx).reply_queue == e.reply_queue.push(idx),
        e.enqueue_sender(idx).reply_queue == e.reply_queue,
        e.enqueue_reply_waiter(idx).send_queue == e.send_queue,
        e.enqueue_sender(idx).recv_waiter == e.recv_waiter,
        e.enqueue_reply_waiter(idx).recv_waiter == e.recv_waiter,
        e.send_queue.contains(idx) ==> e.enqueue_sender(idx) == e,
        e.reply_queue.contains(idx) ==> e.enqueue_reply_waiter(idx) == e,
{
}

/// Of several tasks that wait for the caller's reply, the one that stands last in line gets it;
/// the others go on waiting. This holds of any kernel in which the line is in order.
#[verifier::rlimit(40)]
pub proof fn law_last_waiter_gets_the_reply(m: KernelView, ep: EndpointId, msg: u64, pos: int)
    requires
        m.wf(),
        m.ipc_refused(IpcSyscallKind::Reply, ep) is None,
        ({
            let q = m.endpoints[ep.0 as int].reply_queue;
            let id = m.tasks[m.current as int].id;
            &&& 0 <= pos < q.len()
            &&& forall|j: int| 0 <= j < q.len() ==> m.waits_for_any_reply(ep)(#[trigger] q[j])
            &&& m.waits_for_reply(ep, id)(q[pos])
            &&& forall|j: int| pos < j < q.len() ==> !m.waits_for_reply(ep, id)(#[trigger] q[j])
        }),
    ensures
        ({
            let q = m.endpoints[ep.0 as int].reply_queue;
            let s = q[pos];
            let n = m.ipc_reply(ep, msg);
            &&& n.tasks[s as int].last_reply == Some(msg)
            &&& m.state(s) == TaskState::Blocked ==> n.state(s) == TaskState::Ready
            &&& n.endpoints[ep.0 as int].reply_queue.len() == q.len() - 1
            &&& forall|i: int|
                0 <= i < MAX_TASKS && i != s ==> #[trigger] n.tasks[i] == m.tasks[i]
            &&& n.current == m.current
        }),
{
    reveal(KernelView::ipc_reply);
    let q = m.endpoints[ep.0 as int].reply_queue;
    let id = m.tasks[m.current as int].id;
    lemma_nothing_to_sweep(m, ep);
    lemma_last_such_is(q, m.waits_for_reply(ep, id), pos);
    lemma_swap_remove(q, pos);
}

} // verus!
