//! Message passing keeps the kernel consistent, and messages arrive.

use vstd::prelude::*;

use crate::kernel::endpoint::EndpointView;
use crate::kernel::laws::consistency::{
    calm, is_user, kernel_kept, lemma_moved_ready, lemma_moved_task, lemma_same_endpoint,
    other_user,
};
use crate::kernel::laws::scheduling::{
    able, law_highest_priority_runs_next, law_schedule_makes_consistent, lemma_ready_queue,
};
use crate::kernel::model::KernelView;
use crate::kernel::trace::{IpcPathEvent, IpcSyscallKind};
use crate::kernel::types::{
    BlockedReason, Effect, EndpointId, KernelCounters, LogEvent, Task, TaskState, MAX_ENDPOINTS,
    MAX_TASKS,
};
use crate::seqs::{
    last_such, lemma_drop_last, lemma_filter_all, lemma_filter_from, lemma_filter_none,
    lemma_last_such_is, lemma_last_such_none, lemma_push, other_than, swap_remove,
};

verus! {

/// A task is in the same place, and if dead is unchanged.
pub open spec fn same_place(a: Task, b: Task) -> bool {
    &&& a.id == b.id
    &&& a.address_space_id == b.address_space_id
    &&& a.state == b.state
    &&& a.blocked_reason == b.blocked_reason
    &&& a.pending_send_msg is Some ==> b.pending_send_msg is Some
    &&& a.state == TaskState::Dead ==> a == b
}

/// Nobody has moved: only words, clocks, counters and logs differ.
pub open spec fn same_places(m: KernelView, n: KernelView) -> bool {
    &&& n.wf()
    &&& same_place(m.tasks[0], n.tasks[0])
    &&& same_place(m.tasks[1], n.tasks[1])
    &&& same_place(m.tasks[2], n.tasks[2])
    &&& n.tasks[0].pending_syscall == m.tasks[0].pending_syscall || n.tasks[0].pending_syscall
        is None
    &&& calm(n.tasks[1].pending_syscall)
    &&& calm(n.tasks[2].pending_syscall)
    &&& n.ready == m.ready
    &&& n.waiting == m.waiting
    &&& n.endpoints == m.endpoints
    &&& n.spaces == m.spaces
    &&& n.current == m.current
}

/// A kernel in which nobody has moved stays in order.
pub proof fn lemma_same_places(m: KernelView, n: KernelView)
    requires
        m.placed(),
        same_places(m, n),
    ensures
        n.placed(),
        m.consistent() ==> n.consistent(),
{
    lemma_same_endpoint(m, n, 0);
    lemma_same_endpoint(m, n, 1);
    assert(n.ready_ok());
    assert(n.shape_ok()) by {
        assert forall|i: int| 0 <= i < MAX_TASKS implies (#[trigger] n.tasks[i]).id
            == m.tasks[i].id && n.tasks[i].address_space_id == m.tasks[i].address_space_id by {
            assert(i == 0 || i == 1 || i == 2);
        }
    }
}

/// A user task of a consistent kernel makes the call, at an open endpoint.
pub open spec fn may_call(m: KernelView, ep: EndpointId) -> bool {
    &&& m.consistent()
    &&& is_user(m.current)
    &&& ep.0 < MAX_ENDPOINTS
    &&& !m.endpoints[ep.0 as int].is_closed
}

/// In the queue of senders stand only tasks that wait to send: none is dropped.
pub proof fn lemma_last_sender(m: KernelView, ep: EndpointId)
    requires
        may_call(m, ep),
    ensures
        m.drop_broken_senders(ep) == m,
        ({
            let q = m.endpoints[ep.0 as int].send_queue;
            q.len() > 0 ==> q.last() == other_user(m.current) && m.blocked_on(
                q.last(),
                BlockedReason::IpcSend { ep },
            )
        }),
{
    let q = m.endpoints[ep.0 as int].send_queue;
    assert(m.endpoint_ok(ep.0 as int));
    if q.len() > 0 {
        assert(q.contains(q.last()));
        assert(m.waits_to_send(ep)(q.last()));
    }
}

/// The queue for replies has room for one who is not in it.
pub proof fn lemma_reply_queue_has_room(m: KernelView, e: int)
    requires
        m.placed(),
        e == 0 || e == 1,
        !m.blocked_for_reply(1, e) || !m.blocked_for_reply(2, e),
    ensures
        m.endpoints[e].reply_queue.len() <= 1,
{
    let q = m.endpoints[e].reply_queue;
    assert(m.endpoint_ok(e));
    if q.len() > 1 {
        assert(q.contains(q[0]) && q.contains(q[1]));
    }
}

/// The queue of senders has room for one who is not in it.
proof fn lemma_send_queue_has_room(m: KernelView, ep: EndpointId)
    requires
        may_call(m, ep),
    ensures
        m.endpoints[ep.0 as int].send_queue.len() <= 1,
{
    let q = m.endpoints[ep.0 as int].send_queue;
    assert(m.endpoint_ok(ep.0 as int));
    if q.len() > 1 {
        assert(q.contains(q[0]) && q.contains(q[1]));
    }
}

/// Taking the message of a waiting sender keeps the kernel consistent.
proof fn lemma_recv_fast(m: KernelView, ep: EndpointId)
    requires
        may_call(m, ep),
        m.endpoints[ep.0 as int].send_queue.len() > 0,
    ensures
        m.recv_fast(ep, m.current).1,
        m.recv_fast(ep, m.current).0.consistent(),
        kernel_kept(m, m.recv_fast(ep, m.current).0),
{
    let e = ep.0 as int;
    let end = m.endpoints[e];
    let c = m.current;
    let s = other_user(c);
    lemma_last_sender(m, ep);
    assert(m.user_task_ok(s));
    assert(m.endpoint_ok(e));
    lemma_reply_queue_has_room(m, e);
    let n = m.recv_fast(ep, c).0;
    lemma_ready_queue(m);
    assert(!m.ready.contains(s));
    lemma_filter_from(m.ready, other_than(s));
    lemma_drop_last(end.send_queue);
    assert(!end.reply_queue.contains(s));
    lemma_push(end.reply_queue, s);
    assert(n.endpoints[e].send_queue == end.send_queue.drop_last());
    assert(n.endpoints[e].reply_queue == end.reply_queue.push(s));
    assert(n.ready == m.ready.filter(other_than(s)));
    assert(!m.blocked_on(s, BlockedReason::IpcRecv { ep }));
    lemma_moved_task(m, n, e, s);
    lemma_same_endpoint(m, n, 1 - e);
    lemma_moved_ready(m, n, s);
}

/// The kernel after a receiver has begun to wait, before it leaves the processor.
pub open spec fn waiting_to_recv(m: KernelView, ep: EndpointId) -> KernelView {
    let c = m.current;
    let e = ep.0 as int;
    let b = m.put_counters(
        KernelCounters { ipc_recv_slow: (m.counters.ipc_recv_slow + 1) as u64, ..m.counters },
    ).emit(Effect::IpcPath { event: IpcPathEvent::RecvSlow }).block(
        c,
        BlockedReason::IpcRecv { ep },
    );
    b.put_endpoint(e, EndpointView { recv_waiter: Some(c), ..b.endpoints[e] }).log(
        LogEvent::IpcRecvBlocked { task: m.tasks[c as int].id, ep },
    )
}

pub proof fn lemma_waiting_to_recv(m: KernelView, ep: EndpointId)
    requires
        may_call(m, ep),
        !m.features.ring3_mailbox,
        m.endpoints[ep.0 as int].send_queue.len() == 0,
        m.endpoints[ep.0 as int].recv_waiter is None,
    ensures
        m.recv_slow(ep, m.current) == waiting_to_recv(m, ep).schedule(),
        waiting_to_recv(m, ep).placed(),
        kernel_kept(m, waiting_to_recv(m, ep)),
{
    let e = ep.0 as int;
    let c = m.current;
    let w = waiting_to_recv(m, ep);
    assert(m.endpoint_ok(e));
    assert(m.recv_slow(ep, c) == w.schedule());
    assert(!m.ready.contains(c));
    lemma_filter_from(m.ready, other_than(c));
    lemma_moved_task(m, w, e, c);
    lemma_same_endpoint(m, w, 1 - e);
    lemma_moved_ready(m, w, c);
}

/// Waiting for a message keeps the kernel consistent.
proof fn lemma_recv_slow(m: KernelView, ep: EndpointId)
    requires
        may_call(m, ep),
        !m.features.ring3_mailbox,
        m.endpoints[ep.0 as int].send_queue.len() == 0,
    ensures
        m.recv_slow(ep, m.current).consistent(),
        kernel_kept(m, m.recv_slow(ep, m.current)),
{
    if m.endpoints[ep.0 as int].recv_waiter is Some {
        lemma_same_places(m, m.recv_slow(ep, m.current));
    } else {
        lemma_waiting_to_recv(m, ep);
        law_schedule_makes_consistent(waiting_to_recv(m, ep));
    }
}

/// A receiver that waits at an endpoint of a consistent kernel really waits.
pub proof fn lemma_receiver_at(m: KernelView, ep: EndpointId)
    requires
        may_call(m, ep),
    ensures
        m.receiver_at(ep) == m.endpoints[ep.0 as int].recv_waiter,
        m.receiver_at(ep) matches Some(r) ==> r == other_user(m.current) && m.blocked_on(
            r,
            BlockedReason::IpcRecv { ep },
        ),
{
    assert(m.endpoint_ok(ep.0 as int));
    if let Some(r) = m.endpoints[ep.0 as int].recv_waiter {
        assert(m.blocked_on(r, BlockedReason::IpcRecv { ep }));
    }
}

/// The kernel after a message was handed to a waiting receiver, before the sender leaves
/// the processor.
pub open spec fn handed_over(m: KernelView, ep: EndpointId, msg: u64) -> KernelView {
    let c = m.current;
    let r = other_user(c);
    let e = ep.0 as int;
    let woken = m.put_endpoint(e, EndpointView { recv_waiter: None, ..m.endpoints[e] }).wake(r);
    let d = woken.put_task(r as int, Task { last_msg: Some(msg), ..woken.tasks[r as int] });
    let w = d.await_reply(ep, c, m.tasks[r as int].id).count_delivery(ep, r);
    w.put_counters(
        KernelCounters {
            ipc_send_fast: (w.counters.ipc_send_fast + 1) as u64,
            ..w.counters
        },
    ).emit(Effect::IpcPath { event: IpcPathEvent::SendFast }).log(
        LogEvent::IpcDelivered {
            from: m.tasks[c as int].id,
            to: m.tasks[r as int].id,
            ep,
            msg,
        },
    )
}

pub proof fn lemma_handed_over(m: KernelView, ep: EndpointId, msg: u64)
    requires
        may_call(m, ep),
        m.endpoints[ep.0 as int].recv_waiter is Some,
    ensures
        m.send_fast(ep, msg) == (
            handed_over(m, ep, msg).leave_sender(IpcPathEvent::SendFast),
            true,
        ),
        handed_over(m, ep, msg).placed(),
        kernel_kept(m, handed_over(m, ep, msg)),
        ({
            let c = m.current;
            let r = other_user(c);
            let l = handed_over(m, ep, msg);
            &&& l.state(r) == TaskState::Ready
            &&& l.tasks[r as int].last_msg == Some(msg)
            &&& l.blocked_on(c, BlockedReason::IpcReply { partner: m.tasks[r as int].id, ep })
            &&& !l.endpoints[ep.0 as int].is_closed
        }),
{
    let e = ep.0 as int;
    let end = m.endpoints[e];
    let c = m.current;
    let r = other_user(c);
    lemma_receiver_at(m, ep);
    lemma_ready_queue(m);
    assert(m.endpoint_ok(e));
    assert(!m.ready.contains(r) && !m.ready.contains(c));
    lemma_push(m.ready, r);
    let woken = m.put_endpoint(e, EndpointView { recv_waiter: None, ..end }).wake(r);
    assert(woken.ready == m.ready.push(r));
    lemma_moved_task(m, woken, e, r);
    lemma_moved_ready(m, woken, r);
    lemma_same_endpoint(m, woken, 1 - e);
    lemma_reply_queue_has_room(m, e);
    let w = handed_over(m, ep, msg);
    assert(!end.reply_queue.contains(c));
    lemma_push(end.reply_queue, c);
    assert(w.endpoints[e].reply_queue == end.reply_queue.push(c));
    lemma_filter_from(woken.ready, other_than(c));
    assert(w.ready == woken.ready.filter(other_than(c)));
    lemma_moved_task(woken, w, e, c);
    lemma_moved_ready(woken, w, c);
    lemma_same_endpoint(woken, w, 1 - e);
}

/// Handing a message to a waiting receiver keeps the kernel consistent. The receiver has
/// the message and runs next; the sender waits for its reply.
pub proof fn lemma_fast_sent(m: KernelView, ep: EndpointId, msg: u64)
    requires
        may_call(m, ep),
        !m.features.ring3_mailbox,
        m.endpoints[ep.0 as int].recv_waiter is Some,
    ensures
        m.send_fast(ep, msg).1,
        m.send_fast(ep, msg).0.consistent(),
        kernel_kept(m, m.send_fast(ep, msg).0),
        ({
            let c = m.current;
            let r = other_user(c);
            let n = m.send_fast(ep, msg).0;
            &&& n.current == r
            &&& n.tasks[r as int].last_msg == Some(msg)
            &&& n.blocked_on(c, BlockedReason::IpcReply { partner: m.tasks[r as int].id, ep })
            &&& !n.endpoints[ep.0 as int].is_closed
        }),
{
    lemma_handed_over(m, ep, msg);
    let l = handed_over(m, ep, msg);
    law_schedule_makes_consistent(l);
    law_highest_priority_runs_next(l);
    assert(able(l, other_user(m.current)) && !able(l, m.current));
}

/// The kernel after a sender has begun to wait, before it leaves the processor.
pub open spec fn waiting_to_send(m: KernelView, ep: EndpointId, msg: u64) -> KernelView {
    let c = m.current;
    let e = ep.0 as int;
    let t = m.tasks[c as int];
    m.put_counters(
        KernelCounters { ipc_send_slow: (m.counters.ipc_send_slow + 1) as u64, ..m.counters },
    ).emit(Effect::IpcPath { event: IpcPathEvent::SendSlow }).put_endpoint(
        e,
        m.endpoints[e].enqueue_sender(c),
    ).put_task(c as int, Task { pending_send_msg: Some(msg), ..t }).block(
        c,
        BlockedReason::IpcSend { ep },
    ).log(LogEvent::IpcSendBlocked { task: t.id, ep })
}

pub proof fn lemma_waiting_to_send(m: KernelView, ep: EndpointId, msg: u64)
    requires
        may_call(m, ep),
        !m.features.ring3_mailbox,
    ensures
        m.send_slow(ep, msg) == waiting_to_send(m, ep, msg).schedule(),
        waiting_to_send(m, ep, msg).placed(),
        kernel_kept(m, waiting_to_send(m, ep, msg)),
{
    let e = ep.0 as int;
    let end = m.endpoints[e];
    let c = m.current;
    assert(m.endpoint_ok(e));
    lemma_send_queue_has_room(m, ep);
    assert(!end.send_queue.contains(c));
    lemma_push(end.send_queue, c);
    let w = waiting_to_send(m, ep, msg);
    assert(!m.ready.contains(c));
    lemma_filter_from(m.ready, other_than(c));
    assert(!m.blocked_on(c, BlockedReason::IpcRecv { ep }));
    lemma_moved_task(m, w, e, c);
    lemma_moved_ready(m, w, c);
    lemma_same_endpoint(m, w, 1 - e);
    assert(m.send_slow(ep, msg) == w.schedule());
}

/// Waiting for a receiver keeps the kernel consistent. The message is kept; the other task
/// runs next if it is ready.
pub proof fn lemma_slow_sent(m: KernelView, ep: EndpointId, msg: u64)
    requires
        may_call(m, ep),
        !m.features.ring3_mailbox,
    ensures
        m.send_slow(ep, msg).consistent(),
        kernel_kept(m, m.send_slow(ep, msg)),
        ({
            let c = m.current;
            let n = m.send_slow(ep, msg);
            &&& n.blocked_on(c, BlockedReason::IpcSend { ep })
            &&& n.tasks[c as int].pending_send_msg == Some(msg)
            &&& m.state(other_user(c)) == TaskState::Ready ==> n.current == other_user(c)
            &&& !n.endpoints[ep.0 as int].is_closed
        }),
{
    let c = m.current;
    lemma_waiting_to_send(m, ep, msg);
    let w = waiting_to_send(m, ep, msg);
    law_schedule_makes_consistent(w);
    law_highest_priority_runs_next(w);
    assert(!able(w, c));
    assert(m.state(other_user(c)) == TaskState::Ready ==> able(w, other_user(c)));
}

/// Where everybody in the queue for replies waits for one, nobody is swept out.
pub proof fn lemma_nothing_to_sweep(m: KernelView, ep: EndpointId)
    requires
        ep.0 < m.endpoints.len(),
        forall|j: int|
            0 <= j < m.endpoints[ep.0 as int].reply_queue.len() ==> m.waits_for_any_reply(ep)(
                #[trigger] m.endpoints[ep.0 as int].reply_queue[j],
            ),
    ensures
        m.sweep_reply_queue(ep) == m,
{
    let q = m.endpoints[ep.0 as int].reply_queue;
    lemma_filter_all(q, m.waits_for_any_reply(ep));
    lemma_filter_none(q, m.broken_reply_entry(ep));
    assert(m.endpoints.update(ep.0 as int, m.endpoints[ep.0 as int]) =~= m.endpoints);
}

/// Who waits for a reply while a user task runs waits for that task; there is one at most.
pub proof fn lemma_reply_waiter(m: KernelView, ep: EndpointId)
    requires
        may_call(m, ep),
    ensures
        m.sweep_reply_queue(ep) == m,
        ({
            let q = m.endpoints[ep.0 as int].reply_queue;
            let s = other_user(m.current);
            let id = m.tasks[m.current as int].id;
            &&& m.blocked_for_reply(s, ep.0 as int) ==> q == seq![s] && last_such(
                q,
                m.waits_for_reply(ep, id),
            ) == Some(0int) && swap_remove(q, 0) == Seq::<usize>::empty()
            &&& !m.blocked_for_reply(s, ep.0 as int) ==> q.len() == 0 && last_such(
                q,
                m.waits_for_reply(ep, id),
            ) is None
        }),
{
    let q = m.endpoints[ep.0 as int].reply_queue;
    let s = other_user(m.current);
    let id = m.tasks[m.current as int].id;
    assert(m.endpoint_ok(ep.0 as int));
    lemma_reply_queue_has_room(m, ep.0 as int);
    if m.blocked_for_reply(s, ep.0 as int) {
        assert(q.contains(s));
        assert(q =~= seq![s]);
        assert(m.user_task_ok(s));
        lemma_last_such_is(q, m.waits_for_reply(ep, id), 0);
        assert(swap_remove(q, 0) =~= Seq::empty());
    } else {
        if q.len() > 0 {
            assert(q.contains(q[0]));
        }
        lemma_last_such_none(q, m.waits_for_reply(ep, id));
    }
    lemma_nothing_to_sweep(m, ep);
}

/// Replying keeps the kernel consistent.
proof fn lemma_reply(m: KernelView, ep: EndpointId, msg: u64)
    requires
        may_call(m, ep),
    ensures
        m.ipc_reply(ep, msg).consistent(),
        kernel_kept(m, m.ipc_reply(ep, msg)),
{
    reveal(KernelView::ipc_reply);
    let e = ep.0 as int;
    let end = m.endpoints[e];
    let c = m.current;
    let s = other_user(c);
    let n = m.ipc_reply(ep, msg);
    assert(m.ipc_refused(IpcSyscallKind::Reply, ep) is None);
    lemma_reply_waiter(m, ep);
    assert(m.endpoint_ok(e));
    if m.blocked_for_reply(s, e) {
        lemma_ready_queue(m);
        assert(!m.ready.contains(s));
        lemma_push(m.ready, s);
        assert(n.ready == m.ready.push(s));
        assert(!m.blocked_on(s, BlockedReason::IpcRecv { ep }));
        lemma_moved_task(m, n, e, s);
        lemma_moved_ready(m, n, s);
        lemma_same_endpoint(m, n, 1 - e);
    } else {
        lemma_same_places(m, n);
    }
}

/// A refused call keeps the kernel consistent.
proof fn lemma_refused(m: KernelView, kind: IpcSyscallKind, ep: EndpointId)
    requires
        m.consistent(),
        m.ipc_refused(kind, ep) is Some,
    ensures
        (m.ipc_refused(kind, ep)->0).consistent(),
{
    lemma_same_places(m, m.ipc_refused(kind, ep)->0);
}

/// Receiving keeps the kernel consistent.
pub proof fn law_recv_keeps_consistent(m: KernelView, ep: EndpointId)
    requires
        m.consistent(),
        !m.features.ring3_mailbox,
    ensures
        m.ipc_recv(ep).consistent(),
        kernel_kept(m, m.ipc_recv(ep)),
{
    reveal(KernelView::ipc_recv);
    if m.ipc_refused(IpcSyscallKind::Recv, ep) is Some {
        lemma_refused(m, IpcSyscallKind::Recv, ep);
    } else {
        let l = m.log(LogEvent::IpcRecvCalled { task: m.tasks[m.current as int].id, ep });
        lemma_same_places(m, l);
        let end = l.endpoints[ep.0 as int];
        lemma_last_sender(l, ep);
        if end.send_queue.len() > 0 {
            lemma_recv_fast(l, ep);
        } else {
            lemma_recv_slow(l, ep);
        }
    }
}

/// Sending keeps the kernel consistent.
pub proof fn law_send_keeps_consistent(m: KernelView, ep: EndpointId, msg: u64)
    requires
        m.consistent(),
        !m.features.ring3_mailbox,
    ensures
        m.ipc_send(ep, msg).consistent(),
        kernel_kept(m, m.ipc_send(ep, msg)),
{
    reveal(KernelView::ipc_send);
    if m.ipc_refused(IpcSyscallKind::Send, ep) is Some {
        lemma_refused(m, IpcSyscallKind::Send, ep);
    } else {
        let l = m.log(LogEvent::IpcSendCalled { task: m.tasks[m.current as int].id, ep, msg });
        lemma_same_places(m, l);
        lemma_receiver_at(l, ep);
        if l.endpoints[ep.0 as int].recv_waiter is Some {
            lemma_fast_sent(l, ep, msg);
        } else {
            lemma_slow_sent(l, ep, msg);
        }
    }
}

/// Replying keeps the kernel consistent.
pub proof fn law_reply_keeps_consistent(m: KernelView, ep: EndpointId, msg: u64)
    requires
        m.consistent(),
    ensures
        m.ipc_reply(ep, msg).consistent(),
        kernel_kept(m, m.ipc_reply(ep, msg)),
{
    if m.ipc_refused(IpcSyscallKind::Reply, ep) is Some {
        reveal(KernelView::ipc_reply);
        lemma_refused(m, IpcSyscallKind::Reply, ep);
    } else {
        lemma_reply(m, ep, msg);
    }
}

} // verus!
