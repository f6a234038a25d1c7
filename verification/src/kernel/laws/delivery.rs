//! Messages arrive: what is sent is received, and what is replied comes back.

use vstd::prelude::*;

use crate::kernel::ipc::{
    IPC_ERR_DEAD_PARTNER, IPC_ERR_ENDPOINT_CLOSED, IPC_ERR_RECV_ALREADY_WAITING,
};
use crate::kernel::laws::consistency::other_user;
use crate::kernel::laws::messages::{
    law_recv_keeps_consistent, law_send_keeps_consistent, lemma_fast_sent, lemma_last_sender,
    lemma_receiver_at, lemma_reply_queue_has_room, lemma_reply_waiter, lemma_same_places,
    lemma_slow_sent, lemma_waiting_to_recv, may_call, waiting_to_recv,
};
use crate::kernel::laws::scheduling::law_schedule_makes_consistent;
use crate::kernel::model::KernelView;
use crate::kernel::types::{
    BlockedReason, EndpointId, LogEvent, Task, TaskState, MAX_ENDPOINTS, TASK0_INDEX,
};

verus! {

/// A task that receives where another waits to send gets that task's message, and the
/// other one waits for its reply.
pub proof fn law_recv_takes_the_waiting_message(m: KernelView, ep: EndpointId)
    requires
        may_call(m, ep),
        m.endpoints[ep.0 as int].send_queue.len() > 0,
    ensures
        ({
            let c = m.current;
            let s = other_user(c);
            let n = m.ipc_recv(ep);
            &&& m.tasks[s as int].pending_send_msg is Some
            &&& n.current == c
            &&& n.tasks[c as int].last_msg == m.tasks[s as int].pending_send_msg
            &&& n.blocked_on(s, BlockedReason::IpcReply { partner: m.tasks[c as int].id, ep })
            &&& n.endpoints[ep.0 as int].is_closed == m.endpoints[ep.0 as int].is_closed
        }),
{
    reveal(KernelView::ipc_recv);
    let c = m.current;
    let s = other_user(c);
    let l = m.log(LogEvent::IpcRecvCalled { task: m.tasks[c as int].id, ep });
    lemma_same_places(m, l);
    lemma_last_sender(l, ep);
    assert(m.user_task_ok(s));
    lemma_reply_queue_has_room(l, ep.0 as int);
}

/// A message that is sent while another task waits to receive reaches that task, which
/// runs next; the sender waits for its reply.
pub proof fn law_send_reaches_the_waiting_receiver(m: KernelView, ep: EndpointId, msg: u64)
    requires
        may_call(m, ep),
        !m.features.ring3_mailbox,
        m.endpoints[ep.0 as int].recv_waiter is Some,
    ensures
        ({
            let c = m.current;
            let r = other_user(c);
            let n = m.ipc_send(ep, msg);
            &&& m.endpoints[ep.0 as int].recv_waiter == Some(r)
            &&& n.current == r
            &&& n.tasks[r as int].last_msg == Some(msg)
            &&& n.blocked_on(c, BlockedReason::IpcReply { partner: m.tasks[r as int].id, ep })
            &&& !n.endpoints[ep.0 as int].is_closed
        }),
{
    reveal(KernelView::ipc_send);
    let c = m.current;
    let l = m.log(LogEvent::IpcSendCalled { task: m.tasks[c as int].id, ep, msg });
    lemma_same_places(m, l);
    lemma_receiver_at(l, ep);
    lemma_fast_sent(l, ep, msg);
}

/// A message that is sent while nobody waits to receive is kept, and the sender waits. If
/// the other task is ready it runs next.
pub proof fn law_send_waits_for_a_receiver(m: KernelView, ep: EndpointId, msg: u64)
    requires
        may_call(m, ep),
        !m.features.ring3_mailbox,
        m.endpoints[ep.0 as int].recv_waiter is None,
    ensures
        ({
            let c = m.current;
            let n = m.ipc_send(ep, msg);
            &&& n.blocked_on(c, BlockedReason::IpcSend { ep })
            &&& n.tasks[c as int].pending_send_msg == Some(msg)
            &&& m.state(other_user(c)) == TaskState::Ready ==> n.current == other_user(c)
            &&& !n.endpoints[ep.0 as int].is_closed
        }),
{
    reveal(KernelView::ipc_send);
    let c = m.current;
    let l = m.log(LogEvent::IpcSendCalled { task: m.tasks[c as int].id, ep, msg });
    lemma_same_places(m, l);
    lemma_receiver_at(l, ep);
    lemma_slow_sent(l, ep, msg);
}

/// A task that receives where nobody waits to send, and nobody to receive, waits there.
#[verifier::rlimit(40)]
pub proof fn law_recv_waits_for_a_sender(m: KernelView, ep: EndpointId)
    requires
        may_call(m, ep),
        !m.features.ring3_mailbox,
        m.endpoints[ep.0 as int].send_queue.len() == 0,
        m.endpoints[ep.0 as int].recv_waiter is None,
    ensures
        ({
            let n = m.ipc_recv(ep);
            &&& n.blocked_on(m.current, BlockedReason::IpcRecv { ep })
            &&& n.endpoints[ep.0 as int].recv_waiter == Some(m.current)
            &&& n.tasks[m.current as int].last_msg == m.tasks[m.current as int].last_msg
            &&& !n.endpoints[ep.0 as int].is_closed
        }),
{
    reveal(KernelView::ipc_recv);
    let c = m.current;
    let l = m.log(LogEvent::IpcRecvCalled { task: m.tasks[c as int].id, ep });
    lemma_same_places(m, l);
    lemma_last_sender(l, ep);
    lemma_waiting_to_recv(l, ep);
    law_schedule_makes_consistent(waiting_to_recv(l, ep));
}

/// A reply reaches the task that waits for it, which can go on.
pub proof fn law_reply_reaches_the_waiting_sender(m: KernelView, ep: EndpointId, msg: u64)
    requires
        may_call(m, ep),
        m.blocked_for_reply(other_user(m.current), ep.0 as int),
    ensures
        ({
            let s = other_user(m.current);
            let n = m.ipc_reply(ep, msg);
            &&& n.current == m.current
            &&& n.tasks[s as int].last_reply == Some(msg)
            &&& n.state(s) == TaskState::Ready
        }),
{
    reveal(KernelView::ipc_reply);
    lemma_reply_waiter(m, ep);
}

/// A message that has to wait goes there and back: the other task receives it, and its
/// reply reaches the sender.
pub proof fn law_waiting_message_round_trip(m: KernelView, ep: EndpointId, msg: u64, reply: u64)
    requires
        may_call(m, ep),
        !m.features.ring3_mailbox,
        m.endpoints[ep.0 as int].recv_waiter is None,
        m.state(other_user(m.current)) == TaskState::Ready,
    ensures
        ({
            let a = m.current;
            let b = other_user(a);
            let sent = m.ipc_send(ep, msg);
            let received = sent.ipc_recv(ep);
            let replied = received.ipc_reply(ep, reply);
            &&& sent.current == b
            &&& received.current == b
            &&& received.tasks[b as int].last_msg == Some(msg)
            &&& replied.tasks[a as int].last_reply == Some(reply)
            &&& replied.state(a) == TaskState::Ready
        }),
{
    let a = m.current;
    let b = other_user(a);
    law_send_keeps_consistent(m, ep, msg);
    law_send_waits_for_a_receiver(m, ep, msg);
    let sent = m.ipc_send(ep, msg);
    assert(sent.endpoint_ok(ep.0 as int));
    assert(sent.endpoints[ep.0 as int].send_queue.contains(a));
    law_recv_keeps_consistent(sent, ep);
    law_recv_takes_the_waiting_message(sent, ep);
    let received = sent.ipc_recv(ep);
    law_reply_reaches_the_waiting_sender(received, ep, reply);
}

/// A message to a task that waits for one goes there and back.
pub proof fn law_awaited_message_round_trip(m: KernelView, ep: EndpointId, msg: u64, reply: u64)
    requires
        may_call(m, ep),
        !m.features.ring3_mailbox,
        m.endpoints[ep.0 as int].recv_waiter is Some,
    ensures
        ({
            let a = m.current;
            let b = other_user(a);
            let sent = m.ipc_send(ep, msg);
            let replied = sent.ipc_reply(ep, reply);
            &&& sent.current == b
            &&& sent.tasks[b as int].last_msg == Some(msg)
            &&& replied.tasks[a as int].last_reply == Some(reply)
            &&& replied.state(a) == TaskState::Ready
        }),
{
    law_send_keeps_consistent(m, ep, msg);
    law_send_reaches_the_waiting_receiver(m, ep, msg);
    law_reply_reaches_the_waiting_sender(m.ipc_send(ep, msg), ep, reply);
}

/// A call of the kernel task or at a closed endpoint is refused: that is said, the caller
/// gets an error, and nothing else changes.
pub proof fn law_refused_call_only_answers(m: KernelView, ep: EndpointId, msg: u64)
    requires
        m.consistent(),
        ep.0 < MAX_ENDPOINTS,
        m.current == TASK0_INDEX || m.endpoints[ep.0 as int].is_closed,
    ensures
        ({
            let (line, word) = if m.current == TASK0_INDEX {
                (
                    "ipc: kernel task is forbidden to call IPC (rejected at entry)",
                    IPC_ERR_DEAD_PARTNER,
                )
            } else {
                ("ipc: endpoint is CLOSED (rejected at entry)", IPC_ERR_ENDPOINT_CLOSED)
            };
            &&& m.ipc_recv(ep) == m.say_refused(line, "api=ipc_recv", ep).answer_current(word)
            &&& m.ipc_send(ep, msg) == m.say_refused(line, "api=ipc_send", ep).answer_current(
                word,
            )
            &&& m.ipc_reply(ep, msg) == m.say_refused(line, "api=ipc_reply", ep).answer_current(
                word,
            )
        }),
{
    reveal(KernelView::ipc_recv);
    reveal(KernelView::ipc_send);
    reveal(KernelView::ipc_reply);
}

/// Who is refused is told so in place of a reply, and nothing else happens: no other task, no
/// endpoint, no queue and no counter changes. A kernel task is told that the partner is dead, a
/// caller at a closed endpoint that it is closed.
#[verifier::rlimit(40)]
pub proof fn law_refused_caller_is_told(m: KernelView, ep: EndpointId, msg: u64)
    requires
        m.consistent(),
        ep.0 < MAX_ENDPOINTS,
        m.current == TASK0_INDEX || m.endpoints[ep.0 as int].is_closed,
    ensures
        ({
            let word = if m.current == TASK0_INDEX {
                IPC_ERR_DEAD_PARTNER
            } else {
                IPC_ERR_ENDPOINT_CLOSED
            };
            &&& only_told(m, m.ipc_recv(ep), word)
            &&& only_told(m, m.ipc_send(ep, msg), word)
            &&& only_told(m, m.ipc_reply(ep, msg), word)
        }),
{
    reveal(KernelView::ipc_recv);
    reveal(KernelView::ipc_send);
    reveal(KernelView::ipc_reply);
}

/// From `m` to `n` the current task was given the word in place of a reply, and that is all.
pub open spec fn only_told(m: KernelView, n: KernelView, word: u64) -> bool {
    let t = m.tasks[m.current as int];
    &&& n.current == m.current
    &&& n.tasks[m.current as int] == Task { last_reply: Some(word), ..t }
    &&& forall|i: int|
        0 <= i < m.tasks.len() && i != m.current ==> #[trigger] n.tasks[i] == m.tasks[i]
    &&& n.endpoints == m.endpoints
    &&& n.ready == m.ready && n.waiting == m.waiting
    &&& n.counters == m.counters
    &&& n.events == m.events
    &&& n.spaces == m.spaces
}

/// Where somebody waits to receive already, a second one who wants to is told so, and goes on.
#[verifier::rlimit(40)]
pub proof fn law_second_receiver_is_turned_away(m: KernelView, ep: EndpointId)
    requires
        may_call(m, ep),
        m.endpoints[ep.0 as int].send_queue.len() == 0,
        m.endpoints[ep.0 as int].recv_waiter is Some,
    ensures
        ({
            let n = m.ipc_recv(ep);
            &&& n.tasks[m.current as int].last_reply == Some(IPC_ERR_RECV_ALREADY_WAITING)
            &&& n.state(m.current) == TaskState::Running
            &&& n.current == m.current
            &&& n.endpoints == m.endpoints
            &&& n.tasks[other_user(m.current) as int] == m.tasks[other_user(m.current) as int]
            &&& n.counters == m.counters
        }),
{
    reveal(KernelView::ipc_recv);
    let l = m.log(LogEvent::IpcRecvCalled { task: m.tasks[m.current as int].id, ep });
    lemma_same_places(m, l);
    lemma_last_sender(l, ep);
}

} // verus!
