//! What is counted and traced of message passing: every call is counted once, for the path
//! that its message took.

use vstd::prelude::*;

use crate::kernel::laws::consistency::other_user;
use crate::kernel::laws::messages::{
    handed_over, law_recv_keeps_consistent, lemma_handed_over, lemma_last_sender,
    lemma_receiver_at, lemma_reply_queue_has_room, lemma_reply_waiter, lemma_same_places,
    lemma_waiting_to_recv, lemma_waiting_to_send, may_call, waiting_to_recv, waiting_to_send,
};
use crate::kernel::laws::scheduling::law_schedule_makes_consistent;
use crate::kernel::laws::switching::{law_next_task_runs_in_its_own_space, only_switches};
use crate::kernel::model::KernelView;
use crate::kernel::syscall::Syscall;
use crate::kernel::trace::{IpcPathEvent, IpcSyscallKind};
use crate::kernel::types::{DemoProgress, Effect, EndpointId, KernelCounters, LogEvent};

verus! {

/// Between `a` and `b` the message is traced to have taken this path, and no other.
pub open spec fn took_path(a: Seq<Effect>, b: Seq<Effect>, event: IpcPathEvent) -> bool {
    &&& a.is_prefix_of(b)
    &&& exists|i: int| a.len() <= i < b.len() && #[trigger] b[i] == (Effect::IpcPath { event })
    &&& forall|i: int|
        a.len() <= i < b.len() && #[trigger] b[i] is IpcPath ==> b[i]->event == event
}

/// The demo counts the first two messages that reach the third task at the first endpoint.
pub open spec fn delivered_count(m: KernelView, ep: EndpointId, receiver: usize) -> DemoProgress {
    DemoProgress {
        msgs_delivered: if ep.0 == 0 && receiver == 2 && m.demo.msgs_delivered < 2 {
            (m.demo.msgs_delivered + 1) as u8
        } else {
            m.demo.msgs_delivered
        },
        ..m.demo
    }
}

proof fn lemma_path_kept(a: Seq<Effect>, b: Seq<Effect>, c: Seq<Effect>, event: IpcPathEvent)
    requires
        took_path(a, b, event),
        only_switches(b, c),
    ensures
        took_path(a, c, event),
{
    assert forall|i: int| 0 <= i < b.len() implies b[i] == c[i] by {
        assert(c[i] == c.subrange(0, b.len() as int)[i]);
    }
    assert forall|i: int| 0 <= i < a.len() implies a[i] == c[i] by {
        assert(b[i] == b.subrange(0, a.len() as int)[i]);
    }
    assert(a.is_prefix_of(c));
    let i = choose|i: int| a.len() <= i < b.len() && #[trigger] b[i] == (Effect::IpcPath { event });
    assert(c[i] == (Effect::IpcPath { event }));
}

/// A message that is taken from a waiting sender is counted as received at once.
#[verifier::rlimit(40)]
pub proof fn law_message_received_at_once_is_counted(m: KernelView, ep: EndpointId)
    requires
        may_call(m, ep),
        m.endpoints[ep.0 as int].send_queue.len() > 0,
    ensures
        ({
            let n = m.ipc_recv(ep);
            &&& n.counters == KernelCounters {
                ipc_recv_fast: (m.counters.ipc_recv_fast + 1) as u64,
                ..m.counters
            }
            &&& took_path(m.effects, n.effects, IpcPathEvent::RecvFast)
            &&& n.demo == delivered_count(m, ep, m.current)
        }),
{
    reveal(KernelView::ipc_recv);
    let c = m.current;
    let l = m.log(LogEvent::IpcRecvCalled { task: m.tasks[c as int].id, ep });
    lemma_same_places(m, l);
    lemma_last_sender(l, ep);
    assert(m.user_task_ok(other_user(c)));
    lemma_reply_queue_has_room(l, ep.0 as int);
    let n = m.ipc_recv(ep);
    assert(n.effects == m.effects.push(Effect::IpcPath { event: IpcPathEvent::RecvFast }));
    assert(n.effects[m.effects.len() as int] == (Effect::IpcPath {
        event: IpcPathEvent::RecvFast,
    }));
}

/// A receiver that has to wait is counted as one, whoever runs next.
#[verifier::rlimit(40)]
pub proof fn law_waiting_receiver_is_counted(m: KernelView, ep: EndpointId)
    requires
        may_call(m, ep),
        !m.features.ring3_mailbox,
        m.endpoints[ep.0 as int].send_queue.len() == 0,
        m.endpoints[ep.0 as int].recv_waiter is None,
    ensures
        ({
            let n = m.ipc_recv(ep);
            &&& n.counters == KernelCounters {
                ipc_recv_slow: (m.counters.ipc_recv_slow + 1) as u64,
                sched_switches: n.counters.sched_switches,
                ..m.counters
            }
            &&& took_path(m.effects, n.effects, IpcPathEvent::RecvSlow)
            &&& n.demo == m.demo
        }),
{
    reveal(KernelView::ipc_recv);
    let c = m.current;
    let l = m.log(LogEvent::IpcRecvCalled { task: m.tasks[c as int].id, ep });
    lemma_same_places(m, l);
    lemma_last_sender(l, ep);
    lemma_waiting_to_recv(l, ep);
    let w = waiting_to_recv(l, ep);
    assert(w.effects == m.effects.push(Effect::IpcPath { event: IpcPathEvent::RecvSlow }));
    assert(w.effects[m.effects.len() as int] == (Effect::IpcPath {
        event: IpcPathEvent::RecvSlow,
    }));
    law_next_task_runs_in_its_own_space(w);
    law_schedule_makes_consistent(w);
    lemma_path_kept(m.effects, w.effects, m.ipc_recv(ep).effects, IpcPathEvent::RecvSlow);
}

/// A message that reaches a waiting receiver is counted as sent at once, whoever runs next.
#[verifier::rlimit(40)]
pub proof fn law_message_sent_at_once_is_counted(m: KernelView, ep: EndpointId, msg: u64)
    requires
        may_call(m, ep),
        !m.features.ring3_mailbox,
        m.endpoints[ep.0 as int].recv_waiter is Some,
    ensures
        ({
            let n = m.ipc_send(ep, msg);
            &&& n.counters == KernelCounters {
                ipc_send_fast: (m.counters.ipc_send_fast + 1) as u64,
                sched_switches: n.counters.sched_switches,
                ..m.counters
            }
            &&& took_path(m.effects, n.effects, IpcPathEvent::SendFast)
            &&& n.demo == delivered_count(m, ep, other_user(m.current))
        }),
{
    reveal(KernelView::ipc_send);
    let c = m.current;
    let l = m.log(LogEvent::IpcSendCalled { task: m.tasks[c as int].id, ep, msg });
    lemma_same_places(m, l);
    lemma_receiver_at(l, ep);
    lemma_handed_over(l, ep, msg);
    let w = handed_over(l, ep, msg);
    assert(w.effects == m.effects.push(Effect::IpcPath { event: IpcPathEvent::SendFast }));
    assert(w.effects[m.effects.len() as int] == (Effect::IpcPath {
        event: IpcPathEvent::SendFast,
    }));
    law_next_task_runs_in_its_own_space(w);
    law_schedule_makes_consistent(w);
    lemma_path_kept(m.effects, w.effects, m.ipc_send(ep, msg).effects, IpcPathEvent::SendFast);
}

/// A sender that has to wait is counted as one, whoever runs next.
#[verifier::rlimit(40)]
pub proof fn law_waiting_sender_is_counted(m: KernelView, ep: EndpointId, msg: u64)
    requires
        may_call(m, ep),
        !m.features.ring3_mailbox,
        m.endpoints[ep.0 as int].recv_waiter is None,
    ensures
        ({
            let n = m.ipc_send(ep, msg);
            &&& n.counters == KernelCounters {
                ipc_send_slow: (m.counters.ipc_send_slow + 1) as u64,
                sched_switches: n.counters.sched_switches,
                ..m.counters
            }
            &&& took_path(m.effects, n.effects, IpcPathEvent::SendSlow)
            &&& n.demo == m.demo
        }),
{
    reveal(KernelView::ipc_send);
    let c = m.current;
    let l = m.log(LogEvent::IpcSendCalled { task: m.tasks[c as int].id, ep, msg });
    lemma_same_places(m, l);
    lemma_receiver_at(l, ep);
    lemma_waiting_to_send(l, ep, msg);
    let w = waiting_to_send(l, ep, msg);
    assert(w.effects == m.effects.push(Effect::IpcPath { event: IpcPathEvent::SendSlow }));
    assert(w.effects[m.effects.len() as int] == (Effect::IpcPath {
        event: IpcPathEvent::SendSlow,
    }));
    law_next_task_runs_in_its_own_space(w);
    law_schedule_makes_consistent(w);
    lemma_path_kept(m.effects, w.effects, m.ipc_send(ep, msg).effects, IpcPathEvent::SendSlow);
}

/// A reply is counted exactly if it reaches somebody.
#[verifier::rlimit(40)]
pub proof fn law_delivered_reply_is_counted(m: KernelView, ep: EndpointId, msg: u64)
    requires
        may_call(m, ep),
    ensures
        ({
            let n = m.ipc_reply(ep, msg);
            let reached = m.blocked_for_reply(other_user(m.current), ep.0 as int);
            &&& n.counters == KernelCounters {
                ipc_reply_delivered: if reached {
                    (m.counters.ipc_reply_delivered + 1) as u64
                } else {
                    m.counters.ipc_reply_delivered
                },
                ..m.counters
            }
            &&& took_path(
                m.effects,
                n.effects,
                if reached {
                    IpcPathEvent::ReplyDelivered
                } else {
                    IpcPathEvent::ReplyNoWaiter
                },
            )
            &&& n.demo == DemoProgress {
                replies_sent: if reached && ep.0 == 0 && m.current == 2 && m.demo.replies_sent
                    < 2 {
                    (m.demo.replies_sent + 1) as u8
                } else {
                    m.demo.replies_sent
                },
                ..m.demo
            }
        }),
{
    reveal(KernelView::ipc_reply);
    lemma_reply_waiter(m, ep);
    let n = m.ipc_reply(ep, msg);
    let event = if m.blocked_for_reply(other_user(m.current), ep.0 as int) {
        IpcPathEvent::ReplyDelivered
    } else {
        IpcPathEvent::ReplyNoWaiter
    };
    assert(n.effects == m.effects.push(Effect::IpcPath { event }));
    assert(n.effects[m.effects.len() as int] == (Effect::IpcPath { event }));
}

/// The first order after `m` is the trace of this very call.
pub open spec fn traced_first(
    m: KernelView,
    n: KernelView,
    kind: IpcSyscallKind,
    ep: EndpointId,
    msg: Option<u64>,
) -> bool {
    &&& n.effects.len() > m.effects.len()
    &&& n.effects[m.effects.len() as int] == Effect::IpcSyscall {
        kind,
        task: m.tasks[m.current as int].id,
        ep,
        msg,
    }
}

/// The kernel as a call finds it: the call is in the log and in the trace.
spec fn traced(
    m: KernelView,
    kind: IpcSyscallKind,
    ep: EndpointId,
    msg: Option<u64>,
) -> KernelView {
    m.log(LogEvent::SyscallHandled { task: m.tasks[m.current as int].id }).trace_syscall(
        kind,
        ep,
        msg,
    )
}

proof fn lemma_traced(
    m: KernelView,
    kind: IpcSyscallKind,
    ep: EndpointId,
    msg: Option<u64>,
    n: KernelView,
    event: IpcPathEvent,
)
    requires
        m.features.ipc_trace_syscall || m.features.ipc_trace_paths,
        took_path(traced(m, kind, ep, msg).effects, n.effects, event),
    ensures
        traced_first(m, n, kind, ep, msg),
{
    let t = traced(m, kind, ep, msg);
    let k = m.effects.len() as int;
    assert(n.effects[k] == n.effects.subrange(0, t.effects.len() as int)[k]);
}

/// A system call that passes a message is traced first of all, where calls are traced: as what
/// it is, by whom, where and with which word.
#[verifier::rlimit(40)]
pub proof fn law_system_calls_are_traced(m: KernelView, ep: EndpointId, msg: u64)
    requires
        may_call(m, ep),
        !m.features.ring3_mailbox,
        m.features.ipc_trace_syscall || m.features.ipc_trace_paths,
    ensures
        traced_first(
            m,
            m.syscall(Syscall::IpcSend { ep, msg }).0,
            IpcSyscallKind::Send,
            ep,
            Some(msg),
        ),
        traced_first(
            m,
            m.syscall(Syscall::IpcReply { ep, msg }).0,
            IpcSyscallKind::Reply,
            ep,
            Some(msg),
        ),
        m.endpoints[ep.0 as int].recv_waiter is None && !m.features.dead_partner_test
            ==> traced_first(
            m,
            m.syscall(Syscall::IpcRecv { ep }).0,
            IpcSyscallKind::Recv,
            ep,
            None,
        ),
{
    reveal(KernelView::syscall);
    let s = traced(m, IpcSyscallKind::Send, ep, Some(msg));
    lemma_same_places(m, s);
    if m.endpoints[ep.0 as int].recv_waiter is Some {
        law_message_sent_at_once_is_counted(s, ep, msg);
        lemma_traced(
            m,
            IpcSyscallKind::Send,
            ep,
            Some(msg),
            s.ipc_send(ep, msg),
            IpcPathEvent::SendFast,
        );
    } else {
        law_waiting_sender_is_counted(s, ep, msg);
        lemma_traced(
            m,
            IpcSyscallKind::Send,
            ep,
            Some(msg),
            s.ipc_send(ep, msg),
            IpcPathEvent::SendSlow,
        );
    }
    let r = traced(m, IpcSyscallKind::Reply, ep, Some(msg));
    lemma_same_places(m, r);
    law_delivered_reply_is_counted(r, ep, msg);
    lemma_traced(
        m,
        IpcSyscallKind::Reply,
        ep,
        Some(msg),
        r.ipc_reply(ep, msg),
        if r.blocked_for_reply(other_user(r.current), ep.0 as int) {
            IpcPathEvent::ReplyDelivered
        } else {
            IpcPathEvent::ReplyNoWaiter
        },
    );
    let v = traced(m, IpcSyscallKind::Recv, ep, None);
    lemma_same_places(m, v);
    if m.endpoints[ep.0 as int].recv_waiter is None {
        if m.endpoints[ep.0 as int].send_queue.len() > 0 {
            law_message_received_at_once_is_counted(v, ep);
            lemma_traced(
                m,
                IpcSyscallKind::Recv,
                ep,
                None,
                v.ipc_recv(ep),
                IpcPathEvent::RecvFast,
            );
        } else {
            law_waiting_receiver_is_counted(v, ep);
            lemma_traced(
                m,
                IpcSyscallKind::Recv,
                ep,
                None,
                v.ipc_recv(ep),
                IpcPathEvent::RecvSlow,
            );
        }
        law_recv_keeps_consistent(v, ep);
    }
}

} // verus!
