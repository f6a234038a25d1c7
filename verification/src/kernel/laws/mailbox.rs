//! The mailbox: a program in user mode that runs as the second task.

use vstd::prelude::*;

use crate::kernel::laws::consistency::{lemma_moved_ready, lemma_same_endpoint};
use crate::kernel::laws::delivery::{
    law_recv_takes_the_waiting_message, law_recv_waits_for_a_sender,
    law_reply_reaches_the_waiting_sender, law_send_reaches_the_waiting_receiver,
    law_send_waits_for_a_receiver,
};
use crate::kernel::laws::messages::{lemma_same_places, may_call};
use crate::kernel::laws::ticks::{
    healthy, law_syscall_keeps_consistent, law_tick_keeps_healthy, tick_well,
};
use crate::kernel::model::KernelView;
use crate::kernel::tick::{spec_mailbox_decode, MailboxOutcome};
use crate::kernel::trace::IpcSyscallKind;
use crate::kernel::types::{
    BlockedReason, EndpointId, LogEvent, TaskState, MAX_ENDPOINTS, TASK0_INDEX, TASK1_INDEX,
};
use crate::seqs::{lemma_filter_from, other_than};

verus! {

/// A call through the mailbox keeps the kernel healthy. A call that passes messages has to
/// come while the second task is the current one.
pub proof fn law_mailbox_keeps_healthy(m: KernelView, sysno: u64, a0: u64, a1: u64, a2: u64)
    requires
        healthy(m),
        spec_mailbox_decode(sysno, a0, a1) is Some ==> m.current == TASK1_INDEX,
    ensures
        match m.mailbox(sysno, a0, a1, a2).1 {
            MailboxOutcome::Ret { .. } => healthy(m.mailbox(sysno, a0, a1, a2).0),
            MailboxOutcome::Tick { outcome } => tick_well(
                m.mailbox(sysno, a0, a1, a2).0,
                outcome,
            ),
            MailboxOutcome::Stopped { .. } => false,
        },
{
    let n = m.mailbox(sysno, a0, a1, a2).0;
    if sysno == 30 {
        law_tick_keeps_healthy(m);
    } else if sysno == 31 {
        lemma_same_places(m, n);
    } else if let Some(sc) = spec_mailbox_decode(sysno, a0, a1) {
        let l = m.log(LogEvent::SyscallIssued { task: m.tasks[m.current as int].id });
        lemma_same_places(m, l);
        law_syscall_keeps_consistent(l, sc);
    }
}

/// A reply can be taken out of the mailbox once.
pub proof fn law_reply_is_taken_once(m: KernelView, a0: u64, a1: u64, a2: u64)
    requires
        m.wf(),
    ensures
        m.tasks[1].last_reply matches Some(word) ==> m.mailbox(31, a0, a1, a2).1 == (
        MailboxOutcome::Ret { value: word }),
        m.mailbox(31, a0, a1, a2).0.mailbox(31, a0, a1, a2).1 == (MailboxOutcome::Ret {
            value: 0,
        }),
{
}

/// Handing over to the second task at the start keeps the kernel healthy.
pub proof fn law_prepare_ring3_loop_keeps_healthy(m: KernelView)
    requires
        healthy(m),
        m.current == TASK0_INDEX,
        m.state(TASK1_INDEX) == TaskState::Ready,
    ensures
        healthy(m.prepare_ring3_loop()),
        m.prepare_ring3_loop().current == TASK1_INDEX,
{
    let n = m.prepare_ring3_loop();
    lemma_filter_from(m.ready, other_than(TASK1_INDEX));
    lemma_moved_ready(m, n, TASK1_INDEX);
    lemma_same_endpoint(m, n, 0);
    lemma_same_endpoint(m, n, 1);
}

/// The program in user mode can pass messages at the endpoint with the number `a0`.
pub open spec fn may_call_from_mailbox(m: KernelView, a0: u64) -> bool {
    &&& m.current == TASK1_INDEX
    &&& a0 < MAX_ENDPOINTS
    &&& may_call(m, EndpointId(a0 as usize))
}

/// The kernel as the call finds it: the call is in the log, and in the trace if it is on.
spec fn called(
    m: KernelView,
    kind: IpcSyscallKind,
    ep: EndpointId,
    msg: Option<u64>,
) -> KernelView {
    let id = m.tasks[m.current as int].id;
    m.log(LogEvent::SyscallIssued { task: id }).log(
        LogEvent::SyscallHandled { task: id },
    ).trace_syscall(kind, ep, msg)
}

proof fn lemma_called(m: KernelView, kind: IpcSyscallKind, ep: EndpointId, msg: Option<u64>)
    requires
        may_call(m, ep),
    ensures
        may_call(called(m, kind, ep, msg), ep),
        called(m, kind, ep, msg).current == m.current,
        called(m, kind, ep, msg).tasks == m.tasks,
        called(m, kind, ep, msg).endpoints == m.endpoints,
        called(m, kind, ep, msg).features == m.features,
{
    lemma_same_places(m, called(m, kind, ep, msg));
}

/// A reply through the mailbox: the third task, if it waits for one at the endpoint with
/// the number `a0`, gets the word `a1` and can go on.
#[verifier::rlimit(40)]
pub proof fn law_mailbox_reply_reaches_the_waiting_task(m: KernelView, a0: u64, a1: u64, a2: u64)
    requires
        may_call_from_mailbox(m, a0),
        m.blocked_for_reply(2, a0 as int),
    ensures
        ({
            let (n, outcome) = m.mailbox(12, a0, a1, a2);
            &&& outcome == MailboxOutcome::Ret { value: 0 }
            &&& n.current == TASK1_INDEX
            &&& n.tasks[2].last_reply == Some(a1)
            &&& n.state(2) == TaskState::Ready
        }),
{
    reveal(KernelView::syscall);
    let ep = EndpointId(a0 as usize);
    lemma_called(m, IpcSyscallKind::Reply, ep, Some(a1));
    law_reply_reaches_the_waiting_sender(called(m, IpcSyscallKind::Reply, ep, Some(a1)), ep, a1);
}

/// Sending through the mailbox: if the third task waits to receive at the endpoint with the
/// number `a0`, it gets the word `a1`, and the program waits for its reply; otherwise the word
/// is kept until somebody receives there.
#[verifier::rlimit(40)]
pub proof fn law_mailbox_send_delivers_the_word(m: KernelView, a0: u64, a1: u64, a2: u64)
    requires
        may_call_from_mailbox(m, a0),
        !m.features.ring3_mailbox,
    ensures
        ({
            let ep = EndpointId(a0 as usize);
            let (n, outcome) = m.mailbox(11, a0, a1, a2);
            &&& outcome == MailboxOutcome::Ret { value: 0 }
            &&& m.endpoints[a0 as int].recv_waiter is Some ==> n.tasks[2].last_msg == Some(a1)
                && n.blocked_on(1, BlockedReason::IpcReply { partner: m.tasks[2].id, ep })
            &&& m.endpoints[a0 as int].recv_waiter is None ==> n.tasks[1].pending_send_msg
                == Some(a1) && n.blocked_on(1, BlockedReason::IpcSend { ep })
        }),
{
    reveal(KernelView::syscall);
    let ep = EndpointId(a0 as usize);
    let c = called(m, IpcSyscallKind::Send, ep, Some(a1));
    lemma_called(m, IpcSyscallKind::Send, ep, Some(a1));
    if m.endpoints[a0 as int].recv_waiter is Some {
        law_send_reaches_the_waiting_receiver(c, ep, a1);
    } else {
        law_send_waits_for_a_receiver(c, ep, a1);
    }
}

/// Receiving through the mailbox: the word of the third task, if it waits to send at the
/// endpoint with the number `a0`, is the program's; otherwise the program waits there.
#[verifier::rlimit(40)]
pub proof fn law_mailbox_recv_takes_the_waiting_word(m: KernelView, a0: u64, a1: u64, a2: u64)
    requires
        may_call_from_mailbox(m, a0),
        !m.features.ring3_mailbox,
        m.endpoints[a0 as int].recv_waiter is None,
    ensures
        ({
            let ep = EndpointId(a0 as usize);
            let (n, outcome) = m.mailbox(10, a0, a1, a2);
            &&& outcome == MailboxOutcome::Ret { value: 0 }
            &&& m.endpoints[a0 as int].send_queue.len() > 0 ==> m.tasks[2].pending_send_msg is Some
                && n.tasks[1].last_msg == m.tasks[2].pending_send_msg && n.blocked_on(
                2,
                BlockedReason::IpcReply { partner: m.tasks[1].id, ep },
            )
            &&& m.endpoints[a0 as int].send_queue.len() == 0 ==> n.blocked_on(
                1,
                BlockedReason::IpcRecv { ep },
            ) && n.endpoints[a0 as int].recv_waiter == Some(1usize)
        }),
{
    reveal(KernelView::syscall);
    let ep = EndpointId(a0 as usize);
    let c = called(m, IpcSyscallKind::Recv, ep, None);
    lemma_called(m, IpcSyscallKind::Recv, ep, None);
    if m.endpoints[a0 as int].send_queue.len() > 0 {
        law_recv_takes_the_waiting_message(c, ep);
    } else {
        law_recv_waits_for_a_sender(c, ep);
    }
}

/// The mailbox adds: it gives the sum of the three words, short of a multiple of two to the
/// power of sixty-four, and nothing changes.
pub proof fn law_mailbox_adds(m: KernelView, a0: u64, a1: u64, a2: u64)
    ensures
        m.mailbox(1, a0, a1, a2).0 == m,
        m.mailbox(1, a0, a1, a2).1 matches MailboxOutcome::Ret { value } && exists|k: int|
            #![trigger k * 0x1_0000_0000_0000_0000]
            a0 + a1 + a2 == k * 0x1_0000_0000_0000_0000 + value,
{
    let sum = a0 + a1 + a2;
    let k = sum / 0x1_0000_0000_0000_0000;
    assert(sum == k * 0x1_0000_0000_0000_0000 + sum % 0x1_0000_0000_0000_0000);
}

/// A call with a number that the mailbox does not know changes nothing.
pub proof fn law_mailbox_ignores_other_numbers(m: KernelView, sysno: u64, a0: u64, a1: u64, a2: u64)
    requires
        sysno == 0 || 2 < sysno < 10 || 12 < sysno < 30 || 31 < sysno,
    ensures
        m.mailbox(sysno, a0, a1, a2) == (m, MailboxOutcome::Ret { value: 0 }),
{
}

} // verus!
