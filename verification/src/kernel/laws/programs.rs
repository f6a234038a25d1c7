//! The demo programs of the tasks: what they ask the kernel for, and in which order.

use vstd::prelude::*;

use crate::kernel::model::KernelView;
use crate::kernel::syscall::Syscall;
use crate::kernel::types::{
    DemoProgress, Effect, EndpointId, LogLine, Task, TaskState, MAX_TASKS, TASK0_INDEX,
};
use crate::kernel::user_program::{
    spec_tagged, FIRST_MESSAGE, LATER_MESSAGE, REPLY_MESSAGE,
};

verus! {

/// From `m` to `n` the number was put out under the name.
pub open spec fn says(m: KernelView, n: KernelView, key: &'static str, number: u64) -> bool {
    exists|i: int|
        m.effects.len() <= i < n.effects.len() && #[trigger] n.effects[i] == (Effect::Say {
            line: LogLine::Value { key, value: number },
        })
}

/// A task takes a step: it can run, and has no call to make yet.
pub open spec fn steps(m: KernelView, idx: usize) -> bool {
    &&& m.wf()
    &&& idx < MAX_TASKS
    &&& m.state(idx) == TaskState::Ready || m.state(idx) == TaskState::Running
    &&& m.tasks[idx as int].pending_syscall is None
}

/// A word made up of a mark in its highest 16 bits and a tag in its lowest 16.
pub open spec fn is_marked(word: u64, mark: int, tag: int) -> bool {
    &&& word / 0x1_0000_0000_0000 == mark
    &&& word % 0x1_0000 == tag
    &&& (word / 0x1_0000) % 0x1_0000_0000 == 0
}

proof fn lemma_tagged(word: u64, mark: int, x: u64)
    requires
        word == mark * 0x1_0000_0000_0000,
        0 <= mark < 0x1_0000,
    ensures
        is_marked(spec_tagged(word, x), mark, x as int % 0x1_0000),
{
    let t = x as int % 0x1_0000;
    assert(spec_tagged(word, x) == mark * 0x1_0000_0000_0000 + t);
}

/// The third task answers every message that it got with a word that carries the message's
/// low bits, and asks for the next message when it has none.
#[verifier::rlimit(40)]
pub proof fn law_server_answers_its_message(m: KernelView)
    requires
        steps(m, 2),
    ensures
        ({
            let n = m.user_step(2);
            &&& n.tasks[2].last_msg is None
            &&& match m.tasks[2].last_msg {
                Some(msg) => {
                    &&& n.tasks[2].pending_syscall matches Some(Syscall::IpcReply { ep, msg: word })
                        && ep == EndpointId(0) && is_marked(word, 0xABCD, msg as int % 0x1_0000)
                    &&& says(m, n, "msg", msg)
                },
                None => n.tasks[2].pending_syscall == Some(
                    Syscall::IpcRecv { ep: EndpointId(0) },
                ),
            }
        }),
{
    reveal(KernelView::user_step);
    let n = m.user_step(2);
    lemma_tagged(REPLY_MESSAGE, 0xABCD, m.tasks[2].last_msg->0);
    if let Some(msg) = m.tasks[2].last_msg {
        let k = n.effects.len() - 1;
        assert(n.effects[k] == (Effect::Say { line: LogLine::Value { key: "msg", value: msg } }));
    }
}

/// The second task sends first of all; after that it sends when eight ticks have gone by and
/// somebody waits to receive, unless the demo is of a single send. Each word carries the low
/// bits of the tick count.
#[verifier::rlimit(40)]
pub proof fn law_sender_sends_first_and_then_now_and_again(m: KernelView)
    requires
        steps(m, 1),
    ensures
        ({
            let n = m.user_step(1);
            let tag = m.tick_count as int % 0x1_0000;
            let due = m.tick_count > 0 && m.tick_count as int % 8 == 0
                && m.endpoints[0].recv_waiter is Some && !m.features.ipc_demo_single_slow;
            &&& n.demo.sent_by_task1
            &&& n.tasks[1].last_reply is None
            &&& if !m.demo.sent_by_task1 {
                n.tasks[1].pending_syscall matches Some(Syscall::IpcSend { ep, msg }) && ep
                    == EndpointId(0) && is_marked(msg, 0x1111, tag)
            } else if due {
                n.tasks[1].pending_syscall matches Some(Syscall::IpcSend { ep, msg }) && ep
                    == EndpointId(0) && is_marked(msg, 0x2222, tag)
            } else {
                n.tasks[1].pending_syscall is None
            }
        }),
{
    reveal(KernelView::user_step);
    lemma_tagged(FIRST_MESSAGE, 0x1111, m.tick_count);
    lemma_tagged(LATER_MESSAGE, 0x2222, m.tick_count);
}

/// A step is about the task that takes it: it changes no other task, no mapping, no queue, no
/// endpoint, no clock and no counter.
#[verifier::rlimit(40)]
pub proof fn law_step_touches_only_its_task(m: KernelView, idx: usize)
    requires
        m.wf(),
    ensures
        ({
            let n = m.user_step(idx);
            &&& n.spaces == m.spaces && n.frames == m.frames && n.endpoints == m.endpoints
            &&& n.ready == m.ready && n.waiting == m.waiting && n.current == m.current
            &&& n.events == m.events && n.counters == m.counters
            &&& n.tick_count == m.tick_count && n.time_ticks == m.time_ticks
            &&& n.should_halt == m.should_halt && n.activity == m.activity
            &&& n.demo == DemoProgress { sent_by_task1: n.demo.sent_by_task1, ..m.demo }
            &&& forall|i: int|
                0 <= i < MAX_TASKS && i != idx ==> #[trigger] n.tasks[i] == m.tasks[i]
            &&& idx < MAX_TASKS ==> {
                let t = m.tasks[idx as int];
                let u = n.tasks[idx as int];
                u == Task {
                    last_reply: u.last_reply,
                    last_msg: u.last_msg,
                    pending_syscall: u.pending_syscall,
                    last_syscall_ret: u.last_syscall_ret,
                    last_syscall_ret_unread: u.last_syscall_ret_unread,
                    ..t
                }
            }
            &&& idx == TASK0_INDEX ==> n.tasks[0].pending_syscall == m.tasks[0].pending_syscall
        }),
{
    reveal(KernelView::user_step);
}

/// Whoever takes a step sees the answer to its last call on a page, once, and a reply that
/// has come in for it.
#[verifier::rlimit(40)]
pub proof fn law_step_shows_answers_once(m: KernelView, idx: usize)
    requires
        steps(m, idx),
    ensures
        ({
            let n = m.user_step(idx);
            let t = m.tasks[idx as int];
            &&& t.last_syscall_ret_unread ==> {
                &&& t.last_syscall_ret matches Some(code) ==> says(m, n, "ret", code)
                &&& n.tasks[idx as int].last_syscall_ret is None
                &&& !n.tasks[idx as int].last_syscall_ret_unread
            }
            &&& idx <= 1 ==> {
                &&& t.last_reply matches Some(word) ==> says(m, n, "reply", word)
                &&& n.tasks[idx as int].last_reply is None
            }
        }),
{
    reveal(KernelView::user_step);
    let n = m.user_step(idx);
    let t = m.tasks[idx as int];
    let k = m.effects.len() as int;
    if t.last_syscall_ret_unread && t.last_syscall_ret is Some {
        assert(n.effects[k + 2] == (Effect::Say {
            line: LogLine::Value { key: "ret", value: t.last_syscall_ret->0 },
        }));
    }
    if idx <= 1 && t.last_reply is Some {
        assert(n.effects[n.effects.len() - 1] == (Effect::Say {
            line: LogLine::Value { key: "reply", value: t.last_reply->0 },
        }));
    }
}

} // verus!
