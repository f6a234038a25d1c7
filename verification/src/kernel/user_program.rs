//! The demo programs of the tasks. The second task sends a message first of all, then now
//! and again while a receiver waits; the third one receives and replies for ever.

use vstd::prelude::*;

use crate::kernel::model::KernelView;
use crate::kernel::state::KernelState;
use crate::kernel::syscall::Syscall;
use crate::kernel::types::{
    DemoProgress, EndpointId, Task, TaskState, MAX_TASKS, TASK0_INDEX, TASK1_INDEX,
};

verus! {

/// How often the second task sends, in ticks.
pub const IPC_KICK_PERIOD_TICKS: u64 = 8;

pub const FIRST_MESSAGE: u64 = 0x1111_0000_0000_0000;

pub const LATER_MESSAGE: u64 = 0x2222_0000_0000_0000;

pub const REPLY_MESSAGE: u64 = 0xABCD_0000_0000_0000;

/// A word with the low 16 bits of `x` in its low bits.
pub open spec fn spec_tagged(word: u64, x: u64) -> u64 {
    (word + x % 0x1_0000) as u64
}

/// Puts the low 16 bits of `x` into the low bits of a word, where it has none.
pub fn tagged(word: u64, x: u64) -> (r: u64)
    requires
        word % 0x1_0000 == 0,
    ensures
        r == spec_tagged(word, x),
        r == word + x % 0x1_0000,
{
    assert(word % 0x1_0000 == 0 ==> word ^ (x & 0xffff) == word + x % 0x1_0000) by (bit_vector);
    word ^ (x & 0xffff)
}

impl KernelView {
    /// The result of a page system call that the task has not seen yet.
    pub open spec fn unread_ret(self, idx: usize) -> Option<u64> {
        if idx < MAX_TASKS && self.state(idx) != TaskState::Dead
            && self.tasks[idx as int].last_syscall_ret_unread {
            self.tasks[idx as int].last_syscall_ret
        } else {
            None
        }
    }

    /// A task shows a word that it got.
    pub open spec fn show_word(
        self,
        idx: usize,
        msg: &'static str,
        key: &'static str,
        word: Option<u64>,
    ) -> KernelView {
        match word {
            Some(v) => self.info(msg).value("task_id", self.tasks[idx as int].id.0).value(key, v),
            None => self,
        }
    }

    /// The task sees the result of its last page system call; it is gone then.
    pub open spec fn read_ret(self, idx: usize) -> KernelView {
        if idx < MAX_TASKS && self.state(idx) != TaskState::Dead
            && self.tasks[idx as int].last_syscall_ret_unread {
            self.put_task(
                idx as int,
                Task {
                    last_syscall_ret_unread: false,
                    last_syscall_ret: None,
                    ..self.tasks[idx as int]
                },
            )
        } else {
            self
        }
    }

    /// What the second task asks for next: to send its first message; later, every so many
    /// ticks, to send another one if somebody waits for it. The demo of a single slow send
    /// leaves it at the first message.
    pub open spec fn sender_wants(self) -> Option<Syscall> {
        let ep = EndpointId(0);
        if !self.demo.sent_by_task1 {
            Some(Syscall::IpcSend { ep, msg: spec_tagged(FIRST_MESSAGE, self.tick_count) })
        } else if self.features.ipc_demo_single_slow {
            None
        } else if self.tick_count != 0 && self.tick_count % IPC_KICK_PERIOD_TICKS == 0
            && self.endpoints[0].recv_waiter is Some {
            Some(Syscall::IpcSend { ep, msg: spec_tagged(LATER_MESSAGE, self.tick_count) })
        } else {
            None
        }
    }

    /// What the third task asks for next: to reply to the message that it has, or to
    /// receive one.
    pub open spec fn server_wants(self, idx: usize) -> Syscall {
        let ep = EndpointId(0);
        match self.tasks[idx as int].last_msg {
            Some(msg) => Syscall::IpcReply { ep, msg: spec_tagged(REPLY_MESSAGE, msg) },
            None => Syscall::IpcRecv { ep },
        }
    }

    /// One step of a task's demo program. Only a task that can run, and that has no system
    /// call to make yet, takes one.
    #[verifier::opaque]
    pub open spec fn user_step(self, idx: usize) -> KernelView {
        if idx >= MAX_TASKS || self.state(idx) == TaskState::Dead || self.state(idx)
            == TaskState::Blocked || self.tasks[idx as int].pending_syscall is Some {
            self
        } else {
            let m = self.read_ret(idx).show_word(
                idx,
                "syscall_ret_received",
                "ret",
                self.unread_ret(idx),
            );
            let t = m.tasks[idx as int];
            let r = m.show_word(idx, "ipc_reply_received", "reply", t.last_reply);
            if idx == TASK0_INDEX {
                r.put_task(idx as int, Task { last_reply: None, ..t })
            } else if idx == TASK1_INDEX {
                KernelView {
                    demo: DemoProgress { sent_by_task1: true, ..self.demo },
                    ..r
                }.put_task(
                    idx as int,
                    Task { last_reply: None, pending_syscall: self.sender_wants(), ..t },
                )
            } else {
                m.show_word(idx, "ipc_msg_received", "msg", t.last_msg).put_task(
                    idx as int,
                    Task { last_msg: None, pending_syscall: Some(self.server_wants(idx)), ..t },
                )
            }
        }
    }
}

/// In the demo of a single slow send the second task sends one message: a step that it
/// takes leaves the first message sent, and from then on no step of it asks for anything.
pub proof fn law_single_slow_send(m: KernelView)
    requires
        m.wf(),
        m.features.ipc_demo_single_slow,
    ensures
        m.state(TASK1_INDEX) == TaskState::Ready || m.state(TASK1_INDEX) == TaskState::Running ==> (
        m.tasks[1].pending_syscall is None ==> m.user_step(TASK1_INDEX).demo.sent_by_task1),
        m.demo.sent_by_task1 ==> {
            &&& m.user_step(TASK1_INDEX).tasks[1].pending_syscall == m.tasks[1].pending_syscall
            &&& m.user_step(TASK1_INDEX).demo.sent_by_task1
        },
{
    reveal(KernelView::user_step);
}

impl KernelState {
    /// Hands out the result of the last page system call of a task, once.
    pub fn take_unread_last_syscall_ret(&mut self, idx: usize) -> (r: Option<u64>)
        requires
            old(self).wf(),
        ensures
            final(self).wf(),
            r == old(self)@.unread_ret(idx),
            final(self)@ == old(self)@.read_ret(idx),
            final(self)@.room() >= old(self)@.room(),
    {
        if idx >= MAX_TASKS {
            return None;
        }
        let t = self.task(idx);
        if t.state == TaskState::Dead {
            return None;
        }
        if !t.last_syscall_ret_unread {
            return None;
        }
        self.put_task(idx, Task { last_syscall_ret_unread: false, last_syscall_ret: None, ..t });
        t.last_syscall_ret
    }

    /// Shows a word that a task got, if it did.
    fn show_word(
        &mut self,
        idx: usize,
        msg: &'static str,
        key: &'static str,
        word: Option<u64>,
    )
        requires
            old(self).wf(),
            idx < MAX_TASKS,
        ensures
            final(self).wf(),
            final(self)@ == old(self)@.show_word(idx, msg, key, word),
            final(self)@.room() == old(self)@.room(),
    {
        if let Some(v) = word {
            let id = self.task(idx).id;
            self.info(msg);
            self.value("task_id", id.0);
            self.value(key, v);
        }
    }

    /// Takes one step of a task's demo program.
    pub fn user_step_issue_syscall(&mut self, idx: usize)
        requires
            old(self).wf(),
        ensures
            final(self).wf(),
            final(self)@ == old(self)@.user_step(idx),
            final(self)@.room() >= old(self)@.room(),
    {
        proof {
            reveal(KernelView::user_step);
        }
        if idx >= MAX_TASKS {
            return;
        }
        let t = self.task(idx);
        if t.state == TaskState::Dead {
            return;
        }
        if t.pending_syscall.is_some() {
            return;
        }
        if t.state == TaskState::Blocked {
            return;
        }
        let ep = EndpointId(0);
        let ret = self.take_unread_last_syscall_ret(idx);
        self.show_word(idx, "syscall_ret_received", "ret", ret);
        let t = self.task(idx);
        if idx == TASK0_INDEX || idx == TASK1_INDEX {
            self.show_word(idx, "ipc_reply_received", "reply", t.last_reply);
        }
        if idx == TASK0_INDEX {
            self.put_task(idx, Task { last_reply: None, ..t });
            return;
        }
        let now: u64 = self.tick_count();
        if idx == TASK1_INDEX {
            let d = self.demo();
            if !d.sent_by_task1 {
                self.put_demo(DemoProgress { sent_by_task1: true, ..d });
                let sc = Syscall::IpcSend { ep, msg: tagged(FIRST_MESSAGE, now) };
                self.put_task(idx, Task { last_reply: None, pending_syscall: Some(sc), ..t });
                return;
            }
            if !self.features().ipc_demo_single_slow && now != 0 && now % IPC_KICK_PERIOD_TICKS
                == 0 {
                if self.endpoint(0).recv_waiter.is_some() {
                    let sc = Syscall::IpcSend { ep, msg: tagged(LATER_MESSAGE, now) };
                    self.put_task(idx, Task { last_reply: None, pending_syscall: Some(sc), ..t });
                    return;
                }
            }
            self.put_task(idx, Task { last_reply: None, ..t });
            return;
        }
        self.show_word(idx, "ipc_msg_received", "msg", t.last_msg);
        let sc = match t.last_msg {
            Some(msg) => Syscall::IpcReply { ep, msg: tagged(REPLY_MESSAGE, msg) },
            None => Syscall::IpcRecv { ep },
        };
        self.put_task(idx, Task { last_msg: None, pending_syscall: Some(sc), ..t });
    }
}

} // verus!
