//! Message passing between tasks: send, receive, reply.
//!
//! A sender waits for the receiver, then for its reply. A receiver takes the message of a
//! waiting sender, or waits for one. Nobody is left waiting for good: one who cannot wait,
//! or whose wait has become pointless, gets an error in place of a reply and goes on.

use vstd::prelude::*;

use crate::kernel::endpoint::EndpointView;
use crate::kernel::model::KernelView;
use crate::kernel::state::KernelState;
use crate::kernel::trace::{IpcPathEvent, IpcSyscallKind};
use crate::kernel::types::{
    BlockedReason, DemoProgress, Effect, EndpointId, KernelCounters, LogEvent, Task, TaskId,
    TaskState, MAX_ENDPOINTS, MAX_TASKS, TASK2_INDEX,
};
use crate::mem::address_space::AddressSpaceKind;
use crate::seqs::{
    last_such, lemma_filter_len, lemma_filter_take, lemma_last_such_is, lemma_last_such_none,
    swap_remove,
};

verus! {

broadcast use crate::mem::address_space::lemma_view;

/// The answer to one whose partner died, or that may not take part.
pub const IPC_ERR_DEAD_PARTNER: u64 = 0xDEAD_DEAD_DEAD_DEAD;

/// The answer at a closed endpoint.
pub const IPC_ERR_ENDPOINT_CLOSED: u64 = 0xC105_ED00_C105_ED00;

/// The answer where a queue is full.
pub const IPC_ERR_CAPACITY: u64 = 0xC0DE_C0DE_C0DE_C0DE;

/// The answer to one that wants to receive where another waits already.
pub const IPC_ERR_RECV_ALREADY_WAITING: u64 = 0xBADC_0FFE_BADC_0FFE;

/// The name of a call, for the log.
pub open spec fn api_line(kind: IpcSyscallKind) -> &'static str {
    match kind {
        IpcSyscallKind::Recv => "api=ipc_recv",
        IpcSyscallKind::Send => "api=ipc_send",
        IpcSyscallKind::Reply => "api=ipc_reply",
    }
}

/// What is said where a call names no endpoint that exists.
pub open spec fn no_endpoint_line(kind: IpcSyscallKind) -> &'static str {
    match kind {
        IpcSyscallKind::Recv => "ipc_recv: ep out of range",
        IpcSyscallKind::Send => "ipc_send: ep out of range",
        IpcSyscallKind::Reply => "ipc_reply: ep out of range",
    }
}

impl KernelView {
    /// A task gets an error in place of a reply and need not wait any more.
    pub open spec fn rescue(self, idx: usize, err: u64) -> KernelView {
        if idx >= MAX_TASKS || self.state(idx) == TaskState::Dead {
            self
        } else {
            self.put_task(
                idx as int,
                Task {
                    pending_send_msg: None,
                    blocked_reason: None,
                    last_reply: Some(err),
                    ..self.tasks[idx as int]
                },
            ).wake(idx)
        }
    }

    /// The current task gets a word in place of a reply.
    pub open spec fn answer_current(self, word: u64) -> KernelView {
        self.put_task(
            self.current as int,
            Task { last_reply: Some(word), ..self.tasks[self.current as int] },
        )
    }

    /// It is said that the current task is refused at an endpoint, and by which call.
    pub open spec fn say_refused(
        self,
        msg: &'static str,
        api: &'static str,
        ep: EndpointId,
    ) -> KernelView {
        self.error(msg).info(api).value("task_id", self.tasks[self.current as int].id.0).value(
            "ep_id",
            ep.0 as u64,
        )
    }

    /// The state after a call at an endpoint was refused, or nothing if it may go on: the
    /// endpoint must exist, the caller must be alive and no kernel task, and the endpoint
    /// must be open.
    pub open spec fn ipc_refused(self, kind: IpcSyscallKind, ep: EndpointId) -> Option<KernelView> {
        if ep.0 >= MAX_ENDPOINTS {
            Some(self.error(no_endpoint_line(kind)))
        } else if self.state(self.current) == TaskState::Dead {
            Some(self)
        } else if self.is_kernel_task(self.current) {
            Some(
                self.say_refused(
                    "ipc: kernel task is forbidden to call IPC (rejected at entry)",
                    api_line(kind),
                    ep,
                ).answer_current(IPC_ERR_DEAD_PARTNER),
            )
        } else if self.endpoints[ep.0 as int].is_closed {
            Some(
                self.say_refused(
                    "ipc: endpoint is CLOSED (rejected at entry)",
                    api_line(kind),
                    ep,
                ).answer_current(IPC_ERR_ENDPOINT_CLOSED),
            )
        } else {
            None
        }
    }

    /// A task index that stands for a task that waits to send at `ep` and has a message.
    pub open spec fn waits_to_send(self, ep: EndpointId) -> spec_fn(usize) -> bool {
        |idx: usize|
            idx < MAX_TASKS && self.state(idx) == TaskState::Blocked
                && self.tasks[idx as int].blocked_reason == Some(BlockedReason::IpcSend { ep })
                && self.tasks[idx as int].pending_send_msg is Some
    }

    /// A task index that stands for a task that waits at `ep` for a reply of `partner`.
    pub open spec fn waits_for_reply(self, ep: EndpointId, partner: TaskId) -> spec_fn(
        usize,
    ) -> bool {
        |idx: usize|
            idx < MAX_TASKS && self.state(idx) != TaskState::Dead
                && self.tasks[idx as int].blocked_reason == Some(
                BlockedReason::IpcReply { partner, ep },
            )
    }

    /// A task index that stands for a task that waits at `ep` for a reply of anybody.
    pub open spec fn waits_for_any_reply(self, ep: EndpointId) -> spec_fn(usize) -> bool {
        |idx: usize|
            {
                &&& idx < MAX_TASKS
                &&& self.state(idx) != TaskState::Dead
                &&& self.tasks[idx as int].blocked_reason matches Some(
                    BlockedReason::IpcReply { ep: at, .. },
                )
                &&& at == ep
            }
    }

    /// A task index that does not.
    pub open spec fn broken_reply_entry(self, ep: EndpointId) -> spec_fn(usize) -> bool {
        |idx: usize| !self.waits_for_any_reply(ep)(idx)
    }

    /// The task that waits to receive at `ep`, if it really does.
    pub open spec fn receiver_at(self, ep: EndpointId) -> Option<usize> {
        match self.endpoints[ep.0 as int].recv_waiter {
            Some(idx) => if idx < MAX_TASKS && self.state(idx) != TaskState::Dead
                && self.tasks[idx as int].blocked_reason == Some(BlockedReason::IpcRecv { ep }) {
                Some(idx)
            } else {
                None
            },
            None => None,
        }
    }

    /// The demo counts the first two messages that reach the third task.
    pub open spec fn count_delivery(self, ep: EndpointId, recv: usize) -> KernelView {
        if ep == EndpointId(0) && recv == TASK2_INDEX && self.demo.msgs_delivered < 2 {
            self.put_demo(
                DemoProgress {
                    msgs_delivered: (self.demo.msgs_delivered + 1) as u8,
                    ..self.demo
                },
            )
        } else {
            self
        }
    }

    /// The demo counts the first two replies of the third task.
    pub open spec fn count_reply(self, ep: EndpointId, replier: usize) -> KernelView {
        if ep == EndpointId(0) && replier == TASK2_INDEX && self.demo.replies_sent < 2 {
            self.put_demo(
                DemoProgress { replies_sent: (self.demo.replies_sent + 1) as u8, ..self.demo },
            )
        } else {
            self
        }
    }

    /// A sender waits for the reply of the receiver, if there is room in the queue.
    pub open spec fn await_reply(self, ep: EndpointId, send: usize, partner: TaskId) -> KernelView {
        self.put_endpoint(
            ep.0 as int,
            self.endpoints[ep.0 as int].enqueue_reply_waiter(send),
        ).block(send, BlockedReason::IpcReply { partner, ep })
    }

    /// What is said of an entry in the queue of senders that does not wait to send, or has
    /// no message.
    pub open spec fn say_broken_sender(self, idx: usize, ep: EndpointId) -> KernelView {
        if idx >= MAX_TASKS {
            self.error("ipc_recv_fastpath: dequeued sender idx out of range; drop")
        } else {
            let t = self.tasks[idx as int];
            if t.state == TaskState::Dead {
                self.error("ipc_recv_fastpath: dequeued sender is DEAD; drop")
            } else if t.blocked_reason != Some(BlockedReason::IpcSend { ep }) {
                self.error("ipc_recv_fastpath: sender blocked_reason mismatch; drop").value(
                    "task_id",
                    t.id.0,
                )
            } else if t.state != TaskState::Blocked {
                self.error("ipc_recv_fastpath: sender state is not BLOCKED; drop").value(
                    "task_id",
                    t.id.0,
                )
            } else {
                self.error(
                    "ipc_recv_fastpath: sender had no pending_send_msg; rescue+continue",
                ).value("sender_task_id", t.id.0)
            }
        }
    }

    /// The entries at the end of the queue of senders that do not wait to send leave it;
    /// those of them that are alive are sent on with an error.
    pub open spec fn drop_broken_senders(self, ep: EndpointId) -> KernelView
        decreases self.endpoints[ep.0 as int].send_queue.len(),
    {
        let e = self.endpoints[ep.0 as int];
        if e.send_queue.len() == 0 || self.waits_to_send(ep)(e.send_queue.last()) || ep.0
            >= self.endpoints.len() {
            self
        } else {
            self.put_endpoint(
                ep.0 as int,
                EndpointView { send_queue: e.send_queue.drop_last(), ..e },
            ).say_broken_sender(e.send_queue.last(), ep).rescue(
                e.send_queue.last(),
                IPC_ERR_DEAD_PARTNER,
            ).drop_broken_senders(ep)
        }
    }

    /// The receiver takes the message of the last sender in the queue. The flag tells
    /// whether there was one. A sender without room to wait for the reply is sent on with
    /// an error.
    pub open spec fn recv_fast(self, ep: EndpointId, recv: usize) -> (KernelView, bool) {
        let d = self.drop_broken_senders(ep);
        let e = d.endpoints[ep.0 as int];
        if e.send_queue.len() == 0 {
            (d, false)
        } else {
            let send = e.send_queue.last();
            let sender = d.tasks[send as int];
            let msg = sender.pending_send_msg->0;
            let recv_id = d.tasks[recv as int].id;
            let taken = d.put_endpoint(
                ep.0 as int,
                EndpointView { send_queue: e.send_queue.drop_last(), ..e },
            ).put_task(send as int, Task { pending_send_msg: None, ..sender });
            if e.reply_queue.len() >= MAX_TASKS {
                (
                    taken.error("ipc_recv_fastpath: reply_queue full; rescue sender").value(
                        "sender_task_id",
                        sender.id.0,
                    ).rescue(send, IPC_ERR_CAPACITY),
                    false,
                )
            } else {
                let w = taken.await_reply(ep, send, recv_id);
                let c = w.counters;
                (
                    w.put_task(
                        recv as int,
                        Task { last_msg: Some(msg), ..w.tasks[recv as int] },
                    ).count_delivery(ep, recv).put_counters(
                        KernelCounters { ipc_recv_fast: (c.ipc_recv_fast + 1) as u64, ..c },
                    ).emit(Effect::IpcPath { event: IpcPathEvent::RecvFast }).log(
                        LogEvent::IpcDelivered { from: sender.id, to: recv_id, ep, msg },
                    ),
                    true,
                )
            }
        }
    }

    /// The receiver waits for a message. Only one task can do so at an endpoint: a second
    /// one gets an error.
    pub open spec fn recv_slow(self, ep: EndpointId, recv: usize) -> KernelView {
        let t = self.tasks[recv as int];
        if self.endpoints[ep.0 as int].recv_waiter is Some {
            self.error(
                "ipc_recv_slowpath: recv_waiter already exists; recv rejected (prototype)",
            ).put_task(recv as int, Task { last_reply: Some(IPC_ERR_RECV_ALREADY_WAITING), ..t })
        } else {
            let c = self.counters;
            let b = self.put_counters(
                KernelCounters { ipc_recv_slow: (c.ipc_recv_slow + 1) as u64, ..c },
            ).emit(Effect::IpcPath { event: IpcPathEvent::RecvSlow }).block(
                recv,
                BlockedReason::IpcRecv { ep },
            );
            let w = b.put_endpoint(
                ep.0 as int,
                EndpointView { recv_waiter: Some(recv), ..b.endpoints[ep.0 as int] },
            ).log(LogEvent::IpcRecvBlocked { task: t.id, ep });
            if self.features.ring3_mailbox {
                w
            } else {
                w.schedule()
            }
        }
    }

    /// The current task receives at an endpoint.
    #[verifier::opaque]
    pub open spec fn ipc_recv(self, ep: EndpointId) -> KernelView {
        match self.ipc_refused(IpcSyscallKind::Recv, ep) {
            Some(refused) => refused,
            None => {
                let recv = self.current;
                let (m, taken) = self.log(
                    LogEvent::IpcRecvCalled { task: self.tasks[recv as int].id, ep },
                ).recv_fast(ep, recv);
                if taken {
                    m
                } else {
                    m.recv_slow(ep, recv)
                }
            },
        }
    }

    /// After the sender has blocked, another task runs; only the single-shot mailbox stays
    /// where it is.
    pub open spec fn leave_sender(self, event: IpcPathEvent) -> KernelView {
        if self.features.ring3_mailbox && !self.features.ring3_mailbox_loop {
            self.emit(Effect::IpcPath { event })
        } else {
            self.schedule()
        }
    }

    /// What is said where one stands at the endpoint as its receiver without waiting there.
    pub open spec fn say_no_receiver(self, ep: EndpointId) -> KernelView {
        match self.endpoints[ep.0 as int].recv_waiter {
            None => self,
            Some(idx) => if idx >= MAX_TASKS {
                self.error("ipc_send_fastpath: recv_waiter idx out of range")
            } else if self.state(idx) == TaskState::Dead {
                self.error("ipc_send_fastpath: recv_waiter is DEAD; abort deliver")
            } else {
                self.error(
                    "ipc_send_fastpath: recv_waiter blocked_reason mismatch; abort deliver",
                )
            },
        }
    }

    /// The sender hands its message to the receiver that waits at the endpoint. The flag
    /// tells whether there was one.
    pub open spec fn send_fast(self, ep: EndpointId, msg: u64) -> (KernelView, bool) {
        match self.receiver_at(ep) {
            None => (self.say_no_receiver(ep), false),
            Some(recv) => {
                let send = self.current;
                let send_id = self.tasks[send as int].id;
                let recv_id = self.tasks[recv as int].id;
                let e = self.endpoints[ep.0 as int];
                let woken = self.put_endpoint(
                    ep.0 as int,
                    EndpointView { recv_waiter: None, ..e },
                ).wake(recv);
                let m = woken.put_task(
                    recv as int,
                    Task { last_msg: Some(msg), ..woken.tasks[recv as int] },
                );
                if e.reply_queue.len() >= MAX_TASKS {
                    (
                        m.error("ipc_send_fastpath: reply_queue full; rescue sender").value(
                            "task_id",
                            send_id.0,
                        ).answer_current(IPC_ERR_CAPACITY),
                        true,
                    )
                } else {
                    let w = m.await_reply(ep, send, recv_id).count_delivery(ep, recv);
                    let c = w.counters;
                    (
                        w.put_counters(
                            KernelCounters { ipc_send_fast: (c.ipc_send_fast + 1) as u64, ..c },
                        ).emit(Effect::IpcPath { event: IpcPathEvent::SendFast }).log(
                            LogEvent::IpcDelivered { from: send_id, to: recv_id, ep, msg },
                        ).leave_sender(IpcPathEvent::SendFast),
                        true,
                    )
                }
            },
        }
    }

    /// The sender waits for a receiver, if there is room in the queue.
    pub open spec fn send_slow(self, ep: EndpointId, msg: u64) -> KernelView {
        let send = self.current;
        let t = self.tasks[send as int];
        let e = self.endpoints[ep.0 as int];
        let c = self.counters;
        let m = self.put_counters(
            KernelCounters { ipc_send_slow: (c.ipc_send_slow + 1) as u64, ..c },
        ).emit(Effect::IpcPath { event: IpcPathEvent::SendSlow });
        if e.send_queue.len() >= MAX_TASKS {
            m.error("ipc_send_slowpath: send_queue full; reject").value(
                "task_id",
                t.id.0,
            ).answer_current(IPC_ERR_CAPACITY)
        } else {
            m.put_endpoint(ep.0 as int, e.enqueue_sender(send)).put_task(
                send as int,
                Task { pending_send_msg: Some(msg), ..t },
            ).block(send, BlockedReason::IpcSend { ep }).log(
                LogEvent::IpcSendBlocked { task: t.id, ep },
            ).leave_sender(IpcPathEvent::SendSlow)
        }
    }

    /// The current task sends at an endpoint.
    #[verifier::opaque]
    pub open spec fn ipc_send(self, ep: EndpointId, msg: u64) -> KernelView {
        match self.ipc_refused(IpcSyscallKind::Send, ep) {
            Some(refused) => refused,
            None => {
                let (m, delivered) = self.log(
                    LogEvent::IpcSendCalled { task: self.tasks[self.current as int].id, ep, msg },
                ).send_fast(ep, msg);
                if delivered {
                    m
                } else {
                    m.send_slow(ep, msg)
                }
            },
        }
    }

    /// What is said of an entry in the queue for replies that does not wait for one.
    pub open spec fn say_broken_waiter(self, idx: usize) -> KernelView {
        if idx >= MAX_TASKS {
            self.error("ipc: reply_queue contains out-of-range task idx; drop")
        } else {
            let t = self.tasks[idx as int];
            self.error(
                if t.state == TaskState::Dead {
                    "ipc: reply_queue contains DEAD task; drop"
                } else {
                    "ipc: reply_queue blocked_reason mismatch; drop (will rescue)"
                },
            ).value("task_id", t.id.0)
        }
    }

    /// Entries of the queue for replies that do not wait for one are named and, if alive,
    /// sent on with an error, one after the other.
    pub open spec fn rescue_all(self, waiters: Seq<usize>, err: u64) -> KernelView
        decreases waiters.len(),
    {
        if waiters.len() == 0 {
            self
        } else {
            self.rescue_all(waiters.drop_last(), err).say_broken_waiter(waiters.last()).rescue(
                waiters.last(),
                err,
            )
        }
    }

    /// Whoever stands in the queue for replies without waiting for one leaves it; those of
    /// them that are alive are sent on with an error.
    pub open spec fn sweep_reply_queue(self, ep: EndpointId) -> KernelView {
        let e = self.endpoints[ep.0 as int];
        self.put_endpoint(
            ep.0 as int,
            EndpointView { reply_queue: e.reply_queue.filter(self.waits_for_any_reply(ep)), ..e },
        ).rescue_all(e.reply_queue.filter(self.broken_reply_entry(ep)), IPC_ERR_DEAD_PARTNER)
    }

    /// The queue for replies is swept. Then the last task in it that waits for a reply of
    /// `partner` leaves it, if there is one; the others stay.
    pub open spec fn take_reply_waiter(self, ep: EndpointId, partner: TaskId) -> (
        KernelView,
        Option<usize>,
    ) {
        let m = self.sweep_reply_queue(ep);
        let e = m.endpoints[ep.0 as int];
        match last_such(e.reply_queue, m.waits_for_reply(ep, partner)) {
            Some(pos) => (
                m.put_endpoint(
                    ep.0 as int,
                    EndpointView { reply_queue: swap_remove(e.reply_queue, pos), ..e },
                ),
                Some(e.reply_queue[pos]),
            ),
            None => (m, None),
        }
    }

    /// The current task replies at an endpoint to a task that waits for its reply.
    #[verifier::opaque]
    pub open spec fn ipc_reply(self, ep: EndpointId, msg: u64) -> KernelView {
        match self.ipc_refused(IpcSyscallKind::Reply, ep) {
            Some(refused) => refused,
            None => {
                let replier = self.current;
                let replier_id = self.tasks[replier as int].id;
                let (m, waiter) = self.take_reply_waiter(ep, replier_id);
                match waiter {
                    None => m.emit(Effect::IpcPath { event: IpcPathEvent::ReplyNoWaiter }),
                    Some(send) => {
                        let send_id = m.tasks[send as int].id;
                        let d = m.log(
                            LogEvent::IpcReplyCalled { task: replier_id, ep, to: send_id },
                        ).put_task(
                            send as int,
                            Task { last_reply: Some(msg), ..m.tasks[send as int] },
                        ).wake(send).count_reply(ep, replier);
                        let c = d.counters;
                        d.put_counters(
                            KernelCounters {
                                ipc_reply_delivered: (c.ipc_reply_delivered + 1) as u64,
                                ..c
                            },
                        ).emit(Effect::IpcPath { event: IpcPathEvent::ReplyDelivered }).log(
                            LogEvent::IpcReplyDelivered { from: replier_id, to: send_id, ep },
                        )
                    },
                }
            },
        }
    }

    /// A task that waited at an endpoint that closes gets an error in place of a reply.
    pub open spec fn rescue_at_close(self, idx: usize, drop_message: bool) -> KernelView {
        if idx >= MAX_TASKS || self.state(idx) == TaskState::Dead {
            self
        } else {
            let t = self.tasks[idx as int];
            self.put_task(
                idx as int,
                Task {
                    pending_send_msg: if drop_message {
                        None
                    } else {
                        t.pending_send_msg
                    },
                    blocked_reason: None,
                    last_reply: Some(IPC_ERR_ENDPOINT_CLOSED),
                    ..t
                },
            ).wake(idx)
        }
    }

    /// The same for a queue of tasks, from the last one to the first.
    pub open spec fn rescue_all_at_close(
        self,
        waiters: Seq<usize>,
        drop_message: bool,
    ) -> KernelView
        decreases waiters.len(),
    {
        if waiters.len() == 0 {
            self
        } else {
            self.rescue_at_close(waiters.last(), drop_message).rescue_all_at_close(
                waiters.drop_last(),
                drop_message,
            )
        }
    }

    /// An endpoint closes: whoever waits there is sent on with an error.
    #[verifier::opaque]
    pub open spec fn close_endpoint(self, ep: EndpointId) -> KernelView {
        if ep.0 >= MAX_ENDPOINTS || self.endpoints[ep.0 as int].is_closed {
            self
        } else {
            let e = self.endpoints[ep.0 as int];
            let m = self.put_endpoint(ep.0 as int, e.closed()).error(
                "ipc: endpoint CLOSED; rescuing waiters",
            ).value("ep_id", ep.0 as u64);
            let r = match e.recv_waiter {
                Some(idx) => m.rescue_at_close(idx, false),
                None => m,
            };
            r.rescue_all_at_close(e.send_queue, true).rescue_all_at_close(e.reply_queue, false)
        }
    }
}

impl KernelState {
    /// Whether a task belongs to the kernel.
    pub fn is_kernel_task_index(&self, idx: usize) -> (r: bool)
        requires
            self.wf(),
        ensures
            r == self@.is_kernel_task(idx),
    {
        if idx >= MAX_TASKS {
            return false;
        }
        self.space(self.task(idx).address_space_id.0).kind == AddressSpaceKind::Kernel
    }

    fn answer_current(&mut self, word: u64)
        requires
            old(self).wf(),
        ensures
            final(self).wf(),
            final(self)@ == old(self)@.answer_current(word),
            final(self)@.room() >= old(self)@.room(),
    {
        let idx: usize = self.current_task();
        let t = self.task(idx);
        self.put_task(idx, Task { last_reply: Some(word), ..t });
    }

    fn say_refused(&mut self, msg: &'static str, api_name: &'static str, ep: EndpointId)
        requires
            old(self).wf(),
        ensures
            final(self).wf(),
            final(self)@ == old(self)@.say_refused(msg, api_name, ep),
            final(self)@.room() == old(self)@.room(),
    {
        let id = self.task(self.current_task()).id;
        self.error(msg);
        self.info(api_name);
        self.value("task_id", id.0);
        self.value("ep_id", ep.0 as u64);
    }

    /// Refuses a dead caller, and a kernel task, which gets an error.
    fn reject_ipc_if_kernel_current(&mut self, api_name: &'static str, ep: EndpointId) -> (rejected:
        bool)
        requires
            old(self).wf(),
        ensures
            final(self).wf(),
            rejected == (old(self)@.state(old(self)@.current) == TaskState::Dead
                || old(self)@.is_kernel_task(old(self)@.current)),
            final(self)@ == if rejected && old(self)@.state(old(self)@.current)
                != TaskState::Dead {
                old(self)@.say_refused(
                    "ipc: kernel task is forbidden to call IPC (rejected at entry)",
                    api_name,
                    ep,
                ).answer_current(IPC_ERR_DEAD_PARTNER)
            } else {
                old(self)@
            },
            final(self)@.room() >= old(self)@.room(),
    {
        let idx: usize = self.current_task();
        if self.task(idx).state == TaskState::Dead {
            return true;
        }
        if self.is_kernel_task_index(idx) {
            self.say_refused(
                "ipc: kernel task is forbidden to call IPC (rejected at entry)",
                api_name,
                ep,
            );
            self.answer_current(IPC_ERR_DEAD_PARTNER);
            return true;
        }
        false
    }

    /// Refuses a call at an endpoint that does not exist or is closed; in the second case
    /// a caller that is alive gets an error.
    fn reject_ipc_if_endpoint_closed(
        &mut self,
        api_name: &'static str,
        ep: EndpointId,
    ) -> (rejected: bool)
        requires
            old(self).wf(),
        ensures
            final(self).wf(),
            rejected == (ep.0 >= MAX_ENDPOINTS || old(self)@.endpoints[ep.0 as int].is_closed),
            final(self)@ == if rejected && ep.0 < MAX_ENDPOINTS && old(self)@.state(
                old(self)@.current,
            ) != TaskState::Dead {
                old(self)@.say_refused(
                    "ipc: endpoint is CLOSED (rejected at entry)",
                    api_name,
                    ep,
                ).answer_current(IPC_ERR_ENDPOINT_CLOSED)
            } else {
                old(self)@
            },
            final(self)@.room() >= old(self)@.room(),
    {
        if ep.0 >= MAX_ENDPOINTS {
            return true;
        }
        if self.endpoint(ep.0).is_closed {
            let idx: usize = self.current_task();
            if self.task(idx).state != TaskState::Dead {
                self.say_refused("ipc: endpoint is CLOSED (rejected at entry)", api_name, ep);
                self.answer_current(IPC_ERR_ENDPOINT_CLOSED);
            }
            return true;
        }
        false
    }

    /// Sends a task on with an error in place of a reply.
    pub fn rescue_task_with_error(&mut self, idx: usize, err: u64)
        requires
            old(self).wf(),
        ensures
            final(self).wf(),
            final(self)@ == old(self)@.rescue(idx, err),
            final(self)@.room() >= old(self)@.room(),
    {
        if idx >= MAX_TASKS {
            return;
        }
        let t = self.task(idx);
        if t.state == TaskState::Dead {
            return;
        }
        self.put_task(
            idx,
            Task { pending_send_msg: None, blocked_reason: None, last_reply: Some(err), ..t },
        );
        self.wake_task_to_ready(idx);
    }

    /// Sends the current task on with an error in place of a reply.
    pub fn rescue_current_with_error(&mut self, err: u64)
        requires
            old(self).wf(),
        ensures
            final(self).wf(),
            final(self)@ == old(self)@.rescue(old(self)@.current, err),
            final(self)@.room() >= old(self)@.room(),
    {
        let idx: usize = self.current_task();
        self.rescue_task_with_error(idx, err);
    }

    fn rescue_at_close(&mut self, idx: usize, drop_message: bool)
        requires
            old(self).wf(),
        ensures
            final(self).wf(),
            final(self)@ == old(self)@.rescue_at_close(idx, drop_message),
            final(self)@.room() >= old(self)@.room(),
    {
        if idx >= MAX_TASKS {
            return;
        }
        let t = self.task(idx);
        if t.state == TaskState::Dead {
            return;
        }
        let kept = if drop_message {
            None
        } else {
            t.pending_send_msg
        };
        self.put_task(
            idx,
            Task {
                pending_send_msg: kept,
                blocked_reason: None,
                last_reply: Some(IPC_ERR_ENDPOINT_CLOSED),
                ..t
            },
        );
        self.wake_task_to_ready(idx);
    }

    fn rescue_all_at_close(&mut self, waiters: &[usize; MAX_TASKS], len: usize, drop_message: bool)
        requires
            old(self).wf(),
            len <= MAX_TASKS,
        ensures
            final(self).wf(),
            final(self)@ == old(self)@.rescue_all_at_close(
                waiters@.take(len as int),
                drop_message,
            ),
            final(self)@.room() >= old(self)@.room(),
    {
        let mut n: usize = len;
        while n > 0
            invariant
                self.wf(),
                n <= len <= MAX_TASKS,
                self@.rescue_all_at_close(waiters@.take(n as int), drop_message) == old(
                    self,
                )@.rescue_all_at_close(waiters@.take(len as int), drop_message),
                self@.room() >= old(self)@.room(),
            decreases n,
        {
            assert(waiters@.take(n as int).drop_last() =~= waiters@.take(n - 1));
            n -= 1;
            self.rescue_at_close(waiters[n], drop_message);
        }
    }

    /// Closes an endpoint and sends on whoever waits there.
    pub fn close_endpoint_and_rescue_waiters(&mut self, ep: EndpointId)
        requires
            old(self).wf(),
        ensures
            final(self).wf(),
            final(self)@ == old(self)@.close_endpoint(ep),
            final(self)@.room() >= old(self)@.room(),
    {
        proof {
            reveal(KernelView::close_endpoint);
        }
        if ep.0 >= MAX_ENDPOINTS {
            return;
        }
        let e = self.endpoint(ep.0);
        if e.is_closed {
            return;
        }
        let mut closed = e;
        closed.close();
        self.put_endpoint(ep.0, closed);
        self.error("ipc: endpoint CLOSED; rescuing waiters");
        self.value("ep_id", ep.0 as u64);
        if let Some(idx) = e.recv_waiter {
            self.rescue_at_close(idx, false);
        }
        self.rescue_all_at_close(&e.send_queue, e.sq_len, true);
        self.rescue_all_at_close(&e.reply_queue, e.rq_len, false);
    }

    /// The current task's sender path leaves the processor.
    fn leave_sender(&mut self, event: IpcPathEvent)
        requires
            old(self).wf(),
            old(self)@.room() >= 1,
        ensures
            final(self).wf(),
            final(self)@ == old(self)@.leave_sender(event),
            final(self)@.room() >= old(self)@.room() - 1,
    {
        let f = self.features();
        if f.ring3_mailbox && !f.ring3_mailbox_loop {
            self.emit(Effect::IpcPath { event });
        } else {
            self.schedule_next_task();
        }
    }

    fn count_delivery(&mut self, ep: EndpointId, recv: usize)
        requires
            old(self).wf(),
        ensures
            final(self).wf(),
            final(self)@ == old(self)@.count_delivery(ep, recv),
            final(self)@.room() == old(self)@.room(),
    {
        let d = self.demo();
        if ep.0 == 0 && recv == TASK2_INDEX && d.msgs_delivered < 2 {
            self.put_demo(DemoProgress { msgs_delivered: d.msgs_delivered + 1, ..d });
        }
    }

    fn count_reply(&mut self, ep: EndpointId, replier: usize)
        requires
            old(self).wf(),
        ensures
            final(self).wf(),
            final(self)@ == old(self)@.count_reply(ep, replier),
            final(self)@.room() == old(self)@.room(),
    {
        let d = self.demo();
        if ep.0 == 0 && replier == TASK2_INDEX && d.replies_sent < 2 {
            self.put_demo(DemoProgress { replies_sent: d.replies_sent + 1, ..d });
        }
    }

    fn await_reply(&mut self, ep: EndpointId, send: usize, partner: TaskId)
        requires
            old(self).wf(),
            ep.0 < MAX_ENDPOINTS,
        ensures
            final(self).wf(),
            final(self)@ == old(self)@.await_reply(ep, send, partner),
            final(self)@.room() >= old(self)@.room(),
    {
        let mut e = self.endpoint(ep.0);
        let _ = e.try_enqueue_reply_waiter(send);
        self.put_endpoint(ep.0, e);
        self.block_task(send, BlockedReason::IpcReply { partner, ep });
    }

    /// Whether a task waits to send at an endpoint and has a message.
    fn is_sender_at(&self, idx: usize, ep: EndpointId) -> (r: bool)
        requires
            self.wf(),
        ensures
            r == self@.waits_to_send(ep)(idx),
    {
        if idx >= MAX_TASKS {
            return false;
        }
        let t = self.task(idx);
        if t.state != TaskState::Blocked || t.pending_send_msg.is_none() {
            return false;
        }
        match t.blocked_reason {
            Some(BlockedReason::IpcSend { ep: at }) => at == ep,
            _ => false,
        }
    }

    /// Whether a task waits at an endpoint for a reply of anybody.
    fn is_any_reply_waiter_at(&self, idx: usize, ep: EndpointId) -> (r: bool)
        requires
            self.wf(),
        ensures
            r == self@.waits_for_any_reply(ep)(idx),
    {
        if idx >= MAX_TASKS {
            return false;
        }
        let t = self.task(idx);
        if t.state == TaskState::Dead {
            return false;
        }
        match t.blocked_reason {
            Some(BlockedReason::IpcReply { ep: at, .. }) => at == ep,
            _ => false,
        }
    }

    /// Whether a task waits at an endpoint for a reply of `partner`.
    fn is_reply_waiter_at(&self, idx: usize, ep: EndpointId, partner: TaskId) -> (r: bool)
        requires
            self.wf(),
        ensures
            r == self@.waits_for_reply(ep, partner)(idx),
    {
        if idx >= MAX_TASKS {
            return false;
        }
        let t = self.task(idx);
        if t.state == TaskState::Dead {
            return false;
        }
        match t.blocked_reason {
            Some(BlockedReason::IpcReply { partner: of, ep: at }) => at == ep && of == partner,
            _ => false,
        }
    }

    fn say_broken_sender(&mut self, idx: usize, ep: EndpointId)
        requires
            old(self).wf(),
        ensures
            final(self).wf(),
            final(self)@ == old(self)@.say_broken_sender(idx, ep),
            final(self)@.room() == old(self)@.room(),
    {
        if idx >= MAX_TASKS {
            self.error("ipc_recv_fastpath: dequeued sender idx out of range; drop");
            return;
        }
        let t = self.task(idx);
        if t.state == TaskState::Dead {
            self.error("ipc_recv_fastpath: dequeued sender is DEAD; drop");
            return;
        }
        let sends_here = match t.blocked_reason {
            Some(BlockedReason::IpcSend { ep: at }) => at == ep,
            _ => false,
        };
        if !sends_here {
            self.error("ipc_recv_fastpath: sender blocked_reason mismatch; drop");
            self.value("task_id", t.id.0);
        } else if t.state != TaskState::Blocked {
            self.error("ipc_recv_fastpath: sender state is not BLOCKED; drop");
            self.value("task_id", t.id.0);
        } else {
            self.error("ipc_recv_fastpath: sender had no pending_send_msg; rescue+continue");
            self.value("sender_task_id", t.id.0);
        }
    }

    fn say_broken_waiter(&mut self, idx: usize)
        requires
            old(self).wf(),
        ensures
            final(self).wf(),
            final(self)@ == old(self)@.say_broken_waiter(idx),
            final(self)@.room() == old(self)@.room(),
    {
        if idx >= MAX_TASKS {
            self.error("ipc: reply_queue contains out-of-range task idx; drop");
            return;
        }
        let t = self.task(idx);
        if t.state == TaskState::Dead {
            self.error("ipc: reply_queue contains DEAD task; drop");
        } else {
            self.error("ipc: reply_queue blocked_reason mismatch; drop (will rescue)");
        }
        self.value("task_id", t.id.0);
    }

    fn say_no_receiver(&mut self, ep: EndpointId)
        requires
            old(self).wf(),
            ep.0 < MAX_ENDPOINTS,
        ensures
            final(self).wf(),
            final(self)@ == old(self)@.say_no_receiver(ep),
            final(self)@.room() == old(self)@.room(),
    {
        if let Some(idx) = self.endpoint(ep.0).recv_waiter {
            if idx >= MAX_TASKS {
                self.error("ipc_send_fastpath: recv_waiter idx out of range");
            } else if self.task(idx).state == TaskState::Dead {
                self.error("ipc_send_fastpath: recv_waiter is DEAD; abort deliver");
            } else {
                self.error("ipc_send_fastpath: recv_waiter blocked_reason mismatch; abort deliver");
            }
        }
    }

    /// Takes the entries at the end of the queue of senders out that do not wait to send.
    fn drop_broken_senders(&mut self, ep: EndpointId)
        requires
            old(self).wf(),
            ep.0 < MAX_ENDPOINTS,
        ensures
            final(self).wf(),
            final(self)@ == old(self)@.drop_broken_senders(ep),
            final(self)@.room() >= old(self)@.room(),
            ({
                let q = final(self)@.endpoints[ep.0 as int].send_queue;
                q.len() > 0 ==> final(self)@.waits_to_send(ep)(q.last())
            }),
    {
        loop
            invariant
                self.wf(),
                ep.0 < MAX_ENDPOINTS,
                self@.drop_broken_senders(ep) == old(self)@.drop_broken_senders(ep),
                self@.room() >= old(self)@.room(),
            decreases self@.endpoints[ep.0 as int].send_queue.len(),
        {
            let mut e = self.endpoint(ep.0);
            match e.dequeue_sender() {
                None => {
                    return;
                },
                Some(idx) => {
                    if self.is_sender_at(idx, ep) {
                        return;
                    }
                    self.put_endpoint(ep.0, e);
                    self.say_broken_sender(idx, ep);
                    self.rescue_task_with_error(idx, IPC_ERR_DEAD_PARTNER);
                },
            }
        }
    }

    fn ipc_recv_fastpath(&mut self, ep: EndpointId, recv: usize) -> (taken: bool)
        requires
            old(self).wf(),
            ep.0 < MAX_ENDPOINTS,
            recv < MAX_TASKS,
            old(self)@.room() >= 1,
        ensures
            final(self).wf(),
            (final(self)@, taken) == old(self)@.recv_fast(ep, recv),
            taken ==> final(self)@.room() >= old(self)@.room() - 1,
            !taken ==> final(self)@.room() >= old(self)@.room(),
    {
        self.drop_broken_senders(ep);
        let mut e = self.endpoint(ep.0);
        let send: usize = match e.dequeue_sender() {
            Some(i) => i,
            None => {
                return false;
            },
        };
        let sender = self.task(send);
        let msg: u64 = sender.pending_send_msg.unwrap();
        self.put_endpoint(ep.0, e);
        let recv_id = self.task(recv).id;
        self.put_task(send, Task { pending_send_msg: None, ..sender });
        if self.endpoint(ep.0).rq_len >= MAX_TASKS {
            self.error("ipc_recv_fastpath: reply_queue full; rescue sender");
            self.value("sender_task_id", sender.id.0);
            self.rescue_task_with_error(send, IPC_ERR_CAPACITY);
            return false;
        }
        self.await_reply(ep, send, recv_id);
        let t = self.task(recv);
        self.put_task(recv, Task { last_msg: Some(msg), ..t });
        self.count_delivery(ep, recv);
        let c = self.counters();
        self.put_counters(KernelCounters { ipc_recv_fast: c.ipc_recv_fast + 1, ..c });
        self.emit(Effect::IpcPath { event: IpcPathEvent::RecvFast });
        self.push_event(LogEvent::IpcDelivered { from: sender.id, to: recv_id, ep, msg });
        true
    }

    fn ipc_recv_slowpath(&mut self, ep: EndpointId, recv: usize)
        requires
            old(self).wf(),
            ep.0 < MAX_ENDPOINTS,
            recv < MAX_TASKS,
            old(self)@.room() >= 2,
        ensures
            final(self).wf(),
            final(self)@ == old(self)@.recv_slow(ep, recv),
            final(self)@.room() >= old(self)@.room() - 2,
    {
        let t = self.task(recv);
        if self.endpoint(ep.0).recv_waiter.is_some() {
            self.error(
                "ipc_recv_slowpath: recv_waiter already exists; recv rejected (prototype)",
            );
            self.put_task(recv, Task { last_reply: Some(IPC_ERR_RECV_ALREADY_WAITING), ..t });
            return;
        }
        let c = self.counters();
        self.put_counters(KernelCounters { ipc_recv_slow: c.ipc_recv_slow + 1, ..c });
        self.emit(Effect::IpcPath { event: IpcPathEvent::RecvSlow });
        self.block_task(recv, BlockedReason::IpcRecv { ep });
        let mut e = self.endpoint(ep.0);
        e.recv_waiter = Some(recv);
        self.put_endpoint(ep.0, e);
        self.push_event(LogEvent::IpcRecvBlocked { task: t.id, ep });
        if !self.features().ring3_mailbox {
            self.schedule_next_task();
        }
    }

    /// The current task receives: it takes the message of a waiting sender, or waits.
    pub fn ipc_recv(&mut self, ep: EndpointId)
        requires
            old(self).wf(),
            old(self)@.room() >= 2,
        ensures
            final(self).wf(),
            final(self)@ == old(self)@.ipc_recv(ep),
            final(self)@.room() >= old(self)@.room() - 2,
    {
        proof {
            reveal(KernelView::ipc_recv);
        }
        if ep.0 >= MAX_ENDPOINTS {
            self.error("ipc_recv: ep out of range");
            return;
        }
        if self.reject_ipc_if_kernel_current("api=ipc_recv", ep) {
            return;
        }
        if self.reject_ipc_if_endpoint_closed("api=ipc_recv", ep) {
            return;
        }
        let recv: usize = self.current_task();
        let recv_id = self.task(recv).id;
        self.push_event(LogEvent::IpcRecvCalled { task: recv_id, ep });
        if self.ipc_recv_fastpath(ep, recv) {
            return;
        }
        self.ipc_recv_slowpath(ep, recv);
    }

    fn receiver_at(&self, ep: EndpointId) -> (r: Option<usize>)
        requires
            self.wf(),
            ep.0 < MAX_ENDPOINTS,
        ensures
            r == self@.receiver_at(ep),
            r matches Some(idx) ==> idx < MAX_TASKS,
    {
        match self.endpoint(ep.0).recv_waiter {
            None => None,
            Some(idx) => {
                if idx >= MAX_TASKS {
                    return None;
                }
                let t = self.task(idx);
                if t.state == TaskState::Dead {
                    return None;
                }
                match t.blocked_reason {
                    Some(BlockedReason::IpcRecv { ep: at }) => if at == ep {
                        Some(idx)
                    } else {
                        None
                    },
                    _ => None,
                }
            },
        }
    }

    fn ipc_send_fastpath(&mut self, ep: EndpointId, msg: u64) -> (delivered: bool)
        requires
            old(self).wf(),
            ep.0 < MAX_ENDPOINTS,
            old(self)@.room() >= 2,
        ensures
            final(self).wf(),
            (final(self)@, delivered) == old(self)@.send_fast(ep, msg),
            delivered ==> final(self)@.room() >= old(self)@.room() - 2,
            !delivered ==> final(self)@.room() == old(self)@.room(),
    {
        let recv: usize = match self.receiver_at(ep) {
            Some(i) => i,
            None => {
                self.say_no_receiver(ep);
                return false;
            },
        };
        let send: usize = self.current_task();
        let send_id = self.task(send).id;
        let recv_id = self.task(recv).id;
        let mut e = self.endpoint(ep.0);
        e.recv_waiter = None;
        self.put_endpoint(ep.0, e);
        self.wake_task_to_ready(recv);
        let t = self.task(recv);
        self.put_task(recv, Task { last_msg: Some(msg), ..t });
        if e.rq_len >= MAX_TASKS {
            self.error("ipc_send_fastpath: reply_queue full; rescue sender");
            self.value("task_id", send_id.0);
            self.answer_current(IPC_ERR_CAPACITY);
            return true;
        }
        self.await_reply(ep, send, recv_id);
        self.count_delivery(ep, recv);
        let c = self.counters();
        self.put_counters(KernelCounters { ipc_send_fast: c.ipc_send_fast + 1, ..c });
        self.emit(Effect::IpcPath { event: IpcPathEvent::SendFast });
        self.push_event(LogEvent::IpcDelivered { from: send_id, to: recv_id, ep, msg });
        self.leave_sender(IpcPathEvent::SendFast);
        true
    }

    fn ipc_send_slowpath(&mut self, ep: EndpointId, msg: u64)
        requires
            old(self).wf(),
            ep.0 < MAX_ENDPOINTS,
            old(self)@.room() >= 2,
        ensures
            final(self).wf(),
            final(self)@ == old(self)@.send_slow(ep, msg),
            final(self)@.room() >= old(self)@.room() - 2,
    {
        let send: usize = self.current_task();
        let c = self.counters();
        self.put_counters(KernelCounters { ipc_send_slow: c.ipc_send_slow + 1, ..c });
        self.emit(Effect::IpcPath { event: IpcPathEvent::SendSlow });
        let mut e = self.endpoint(ep.0);
        if !e.try_enqueue_sender(send) {
            let id = self.task(send).id;
            self.error("ipc_send_slowpath: send_queue full; reject");
            self.value("task_id", id.0);
            self.answer_current(IPC_ERR_CAPACITY);
            return;
        }
        self.put_endpoint(ep.0, e);
        let t = self.task(send);
        self.put_task(send, Task { pending_send_msg: Some(msg), ..t });
        self.block_task(send, BlockedReason::IpcSend { ep });
        self.push_event(LogEvent::IpcSendBlocked { task: t.id, ep });
        self.leave_sender(IpcPathEvent::SendSlow);
    }

    /// The current task sends: it hands its message to a waiting receiver and waits for
    /// the reply, or waits for a receiver.
    pub fn ipc_send(&mut self, ep: EndpointId, msg: u64)
        requires
            old(self).wf(),
            old(self)@.room() >= 2,
        ensures
            final(self).wf(),
            final(self)@ == old(self)@.ipc_send(ep, msg),
            final(self)@.room() >= old(self)@.room() - 2,
    {
        proof {
            reveal(KernelView::ipc_send);
        }
        if ep.0 >= MAX_ENDPOINTS {
            self.error("ipc_send: ep out of range");
            return;
        }
        if self.reject_ipc_if_kernel_current("api=ipc_send", ep) {
            return;
        }
        if self.reject_ipc_if_endpoint_closed("api=ipc_send", ep) {
            return;
        }
        let send: usize = self.current_task();
        let send_id = self.task(send).id;
        self.push_event(LogEvent::IpcSendCalled { task: send_id, ep, msg });
        if self.ipc_send_fastpath(ep, msg) {
            return;
        }
        self.ipc_send_slowpath(ep, msg);
    }

    /// Names the entries that do not wait for a reply, and sends them on with an error.
    fn rescue_all(&mut self, waiters: &[usize; MAX_TASKS], len: usize, err: u64)
        requires
            old(self).wf(),
            len <= MAX_TASKS,
        ensures
            final(self).wf(),
            final(self)@ == old(self)@.rescue_all(waiters@.take(len as int), err),
            final(self)@.room() >= old(self)@.room(),
    {
        let mut n: usize = 0;
        while n < len
            invariant
                self.wf(),
                n <= len <= MAX_TASKS,
                self@ == old(self)@.rescue_all(waiters@.take(n as int), err),
                self@.room() >= old(self)@.room(),
            decreases len - n,
        {
            assert(waiters@.take(n + 1).drop_last() =~= waiters@.take(n as int));
            self.say_broken_waiter(waiters[n]);
            self.rescue_task_with_error(waiters[n], err);
            n += 1;
        }
    }

    /// Takes those out of the queue for replies who do not wait for one, and sends them on.
    fn sweep_reply_queue(&mut self, ep: EndpointId)
        requires
            old(self).wf(),
            ep.0 < MAX_ENDPOINTS,
        ensures
            final(self).wf(),
            final(self)@ == old(self)@.sweep_reply_queue(ep),
            final(self)@.room() >= old(self)@.room(),
    {
        let mut e = self.endpoint(ep.0);
        let ghost e0 = e@;
        let ghost s = e@.reply_queue;
        let ghost p = self@.waits_for_any_reply(ep);
        let ghost q = self@.broken_reply_entry(ep);
        let n: usize = e.rq_len;
        let mut kept: [usize; MAX_TASKS] = [0;MAX_TASKS];
        let mut n_kept: usize = 0;
        let mut broken: [usize; MAX_TASKS] = [0;MAX_TASKS];
        let mut n_broken: usize = 0;
        let mut pos: usize = 0;
        assert(s.take(0).filter(p) =~= Seq::empty()) by {
            lemma_filter_len(s.take(0), p);
        }
        assert(s.take(0).filter(q) =~= Seq::empty()) by {
            lemma_filter_len(s.take(0), q);
        }
        while pos < n
            invariant
                self.wf(),
                *self == *old(self),
                e.wf(),
                e@ == e0,
                s == e0.reply_queue,
                p == self@.waits_for_any_reply(ep),
                q == self@.broken_reply_entry(ep),
                pos <= n == e.rq_len,
                n_kept <= pos,
                n_broken <= pos,
                kept@.take(n_kept as int) == s.take(pos as int).filter(p),
                broken@.take(n_broken as int) == s.take(pos as int).filter(q),
            decreases n - pos,
        {
            let idx: usize = e.reply_queue[pos];
            assert(s[pos as int] == idx);
            proof {
                lemma_filter_take(s, p, pos as int);
                lemma_filter_take(s, q, pos as int);
            }
            if self.is_any_reply_waiter_at(idx, ep) {
                let ghost before = kept@.take(n_kept as int);
                kept[n_kept] = idx;
                n_kept += 1;
                assert(kept@.take(n_kept as int) =~= before.push(idx));
            } else {
                let ghost before = broken@.take(n_broken as int);
                broken[n_broken] = idx;
                n_broken += 1;
                assert(broken@.take(n_broken as int) =~= before.push(idx));
            }
            pos += 1;
        }
        assert(s.take(n as int) =~= s);
        e.reply_queue = kept;
        e.rq_len = n_kept;
        assert(e@ =~= EndpointView { reply_queue: s.filter(p), ..e0 });
        self.put_endpoint(ep.0, e);
        self.rescue_all(&broken, n_broken, IPC_ERR_DEAD_PARTNER);
    }

    /// Takes a task that waits for a reply of `partner` out of the queue of an endpoint.
    fn take_reply_waiter_for_partner(&mut self, ep: EndpointId, partner: TaskId) -> (r: Option<
        usize,
    >)
        requires
            old(self).wf(),
            ep.0 < MAX_ENDPOINTS,
        ensures
            final(self).wf(),
            (final(self)@, r) == old(self)@.take_reply_waiter(ep, partner),
            r matches Some(idx) ==> idx < MAX_TASKS,
            final(self)@.room() >= old(self)@.room(),
    {
        self.sweep_reply_queue(ep);
        let mut e = self.endpoint(ep.0);
        let ghost e0 = e@;
        let ghost s = e@.reply_queue;
        let ghost p = self@.waits_for_reply(ep, partner);
        let ghost swept = *self;
        let mut pos: usize = e.rq_len;
        while pos > 0
            invariant
                self.wf(),
                *self == swept,
                swept@ == old(self)@.sweep_reply_queue(ep),
                self@.room() >= old(self)@.room(),
                ep.0 < MAX_ENDPOINTS,
                e.wf(),
                e@ == e0,
                e0 == self@.endpoints[ep.0 as int],
                s == e0.reply_queue,
                p == self@.waits_for_reply(ep, partner),
                pos <= e.rq_len == s.len(),
                forall|j: int| pos <= j < s.len() ==> !p(#[trigger] s[j]),
            decreases pos,
        {
            pos -= 1;
            let idx: usize = e.reply_queue[pos];
            assert(s[pos as int] == idx);
            if self.is_reply_waiter_at(idx, ep, partner) {
                proof {
                    lemma_last_such_is(s, p, pos as int);
                }
                let _ = e.remove_reply_waiter_at(pos);
                self.put_endpoint(ep.0, e);
                return Some(idx);
            }
        }
        proof {
            lemma_last_such_none(s, p);
        }
        None
    }

    /// The current task replies to a task that waits for its reply.
    pub fn ipc_reply(&mut self, ep: EndpointId, msg: u64)
        requires
            old(self).wf(),
            old(self)@.room() >= 1,
        ensures
            final(self).wf(),
            final(self)@ == old(self)@.ipc_reply(ep, msg),
            final(self)@.room() >= old(self)@.room() - 1,
    {
        proof {
            reveal(KernelView::ipc_reply);
        }
        if ep.0 >= MAX_ENDPOINTS {
            self.error("ipc_reply: ep out of range");
            return;
        }
        if self.reject_ipc_if_kernel_current("api=ipc_reply", ep) {
            return;
        }
        if self.reject_ipc_if_endpoint_closed("api=ipc_reply", ep) {
            return;
        }
        let replier: usize = self.current_task();
        let replier_id = self.task(replier).id;
        let send: usize = match self.take_reply_waiter_for_partner(ep, replier_id) {
            Some(i) => i,
            None => {
                self.emit(Effect::IpcPath { event: IpcPathEvent::ReplyNoWaiter });
                return;
            },
        };
        let t = self.task(send);
        self.push_event(LogEvent::IpcReplyCalled { task: replier_id, ep, to: t.id });
        self.put_task(send, Task { last_reply: Some(msg), ..t });
        self.wake_task_to_ready(send);
        self.count_reply(ep, replier);
        let c = self.counters();
        self.put_counters(KernelCounters { ipc_reply_delivered: c.ipc_reply_delivered + 1, ..c });
        self.emit(Effect::IpcPath { event: IpcPathEvent::ReplyDelivered });
        self.push_event(LogEvent::IpcReplyDelivered { from: replier_id, to: t.id, ep });
    }
}

} // verus!
