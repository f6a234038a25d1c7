//! The dump of the kernel's state that is shown when it has stopped.

use vstd::prelude::*;

use crate::kernel::lines::{info, lines_for, lines_if, push_info, push_value, value};
use crate::kernel::model::KernelView;
use crate::kernel::queue::queue;
use crate::kernel::state::KernelState;
use crate::kernel::types::{
    BlockedReason, LogEvent, LogLine, TaskKillReason, TaskState, MAX_ENDPOINTS, MAX_TASKS,
};
use crate::mem::address_space::{AddressSpaceKind, Mapping};
use crate::mem::paging::MemAction;

verus! {

broadcast use crate::mem::address_space::lemma_view;

/// How a change of state is shown.
pub open spec fn state_line(state: TaskState) -> &'static str {
    match state {
        TaskState::Ready => "to READY",
        TaskState::Running => "to RUNNING",
        TaskState::Blocked => "to BLOCKED",
        TaskState::Dead => "to DEAD",
    }
}

fn state_text(state: TaskState) -> (text: &'static str)
    ensures
        text == state_line(state),
{
    match state {
        TaskState::Ready => "to READY",
        TaskState::Running => "to RUNNING",
        TaskState::Blocked => "to BLOCKED",
        TaskState::Dead => "to DEAD",
    }
}

/// How a page operation is shown.
pub open spec fn action_lines(action: MemAction) -> Seq<LogLine> {
    match action {
        MemAction::MapPage { page, frame, flags } => seq![
            info("mem_action = Map"),
            value("virt_page_index", page.number),
            value("phys_frame_index", frame.number),
            value("flags_bits", flags.bits),
        ],
        MemAction::Unmap { page } => seq![
            info("mem_action = Unmap"),
            value("virt_page_index", page.number),
        ],
    }
}

fn push_action(out: &mut Vec<LogLine>, action: MemAction)
    ensures
        final(out)@ == old(out)@ + action_lines(action),
{
    match action {
        MemAction::MapPage { page, frame, flags } => {
            push_info(out, "mem_action = Map");
            push_value(out, "virt_page_index", page.number);
            push_value(out, "phys_frame_index", frame.number);
            push_value(out, "flags_bits", flags.bits());
        },
        MemAction::Unmap { page } => {
            push_info(out, "mem_action = Unmap");
            push_value(out, "virt_page_index", page.number);
        },
    }
    assert(out@ =~= old(out)@ + action_lines(action));
}

/// How the reason of a kill is shown.
pub open spec fn reason_lines(reason: TaskKillReason) -> Seq<LogLine> {
    match reason {
        TaskKillReason::UserPageFault { addr, err, rip } => seq![
            info("reason = UserPageFault"),
            value("addr", addr),
            value("err", err),
            value("rip", rip),
        ],
        TaskKillReason::DemoInjected { code } => seq![
            info("reason = DemoInjected"),
            value("code", code),
        ],
    }
}

fn push_reason(out: &mut Vec<LogLine>, reason: TaskKillReason)
    ensures
        final(out)@ == old(out)@ + reason_lines(reason),
{
    match reason {
        TaskKillReason::UserPageFault { addr, err, rip } => {
            push_info(out, "reason = UserPageFault");
            push_value(out, "addr", addr);
            push_value(out, "err", err);
            push_value(out, "rip", rip);
        },
        TaskKillReason::DemoInjected { code } => {
            push_info(out, "reason = DemoInjected");
            push_value(out, "code", code);
        },
    }
    assert(out@ =~= old(out)@ + reason_lines(reason));
}

/// What is shown of an event.
pub open spec fn event_lines(ev: LogEvent) -> Seq<LogLine> {
    match ev {
        LogEvent::TickStarted(n) => seq![info("EVENT: TickStarted"), value("tick", n)],
        LogEvent::TimerUpdated(n) => seq![info("EVENT: TimerUpdated"), value("time", n)],
        LogEvent::FrameAllocated => seq![info("EVENT: FrameAllocated")],
        LogEvent::TaskSwitched(tid) => seq![info("EVENT: TaskSwitched"), value("task", tid.0)],
        LogEvent::TaskStateChanged(tid, state) => seq![
            info("EVENT: TaskStateChanged"),
            value("task", tid.0),
            info(state_line(state)),
        ],
        LogEvent::ReadyQueued(tid) => seq![info("EVENT: ReadyQueued"), value("task", tid.0)],
        LogEvent::ReadyDequeued(tid) => seq![info("EVENT: ReadyDequeued"), value("task", tid.0)],
        LogEvent::WaitQueued(tid) => seq![info("EVENT: WaitQueued"), value("task", tid.0)],
        LogEvent::WaitDequeued(tid) => seq![info("EVENT: WaitDequeued"), value("task", tid.0)],
        LogEvent::RuntimeUpdated(tid, rt) => seq![
            info("EVENT: RuntimeUpdated"),
            value("task", tid.0),
            value("runtime", rt),
        ],
        LogEvent::QuantumExpired(tid, used) => seq![
            info("EVENT: QuantumExpired"),
            value("task", tid.0),
            value("used_ticks", used),
        ],
        LogEvent::MemActionApplied { task, address_space, action } => seq![
            info("EVENT: MemActionApplied"),
            value("task", task.0),
            value("address_space_id", address_space.0 as u64),
        ] + action_lines(action),
        LogEvent::SyscallIssued { task } => seq![
            info("EVENT: SyscallIssued"),
            value("task", task.0),
        ],
        LogEvent::SyscallHandled { task } => seq![
            info("EVENT: SyscallHandled"),
            value("task", task.0),
        ],
        LogEvent::IpcRecvCalled { task, ep } => seq![
            info("EVENT: IpcRecvCalled"),
            value("task", task.0),
            value("ep", ep.0 as u64),
        ],
        LogEvent::IpcRecvBlocked { task, ep } => seq![
            info("EVENT: IpcRecvBlocked"),
            value("task", task.0),
            value("ep", ep.0 as u64),
        ],
        LogEvent::IpcSendCalled { task, ep, msg } => seq![
            info("EVENT: IpcSendCalled"),
            value("task", task.0),
            value("ep", ep.0 as u64),
            value("msg", msg),
        ],
        LogEvent::IpcSendBlocked { task, ep } => seq![
            info("EVENT: IpcSendBlocked"),
            value("task", task.0),
            value("ep", ep.0 as u64),
        ],
        LogEvent::IpcDelivered { from, to, ep, msg } => seq![
            info("EVENT: IpcDelivered"),
            value("from", from.0),
            value("to", to.0),
            value("ep", ep.0 as u64),
            value("msg", msg),
        ],
        LogEvent::IpcReplyCalled { task, ep, to } => seq![
            info("EVENT: IpcReplyCalled"),
            value("task", task.0),
            value("ep", ep.0 as u64),
            value("to", to.0),
        ],
        LogEvent::IpcReplyDelivered { from, to, ep } => seq![
            info("EVENT: IpcReplyDelivered"),
            value("from", from.0),
            value("to", to.0),
            value("ep", ep.0 as u64),
        ],
        LogEvent::TaskKilled { task, reason } => seq![
            info("EVENT: TaskKilled"),
            value("task", task.0),
        ] + reason_lines(reason),
    }
}

/// Shows an event.
pub fn log_event_to_vga(ev: LogEvent, out: &mut Vec<LogLine>)
    ensures
        final(out)@ == old(out)@ + event_lines(ev),
{
    match ev {
        LogEvent::TickStarted(n) => {
            push_info(out, "EVENT: TickStarted");
            push_value(out, "tick", n);
        },
        LogEvent::TimerUpdated(n) => {
            push_info(out, "EVENT: TimerUpdated");
            push_value(out, "time", n);
        },
        LogEvent::FrameAllocated => {
            push_info(out, "EVENT: FrameAllocated");
        },
        LogEvent::TaskSwitched(tid) => {
            push_info(out, "EVENT: TaskSwitched");
            push_value(out, "task", tid.0);
        },
        LogEvent::TaskStateChanged(tid, state) => {
            push_info(out, "EVENT: TaskStateChanged");
            push_value(out, "task", tid.0);
            push_info(out, state_text(state));
        },
        LogEvent::ReadyQueued(tid) => {
            push_info(out, "EVENT: ReadyQueued");
            push_value(out, "task", tid.0);
        },
        LogEvent::ReadyDequeued(tid) => {
            push_info(out, "EVENT: ReadyDequeued");
            push_value(out, "task", tid.0);
        },
        LogEvent::WaitQueued(tid) => {
            push_info(out, "EVENT: WaitQueued");
            push_value(out, "task", tid.0);
        },
        LogEvent::WaitDequeued(tid) => {
            push_info(out, "EVENT: WaitDequeued");
            push_value(out, "task", tid.0);
        },
        LogEvent::RuntimeUpdated(tid, rt) => {
            push_info(out, "EVENT: RuntimeUpdated");
            push_value(out, "task", tid.0);
            push_value(out, "runtime", rt);
        },
        LogEvent::QuantumExpired(tid, used) => {
            push_info(out, "EVENT: QuantumExpired");
            push_value(out, "task", tid.0);
            push_value(out, "used_ticks", used);
        },
        LogEvent::MemActionApplied { task, address_space, action } => {
            push_info(out, "EVENT: MemActionApplied");
            push_value(out, "task", task.0);
            push_value(out, "address_space_id", address_space.0 as u64);
            push_action(out, action);
        },
        LogEvent::SyscallIssued { task } => {
            push_info(out, "EVENT: SyscallIssued");
            push_value(out, "task", task.0);
        },
        LogEvent::SyscallHandled { task } => {
            push_info(out, "EVENT: SyscallHandled");
            push_value(out, "task", task.0);
        },
        LogEvent::IpcRecvCalled { task, ep } => {
            push_info(out, "EVENT: IpcRecvCalled");
            push_value(out, "task", task.0);
            push_value(out, "ep", ep.0 as u64);
        },
        LogEvent::IpcRecvBlocked { task, ep } => {
            push_info(out, "EVENT: IpcRecvBlocked");
            push_value(out, "task", task.0);
            push_value(out, "ep", ep.0 as u64);
        },
        LogEvent::IpcSendCalled { task, ep, msg } => {
            push_info(out, "EVENT: IpcSendCalled");
            push_value(out, "task", task.0);
            push_value(out, "ep", ep.0 as u64);
            push_value(out, "msg", msg);
        },
        LogEvent::IpcSendBlocked { task, ep } => {
            push_info(out, "EVENT: IpcSendBlocked");
            push_value(out, "task", task.0);
            push_value(out, "ep", ep.0 as u64);
        },
        LogEvent::IpcDelivered { from, to, ep, msg } => {
            push_info(out, "EVENT: IpcDelivered");
            push_value(out, "from", from.0);
            push_value(out, "to", to.0);
            push_value(out, "ep", ep.0 as u64);
            push_value(out, "msg", msg);
        },
        LogEvent::IpcReplyCalled { task, ep, to } => {
            push_info(out, "EVENT: IpcReplyCalled");
            push_value(out, "task", task.0);
            push_value(out, "ep", ep.0 as u64);
            push_value(out, "to", to.0);
        },
        LogEvent::IpcReplyDelivered { from, to, ep } => {
            push_info(out, "EVENT: IpcReplyDelivered");
            push_value(out, "from", from.0);
            push_value(out, "to", to.0);
            push_value(out, "ep", ep.0 as u64);
        },
        LogEvent::TaskKilled { task, reason } => {
            push_info(out, "EVENT: TaskKilled");
            push_value(out, "task", task.0);
            push_reason(out, reason);
        },
    }
    assert(out@ =~= old(out)@ + event_lines(ev));
}

impl KernelView {
    /// What is shown of a task.
    pub open spec fn task_dump(self, i: int) -> Seq<LogLine> {
        let t = self.tasks[i];
        seq![
            info("TASK:"),
            value("task_index", i as u64),
            value("task_id", t.id.0),
            info(
                match t.state {
                    TaskState::Ready => "state = Ready",
                    TaskState::Running => "state = Running",
                    TaskState::Blocked => "state = Blocked",
                    TaskState::Dead => "state = Dead",
                },
            ),
            value("address_space_id", t.address_space_id.0 as u64),
        ] + blocked_reason_lines(t.blocked_reason) + seq![
            info(
                if t.pending_syscall is Some {
                    "pending_syscall = Some"
                } else {
                    "pending_syscall = None"
                },
            ),
        ] + optional_lines(
            t.pending_send_msg,
            "pending_send_msg = Some",
            "pending_send_msg_value",
            "pending_send_msg = None",
        ) + optional_lines(t.last_msg, "last_msg = Some", "last_msg_value", "last_msg = None")
            + optional_lines(
            t.last_reply,
            "last_reply = Some",
            "last_reply_value",
            "last_reply = None",
        ) + optional_lines(
            t.last_syscall_ret,
            "last_syscall_ret = Some",
            "last_syscall_ret_value",
            "last_syscall_ret = None",
        )
    }

    /// What is shown of the address space of a task.
    pub open spec fn space_dump(self, i: int) -> Seq<LogLine> {
        let t = self.tasks[i];
        let s = self.spaces[t.address_space_id.0 as int];
        seq![
            info("Task AddressSpace:"),
            value("task_index", i as u64),
            value("task_id", t.id.0),
            info(
                match s.kind {
                    AddressSpaceKind::Kernel => "kind = Kernel",
                    AddressSpaceKind::User => "kind = User",
                },
            ),
            match s.root_page_frame {
                Some(root) => value("root_page_frame_index", root.number),
                None => info("root_page_frame_index = None"),
            },
            value("address_space_id", t.address_space_id.0 as u64),
            value("mapping_count", s.mappings().len() as u64),
        ] + lines_for(s.mappings().len() as int, mapping_dump_of(s.mappings())) + lines_if(
            t.last_msg is Some,
            seq![info("IPC:"), value("last_msg", t.last_msg->0)],
        )
    }

    /// What is shown of a queue: its length and its entries.
    pub open spec fn queue_dump(
        self,
        q: Seq<usize>,
        len_key: &'static str,
        index_key: &'static str,
        id_key: &'static str,
    ) -> Seq<LogLine> {
        seq![value(len_key, q.len() as u64)] + lines_for(
            q.len() as int,
            self.entry_dump_of(q, index_key, id_key),
        )
    }

    pub open spec fn entry_dump(
        self,
        idx: usize,
        index_key: &'static str,
        id_key: &'static str,
    ) -> Seq<LogLine> {
        seq![value(index_key, idx as u64)] + lines_if(
            idx < MAX_TASKS,
            seq![value(id_key, self.tasks[idx as int].id.0)],
        )
    }

    pub open spec fn entry_dump_of(
        self,
        q: Seq<usize>,
        index_key: &'static str,
        id_key: &'static str,
    ) -> spec_fn(int) -> Seq<LogLine> {
        |pos: int| self.entry_dump(q[pos], index_key, id_key)
    }

    /// What is shown of an endpoint.
    pub open spec fn endpoint_dump(self, i: int) -> Seq<LogLine> {
        let e = self.endpoints[i];
        seq![info("ENDPOINT:"), value("ep_id", e.id.0 as u64)] + match e.recv_waiter {
            Some(idx) => self.entry_dump(idx, "recv_waiter_task_index", "recv_waiter_task_id"),
            None => seq![info("recv_waiter_task_index = None")],
        } + self.queue_dump(
            e.send_queue,
            "send_queue_len",
            "send_queue_task_index",
            "send_queue_task_id",
        ) + self.queue_dump(
            e.reply_queue,
            "reply_queue_len",
            "reply_queue_task_index",
            "reply_queue_task_id",
        )
    }

    /// What is shown of the counters.
    pub open spec fn counters_dump(self) -> Seq<LogLine> {
        let c = self.counters;
        seq![
            value("sched_switches", c.sched_switches),
            value("ipc_send_fast", c.ipc_send_fast),
            value("ipc_send_slow", c.ipc_send_slow),
            value("ipc_recv_fast", c.ipc_recv_fast),
            value("ipc_recv_slow", c.ipc_recv_slow),
            value("ipc_reply_delivered", c.ipc_reply_delivered),
            value("task_killed_user_pf", c.task_killed_user_pf),
        ]
    }

    pub open spec fn event_dump_at(self) -> spec_fn(int) -> Seq<LogLine> {
        |i: int| event_lines(self.events[i])
    }

    pub open spec fn task_dump_at(self) -> spec_fn(int) -> Seq<LogLine> {
        |i: int| self.task_dump(i)
    }

    pub open spec fn space_dump_at(self) -> spec_fn(int) -> Seq<LogLine> {
        |i: int| self.space_dump(i)
    }

    pub open spec fn endpoint_dump_at(self) -> spec_fn(int) -> Seq<LogLine> {
        |i: int| self.endpoint_dump(i)
    }

    /// The whole dump: events, tasks, address spaces, endpoints, counters.
    pub open spec fn dump(self) -> Seq<LogLine> {
        seq![info("=== KernelState Event Log Dump ===")] + lines_for(
            self.events.len() as int,
            self.event_dump_at(),
        ) + seq![info("=== End of Event Log ==="), info("=== Task Dump ===")] + lines_for(
            MAX_TASKS as int,
            self.task_dump_at(),
        ) + seq![
            info("=== End of Task Dump ==="),
            info("=== AddressSpace Dump (per task) ==="),
        ] + lines_for(MAX_TASKS as int, self.space_dump_at()) + seq![
            info("=== End of AddressSpace Dump ==="),
            info("=== Endpoint Dump ==="),
        ] + lines_for(MAX_ENDPOINTS as int, self.endpoint_dump_at()) + seq![
            info("=== End of Endpoint Dump ==="),
            info("=== Counters Dump ==="),
        ] + self.counters_dump() + seq![info("=== End of Counters Dump ===")]
    }
}

/// What is shown of the reason why a task is blocked.
pub open spec fn blocked_reason_lines(reason: Option<BlockedReason>) -> Seq<LogLine> {
    match reason {
        None => seq![info("blocked_reason = None")],
        Some(BlockedReason::Sleep) => seq![info("blocked_reason = Sleep")],
        Some(BlockedReason::IpcRecv { ep }) => seq![
            info("blocked_reason = IpcRecv"),
            value("blocked_ep", ep.0 as u64),
        ],
        Some(BlockedReason::IpcSend { ep }) => seq![
            info("blocked_reason = IpcSend"),
            value("blocked_ep", ep.0 as u64),
        ],
        Some(BlockedReason::IpcReply { partner, ep }) => seq![
            info("blocked_reason = IpcReply"),
            value("blocked_ep", ep.0 as u64),
            value("blocked_partner_task_id", partner.0),
        ],
    }
}

fn push_blocked_reason(out: &mut Vec<LogLine>, reason: Option<BlockedReason>)
    ensures
        final(out)@ == old(out)@ + blocked_reason_lines(reason),
{
    match reason {
        None => push_info(out, "blocked_reason = None"),
        Some(BlockedReason::Sleep) => push_info(out, "blocked_reason = Sleep"),
        Some(BlockedReason::IpcRecv { ep }) => {
            push_info(out, "blocked_reason = IpcRecv");
            push_value(out, "blocked_ep", ep.0 as u64);
        },
        Some(BlockedReason::IpcSend { ep }) => {
            push_info(out, "blocked_reason = IpcSend");
            push_value(out, "blocked_ep", ep.0 as u64);
        },
        Some(BlockedReason::IpcReply { partner, ep }) => {
            push_info(out, "blocked_reason = IpcReply");
            push_value(out, "blocked_ep", ep.0 as u64);
            push_value(out, "blocked_partner_task_id", partner.0);
        },
    }
    assert(out@ =~= old(out)@ + blocked_reason_lines(reason));
}

/// What is shown of a word that may be missing.
pub open spec fn optional_lines(
    word: Option<u64>,
    present: &'static str,
    key: &'static str,
    missing: &'static str,
) -> Seq<LogLine> {
    match word {
        Some(v) => seq![info(present), value(key, v)],
        None => seq![info(missing)],
    }
}

fn push_optional(
    out: &mut Vec<LogLine>,
    word: Option<u64>,
    present: &'static str,
    key: &'static str,
    missing: &'static str,
)
    ensures
        final(out)@ == old(out)@ + optional_lines(word, present, key, missing),
{
    match word {
        Some(v) => {
            push_info(out, present);
            push_value(out, key, v);
        },
        None => push_info(out, missing),
    }
    assert(out@ =~= old(out)@ + optional_lines(word, present, key, missing));
}

/// What is shown of a mapping.
pub open spec fn mapping_dump(m: Mapping) -> Seq<LogLine> {
    seq![
        info("MAPPING:"),
        value("virt_page_index", m.page.number),
        value("phys_frame_index", m.frame.number),
        value("flags_bits", m.flags.bits),
    ]
}

pub open spec fn mapping_dump_of(mappings: Seq<Mapping>) -> spec_fn(int) -> Seq<LogLine> {
    |j: int| mapping_dump(mappings[j])
}

fn push_mappings(out: &mut Vec<LogLine>, mappings: &Vec<Mapping>)
    ensures
        final(out)@ == old(out)@ + lines_for(mappings@.len() as int, mapping_dump_of(mappings@)),
{
    let ghost f = mapping_dump_of(mappings@);
    assert(out@ =~= old(out)@ + lines_for(0, f));
    let mut j: usize = 0;
    while j < mappings.len()
        invariant
            j <= mappings@.len(),
            f == mapping_dump_of(mappings@),
            out@ == old(out)@ + lines_for(j as int, f),
        decreases mappings@.len() - j,
    {
        let ghost before = out@;
        let m = mappings[j];
        push_info(out, "MAPPING:");
        push_value(out, "virt_page_index", m.page.number);
        push_value(out, "phys_frame_index", m.frame.number);
        push_value(out, "flags_bits", m.flags.bits());
        assert(out@ =~= before + f(j as int));
        assert(out@ =~= old(out)@ + lines_for(j + 1, f));
        j += 1;
    }
}

impl KernelState {
    fn dump_task(&self, i: usize, out: &mut Vec<LogLine>)
        requires
            self.wf(),
            i < MAX_TASKS,
        ensures
            final(out)@ == old(out)@ + self@.task_dump(i as int),
    {
        let t = self.task(i);
        let state = match t.state {
            TaskState::Ready => "state = Ready",
            TaskState::Running => "state = Running",
            TaskState::Blocked => "state = Blocked",
            TaskState::Dead => "state = Dead",
        };
        let pending = match t.pending_syscall {
            Some(_) => "pending_syscall = Some",
            None => "pending_syscall = None",
        };
        let mut part: Vec<LogLine> = Vec::new();
        push_info(&mut part, "TASK:");
        push_value(&mut part, "task_index", i as u64);
        push_value(&mut part, "task_id", t.id.0);
        push_info(&mut part, state);
        push_value(&mut part, "address_space_id", t.address_space_id.0 as u64);
        push_blocked_reason(&mut part, t.blocked_reason);
        let ghost before = part@;
        push_info(&mut part, pending);
        assert(part@ =~= before + seq![info(pending)]);
        push_optional(
            &mut part,
            t.pending_send_msg,
            "pending_send_msg = Some",
            "pending_send_msg_value",
            "pending_send_msg = None",
        );
        push_optional(
            &mut part,
            t.last_msg,
            "last_msg = Some",
            "last_msg_value",
            "last_msg = None",
        );
        push_optional(
            &mut part,
            t.last_reply,
            "last_reply = Some",
            "last_reply_value",
            "last_reply = None",
        );
        push_optional(
            &mut part,
            t.last_syscall_ret,
            "last_syscall_ret = Some",
            "last_syscall_ret_value",
            "last_syscall_ret = None",
        );
        out.append(&mut part);
    }

    fn dump_space(&self, i: usize, out: &mut Vec<LogLine>)
        requires
            self.wf(),
            i < MAX_TASKS,
        ensures
            final(out)@ == old(out)@ + self@.space_dump(i as int),
    {
        let t = self.task(i);
        let s = self.space(t.address_space_id.0);
        let kind = match s.kind {
            AddressSpaceKind::Kernel => "kind = Kernel",
            AddressSpaceKind::User => "kind = User",
        };
        push_info(out, "Task AddressSpace:");
        push_value(out, "task_index", i as u64);
        push_value(out, "task_id", t.id.0);
        push_info(out, kind);
        match s.root_page_frame {
            Some(root) => push_value(out, "root_page_frame_index", root.number),
            None => push_info(out, "root_page_frame_index = None"),
        }
        push_value(out, "address_space_id", t.address_space_id.0 as u64);
        push_value(out, "mapping_count", s.mapping_count() as u64);
        let mappings = s.for_each_mapping();
        push_mappings(out, &mappings);
        if let Some(m) = t.last_msg {
            push_info(out, "IPC:");
            push_value(out, "last_msg", m);
        }
        assert(out@ =~= old(out)@ + self@.space_dump(i as int));
    }

    fn dump_entry(
        &self,
        idx: usize,
        index_key: &'static str,
        id_key: &'static str,
        out: &mut Vec<LogLine>,
    )
        requires
            self.wf(),
        ensures
            final(out)@ == old(out)@ + self@.entry_dump(idx, index_key, id_key),
    {
        push_value(out, index_key, idx as u64);
        if idx < MAX_TASKS {
            push_value(out, id_key, self.task(idx).id.0);
        }
        assert(out@ =~= old(out)@ + self@.entry_dump(idx, index_key, id_key));
    }

    fn dump_queue(
        &self,
        items: &[usize; MAX_TASKS],
        len: usize,
        len_key: &'static str,
        index_key: &'static str,
        id_key: &'static str,
        out: &mut Vec<LogLine>,
    )
        requires
            self.wf(),
            len <= MAX_TASKS,
        ensures
            final(out)@ == old(out)@ + self@.queue_dump(
                queue(*items, len),
                len_key,
                index_key,
                id_key,
            ),
    {
        push_value(out, len_key, len as u64);
        let ghost q = queue(*items, len);
        let ghost head = out@;
        let ghost f = self@.entry_dump_of(q, index_key, id_key);
        assert(head =~= head + lines_for(0, f));
        let mut pos: usize = 0;
        while pos < len
            invariant
                self.wf(),
                pos <= len <= MAX_TASKS,
                q == queue(*items, len),
                f == self@.entry_dump_of(q, index_key, id_key),
                out@ == head + lines_for(pos as int, f),
            decreases len - pos,
        {
            assert(items@[pos as int] == q[pos as int]);
            self.dump_entry(items[pos], index_key, id_key, out);
            assert(out@ =~= head + lines_for(pos + 1, f));
            pos += 1;
        }
        assert(out@ =~= old(out)@ + self@.queue_dump(q, len_key, index_key, id_key));
    }

    fn dump_endpoint(&self, i: usize, out: &mut Vec<LogLine>)
        requires
            self.wf(),
            i < MAX_ENDPOINTS,
        ensures
            final(out)@ == old(out)@ + self@.endpoint_dump(i as int),
    {
        let e = self.endpoint(i);
        push_info(out, "ENDPOINT:");
        push_value(out, "ep_id", e.id.0 as u64);
        match e.recv_waiter {
            Some(idx) => self.dump_entry(
                idx,
                "recv_waiter_task_index",
                "recv_waiter_task_id",
                out,
            ),
            None => push_info(out, "recv_waiter_task_index = None"),
        }
        self.dump_queue(
            &e.send_queue,
            e.sq_len,
            "send_queue_len",
            "send_queue_task_index",
            "send_queue_task_id",
            out,
        );
        self.dump_queue(
            &e.reply_queue,
            e.rq_len,
            "reply_queue_len",
            "reply_queue_task_index",
            "reply_queue_task_id",
            out,
        );
        assert(out@ =~= old(out)@ + self@.endpoint_dump(i as int));
    }

    fn dump_tasks(&self, out: &mut Vec<LogLine>)
        requires
            self.wf(),
        ensures
            final(out)@ == old(out)@ + lines_for(MAX_TASKS as int, self@.task_dump_at()),
    {
        let ghost f = self@.task_dump_at();
        assert(out@ =~= old(out)@ + lines_for(0, f));
        let mut i: usize = 0;
        while i < MAX_TASKS
            invariant
                self.wf(),
                i <= MAX_TASKS,
                f == self@.task_dump_at(),
                out@ == old(out)@ + lines_for(i as int, f),
            decreases MAX_TASKS - i,
        {
            self.dump_task(i, out);
            assert(out@ =~= old(out)@ + lines_for(i + 1, f));
            i += 1;
        }
    }

    fn dump_spaces(&self, out: &mut Vec<LogLine>)
        requires
            self.wf(),
        ensures
            final(out)@ == old(out)@ + lines_for(MAX_TASKS as int, self@.space_dump_at()),
    {
        let ghost f = self@.space_dump_at();
        assert(out@ =~= old(out)@ + lines_for(0, f));
        let mut i: usize = 0;
        while i < MAX_TASKS
            invariant
                self.wf(),
                i <= MAX_TASKS,
                f == self@.space_dump_at(),
                out@ == old(out)@ + lines_for(i as int, f),
            decreases MAX_TASKS - i,
        {
            self.dump_space(i, out);
            assert(out@ =~= old(out)@ + lines_for(i + 1, f));
            i += 1;
        }
    }

    fn dump_endpoints(&self, out: &mut Vec<LogLine>)
        requires
            self.wf(),
        ensures
            final(out)@ == old(out)@ + lines_for(MAX_ENDPOINTS as int, self@.endpoint_dump_at()),
    {
        let ghost f = self@.endpoint_dump_at();
        assert(out@ =~= old(out)@ + lines_for(0, f));
        let mut i: usize = 0;
        while i < MAX_ENDPOINTS
            invariant
                self.wf(),
                i <= MAX_ENDPOINTS,
                f == self@.endpoint_dump_at(),
                out@ == old(out)@ + lines_for(i as int, f),
            decreases MAX_ENDPOINTS - i,
        {
            self.dump_endpoint(i, out);
            assert(out@ =~= old(out)@ + lines_for(i + 1, f));
            i += 1;
        }
    }

    fn dump_event_log(&self, out: &mut Vec<LogLine>)
        requires
            self.wf(),
        ensures
            final(out)@ == old(out)@ + lines_for(
                self@.events.len() as int,
                self@.event_dump_at(),
            ),
    {
        let ghost f = self@.event_dump_at();
        assert(out@ =~= old(out)@ + lines_for(0, f));
        let n: usize = self.event_log_len();
        let mut i: usize = 0;
        while i < n
            invariant
                self.wf(),
                i <= n == self@.events.len(),
                f == self@.event_dump_at(),
                out@ == old(out)@ + lines_for(i as int, f),
            decreases n - i,
        {
            log_event_to_vga(self.event_at(i), out);
            assert(out@ =~= old(out)@ + lines_for(i + 1, f));
            i += 1;
        }
    }

    fn dump_counters(&self, out: &mut Vec<LogLine>)
        ensures
            final(out)@ == old(out)@ + self@.counters_dump(),
    {
        let c = self.counters();
        push_value(out, "sched_switches", c.sched_switches);
        push_value(out, "ipc_send_fast", c.ipc_send_fast);
        push_value(out, "ipc_send_slow", c.ipc_send_slow);
        push_value(out, "ipc_recv_fast", c.ipc_recv_fast);
        push_value(out, "ipc_recv_slow", c.ipc_recv_slow);
        push_value(out, "ipc_reply_delivered", c.ipc_reply_delivered);
        push_value(out, "task_killed_user_pf", c.task_killed_user_pf);
        assert(out@ =~= old(out)@ + self@.counters_dump());
    }

    /// Shows the whole state of the kernel.
    pub fn dump_events(&self) -> (out: Vec<LogLine>)
        requires
            self.wf(),
        ensures
            out@ == self@.dump(),
    {
        let mut lines: Vec<LogLine> = Vec::new();
        push_info(&mut lines, "=== KernelState Event Log Dump ===");
        assert(lines@ =~= seq![info("=== KernelState Event Log Dump ===")]);
        self.dump_event_log(&mut lines);
        push_two(&mut lines, "=== End of Event Log ===", "=== Task Dump ===");
        self.dump_tasks(&mut lines);
        push_two(
            &mut lines,
            "=== End of Task Dump ===",
            "=== AddressSpace Dump (per task) ===",
        );
        self.dump_spaces(&mut lines);
        push_two(&mut lines, "=== End of AddressSpace Dump ===", "=== Endpoint Dump ===");
        self.dump_endpoints(&mut lines);
        push_two(&mut lines, "=== End of Endpoint Dump ===", "=== Counters Dump ===");
        self.dump_counters(&mut lines);
        let ghost before = lines@;
        push_info(&mut lines, "=== End of Counters Dump ===");
        assert(lines@ =~= before + seq![info("=== End of Counters Dump ===")]);
        lines
    }
}

fn push_two(out: &mut Vec<LogLine>, first: &'static str, second: &'static str)
    ensures
        final(out)@ == old(out)@ + seq![info(first), info(second)],
{
    push_info(out, first);
    push_info(out, second);
    assert(out@ =~= old(out)@ + seq![info(first), info(second)]);
}

} // verus!
