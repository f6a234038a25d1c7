//! The self-check of the kernel: what must hold between tasks, queues, endpoints and
//! address spaces, with a report of whatever does not.

use vstd::prelude::*;

use crate::arch::virt_layout::USER_SPACE_SIZE;
use crate::kernel::lines::{error, lines_for, lines_if, push_error, push_value, value};
use crate::kernel::model::KernelView;
use crate::kernel::queue::queue_contains;
use crate::kernel::state::KernelState;
use crate::kernel::types::{
    BlockedReason, EndpointId, LogLine, Task, TaskId, TaskState, KERNEL_ASID_INDEX, MAX_ENDPOINTS,
    MAX_TASKS,
};
use crate::mem::addr::VirtPage;
use crate::mem::address_space::{AddressSpaceKind, Mapping};
use crate::mem::paging::PageFlags;
use crate::seqs::{first_such, lemma_first_such_is, lemma_first_such_none};

verus! {

broadcast use crate::mem::address_space::lemma_view;

/// The first byte of a page, as an offset; no more than the largest number there is.
pub open spec fn byte_offset(page: VirtPage) -> u64 {
    if page.number < 0x10_0000_0000_0000 {
        (page.number * 4096) as u64
    } else {
        u64::MAX
    }
}

fn page_byte_offset(page: VirtPage) -> (offset: u64)
    ensures
        offset == byte_offset(page),
{
    if page.number < 0x10_0000_0000_0000 {
        page.number * 4096
    } else {
        u64::MAX
    }
}

/// Being the task with the identifier `id`.
pub open spec fn has_id(id: TaskId) -> spec_fn(Task) -> bool {
    |t: Task| t.id == id
}

impl KernelView {
    pub open spec fn kernel_space_lines(self) -> Seq<LogLine> {
        let s = self.spaces[KERNEL_ASID_INDEX as int];
        lines_if(
            s.kind != AddressSpaceKind::Kernel,
            seq![error("INVARIANT VIOLATION: address_spaces[0] is not Kernel")],
        ) + lines_if(
            s.root_page_frame is None,
            seq![error("INVARIANT VIOLATION: kernel address space has no root_page_frame")],
        )
    }

    pub open spec fn user_space_lines(self, i: int) -> Seq<LogLine> {
        let s = self.spaces[i];
        lines_if(
            s.kind != AddressSpaceKind::User,
            seq![
                error("INVARIANT VIOLATION: user address space kind is not User"),
                value("as_idx", i as u64),
            ],
        ) + lines_if(
            s.root_page_frame is None,
            seq![
                error("INVARIANT VIOLATION: user address space has no root_page_frame"),
                value("as_idx", i as u64),
            ],
        )
    }

    /// A task is blocked exactly when it has a reason to be, and a dead task has nothing
    /// left of what it was doing.
    pub open spec fn task_state_lines(self, i: int) -> Seq<LogLine> {
        let t = self.tasks[i];
        let who = seq![value("task_index", i as u64), value("task_id", t.id.0)];
        match t.state {
            TaskState::Blocked => lines_if(
                t.blocked_reason is None,
                seq![error("INVARIANT VIOLATION: BLOCKED task has no blocked_reason")] + who,
            ),
            TaskState::Dead => lines_if(
                t.blocked_reason is Some,
                seq![error("INVARIANT VIOLATION: DEAD task has blocked_reason")] + who,
            ) + lines_if(
                t.last_msg is Some || t.last_reply is Some || t.pending_send_msg is Some
                    || t.pending_syscall is Some,
                seq![error("INVARIANT VIOLATION: DEAD task has leftover task-local state")] + who,
            ),
            _ => lines_if(
                t.blocked_reason is Some,
                seq![error("INVARIANT VIOLATION: non-BLOCKED task has blocked_reason")] + who,
            ),
        }
    }

    pub open spec fn current_task_lines(self) -> Seq<LogLine> {
        match self.state(self.current) {
            TaskState::Dead => seq![error("INVARIANT VIOLATION: current_task is DEAD")],
            TaskState::Running => Seq::empty(),
            _ => seq![error("INVARIANT VIOLATION: current_task is not RUNNING")],
        }
    }

    /// A page of user space lies in the slot of user space.
    pub open spec fn mapping_lines(as_idx: int, m: Mapping) -> Seq<LogLine> {
        lines_if(
            m.flags.spec_contains(PageFlags::user()) && byte_offset(m.page) >= USER_SPACE_SIZE,
            seq![
                error("INVARIANT VIOLATION: user mapping offset out of user slot range"),
                value("as_idx", as_idx as u64),
                value("virt_page_index", m.page.number),
                value("offset", byte_offset(m.page)),
            ],
        )
    }

    pub open spec fn mapping_lines_at(self, as_idx: int) -> spec_fn(int) -> Seq<LogLine> {
        |j: int| Self::mapping_lines(as_idx, self.spaces[as_idx].mappings()[j])
    }

    pub open spec fn user_mapping_lines(self, as_idx: int) -> Seq<LogLine> {
        lines_if(
            self.spaces[as_idx].kind == AddressSpaceKind::User,
            lines_for(
                self.spaces[as_idx].mappings().len() as int,
                self.mapping_lines_at(as_idx),
            ),
        )
    }

    /// Nobody waits at a closed endpoint.
    pub open spec fn closed_lines(self, i: int) -> Seq<LogLine> {
        let e = self.endpoints[i];
        lines_if(
            e.is_closed && (e.recv_waiter is Some || e.send_queue.len() != 0 || e.reply_queue.len()
                != 0),
            seq![
                error("INVARIANT VIOLATION: CLOSED endpoint has waiters/queues"),
                value("ep_id", e.id.0 as u64),
                value("sq_len", e.send_queue.len() as u64),
                value("rq_len", e.reply_queue.len() as u64),
            ] + lines_if(
                e.recv_waiter is Some,
                seq![value("recv_waiter_task_index", e.recv_waiter->0 as u64)],
            ),
        )
    }

    /// The task that waits to receive at an endpoint is no kernel task, is blocked, and
    /// knows what it waits for.
    pub open spec fn receiver_lines(self, i: int) -> Seq<LogLine> {
        let e = self.endpoints[i];
        match e.recv_waiter {
            None => Seq::empty(),
            Some(idx) => if idx >= MAX_TASKS {
                seq![error("INVARIANT VIOLATION: endpoint.recv_waiter out of range")]
            } else {
                let t = self.tasks[idx as int];
                lines_if(
                    self.is_kernel_task(idx),
                    seq![
                        error("INVARIANT VIOLATION: kernel task appears as endpoint.recv_waiter"),
                        value("task_id", t.id.0),
                        value("ep_id", e.id.0 as u64),
                    ],
                ) + lines_if(
                    t.state == TaskState::Dead,
                    seq![
                        error("INVARIANT VIOLATION: endpoint.recv_waiter points DEAD task"),
                        value("task_id", t.id.0),
                    ],
                ) + lines_if(
                    t.state != TaskState::Blocked,
                    seq![
                        error("INVARIANT VIOLATION: recv_waiter is not BLOCKED"),
                        value("task_id", t.id.0),
                    ],
                ) + lines_if(
                    t.blocked_reason != Some(BlockedReason::IpcRecv { ep: e.id }),
                    seq![
                        error("INVARIANT VIOLATION: recv_waiter blocked_reason mismatch"),
                        value("task_id", t.id.0),
                    ],
                )
            },
        }
    }

    /// The same for a task that waits to send.
    pub open spec fn sender_lines(self, i: int, pos: int) -> Seq<LogLine> {
        let e = self.endpoints[i];
        let idx = e.send_queue[pos];
        if idx >= MAX_TASKS {
            seq![error("INVARIANT VIOLATION: endpoint.send_queue idx out of range")]
        } else {
            let t = self.tasks[idx as int];
            lines_if(
                self.is_kernel_task(idx),
                seq![
                    error("INVARIANT VIOLATION: kernel task appears in endpoint.send_queue"),
                    value("task_id", t.id.0),
                    value("ep_id", e.id.0 as u64),
                ],
            ) + lines_if(
                t.state == TaskState::Dead,
                seq![
                    error("INVARIANT VIOLATION: send_queue contains DEAD task"),
                    value("task_id", t.id.0),
                ],
            ) + lines_if(
                t.state != TaskState::Blocked,
                seq![
                    error("INVARIANT VIOLATION: sender in send_queue is not BLOCKED"),
                    value("task_id", t.id.0),
                ],
            ) + lines_if(
                t.blocked_reason != Some(BlockedReason::IpcSend { ep: e.id }),
                seq![
                    error("INVARIANT VIOLATION: sender blocked_reason mismatch"),
                    value("task_id", t.id.0),
                ],
            )
        }
    }

    pub open spec fn sender_lines_at(self, i: int) -> spec_fn(int) -> Seq<LogLine> {
        |pos: int| self.sender_lines(i, pos)
    }

    /// A task whose identifier is `id`, the first of them.
    pub open spec fn task_with_id(self, id: TaskId) -> Option<int> {
        first_such(self.tasks, has_id(id))
    }

    pub open spec fn is_dead_id(self, id: TaskId) -> bool {
        self.task_with_id(id) matches Some(i) && self.tasks[i].state == TaskState::Dead
    }

    /// The same for a task that waits for a reply; its partner is not dead.
    pub open spec fn reply_waiter_lines(self, i: int, pos: int) -> Seq<LogLine> {
        let e = self.endpoints[i];
        let idx = e.reply_queue[pos];
        if idx >= MAX_TASKS {
            seq![error("INVARIANT VIOLATION: endpoint.reply_queue idx out of range")]
        } else {
            let t = self.tasks[idx as int];
            lines_if(
                self.is_kernel_task(idx),
                seq![
                    error("INVARIANT VIOLATION: kernel task appears in endpoint.reply_queue"),
                    value("task_id", t.id.0),
                    value("ep_id", e.id.0 as u64),
                ],
            ) + lines_if(
                t.state == TaskState::Dead,
                seq![
                    error("INVARIANT VIOLATION: reply_queue contains DEAD task"),
                    value("task_id", t.id.0),
                ],
            ) + lines_if(
                t.state != TaskState::Blocked,
                seq![
                    error("INVARIANT VIOLATION: reply waiter is not BLOCKED"),
                    value("task_id", t.id.0),
                ],
            ) + match t.blocked_reason {
                Some(BlockedReason::IpcReply { partner, ep }) => if ep == e.id {
                    lines_if(
                        self.is_dead_id(partner),
                        seq![
                            error("INVARIANT VIOLATION: IpcReply waiter has DEAD partner"),
                            value("waiter_task_id", t.id.0),
                            value("partner_task_id", partner.0),
                        ],
                    )
                } else {
                    seq![
                        error("INVARIANT VIOLATION: reply waiter blocked_reason mismatch"),
                        value("task_id", t.id.0),
                    ]
                },
                _ => seq![
                    error("INVARIANT VIOLATION: reply waiter blocked_reason mismatch"),
                    value("task_id", t.id.0),
                ],
            }
        }
    }

    pub open spec fn reply_waiter_lines_at(self, i: int) -> spec_fn(int) -> Seq<LogLine> {
        |pos: int| self.reply_waiter_lines(i, pos)
    }

    pub open spec fn endpoint_lines(self, i: int) -> Seq<LogLine> {
        self.closed_lines(i) + self.receiver_lines(i) + lines_for(
            self.endpoints[i].send_queue.len() as int,
            self.sender_lines_at(i),
        ) + lines_for(self.endpoints[i].reply_queue.len() as int, self.reply_waiter_lines_at(i))
    }

    /// A dead task is in no queue, and its address space has no user mapping left.
    pub open spec fn dead_task_lines(self, i: int) -> Seq<LogLine> {
        let t = self.tasks[i];
        let as_idx = t.address_space_id.0;
        let s = self.spaces[as_idx as int];
        let who = seq![value("task_index", i as u64), value("task_id", t.id.0)];
        lines_if(
            t.state == TaskState::Dead,
            lines_if(
                self.ready.contains(i as usize),
                seq![error("INVARIANT VIOLATION: DEAD task is in ready_queue")] + who,
            ) + lines_if(
                self.waiting.contains(i as usize),
                seq![error("INVARIANT VIOLATION: DEAD task is in wait_queue")] + who,
            ) + lines_if(
                s.kind == AddressSpaceKind::User && s.user_pages().len() != 0,
                seq![error("INVARIANT VIOLATION: DEAD task address space still has USER mappings")]
                    + who + seq![value("as_idx", as_idx as u64)],
            ),
        )
    }

    /// Only sleepers are in the wait queue.
    pub open spec fn waiting_lines(self, pos: int) -> Seq<LogLine> {
        let idx = self.waiting[pos];
        if idx >= MAX_TASKS {
            seq![error("INVARIANT VIOLATION: wait_queue contains out-of-range idx")]
        } else {
            let t = self.tasks[idx as int];
            if t.state == TaskState::Dead {
                seq![
                    error("INVARIANT VIOLATION: wait_queue contains DEAD task"),
                    value("task_id", t.id.0),
                ]
            } else {
                lines_if(
                    t.state != TaskState::Blocked,
                    seq![
                        error("INVARIANT VIOLATION: wait_queue contains non-BLOCKED task"),
                        value("task_id", t.id.0),
                    ],
                ) + lines_if(
                    t.blocked_reason != Some(BlockedReason::Sleep),
                    seq![
                        error("INVARIANT VIOLATION: wait_queue contains non-Sleep blocked_reason"),
                        value("task_id", t.id.0),
                    ],
                )
            }
        }
    }

    /// Every sleeper is in the wait queue.
    pub open spec fn sleeper_lines(self, i: int) -> Seq<LogLine> {
        let t = self.tasks[i];
        lines_if(
            t.state == TaskState::Blocked && t.blocked_reason == Some(BlockedReason::Sleep)
                && !self.waiting.contains(i as usize),
            seq![
                error("INVARIANT VIOLATION: Sleep BLOCKED task is not in wait_queue"),
                value("task_id", t.id.0),
            ],
        )
    }

    /// Every blocked task is where its reason says it waits, and nowhere else.
    pub open spec fn blocked_task_lines(self, i: int) -> Seq<LogLine> {
        let t = self.tasks[i];
        let id = value("task_id", t.id.0);
        let asleep = self.waiting.contains(i as usize);
        if t.state != TaskState::Blocked {
            Seq::empty()
        } else {
            match t.blocked_reason {
                None => seq![
                    error(
                        "INVARIANT VIOLATION: BLOCKED task has no blocked_reason (reverse check)",
                    ),
                    id,
                ],
                Some(BlockedReason::Sleep) => lines_if(
                    !asleep,
                    seq![
                        error(
                            "INVARIANT VIOLATION: Sleep BLOCKED task not in wait_queue (reverse check)",
                        ),
                        id,
                    ],
                ),
                Some(BlockedReason::IpcRecv { ep }) => if ep.0 >= MAX_ENDPOINTS {
                    seq![
                        error(
                            "INVARIANT VIOLATION: IpcRecv has out-of-range ep (reverse check)",
                        ),
                        id,
                        value("ep", ep.0 as u64),
                    ]
                } else {
                    lines_if(
                        self.endpoints[ep.0 as int].recv_waiter != Some(i as usize),
                        seq![
                            error(
                                "INVARIANT VIOLATION: IpcRecv task not registered as recv_waiter (reverse check)",
                            ),
                            id,
                            value("ep", ep.0 as u64),
                        ],
                    ) + lines_if(
                        asleep,
                        seq![
                            error(
                                "INVARIANT VIOLATION: IpcRecv task is in wait_queue (reverse check)",
                            ),
                            id,
                        ],
                    )
                },
                Some(BlockedReason::IpcSend { ep }) => if ep.0 >= MAX_ENDPOINTS {
                    seq![
                        error(
                            "INVARIANT VIOLATION: IpcSend has out-of-range ep (reverse check)",
                        ),
                        id,
                        value("ep", ep.0 as u64),
                    ]
                } else {
                    lines_if(
                        !self.endpoints[ep.0 as int].send_queue.contains(i as usize),
                        seq![
                            error(
                                "INVARIANT VIOLATION: IpcSend task not found in endpoint.send_queue (reverse check)",
                            ),
                            id,
                            value("ep", ep.0 as u64),
                            value(
                                "sq_len",
                                self.endpoints[ep.0 as int].send_queue.len() as u64,
                            ),
                        ],
                    ) + lines_if(
                        asleep,
                        seq![
                            error(
                                "INVARIANT VIOLATION: IpcSend task is in wait_queue (reverse check)",
                            ),
                            id,
                        ],
                    )
                },
                Some(BlockedReason::IpcReply { partner, ep }) => if ep.0 >= MAX_ENDPOINTS {
                    seq![
                        error(
                            "INVARIANT VIOLATION: IpcReply has out-of-range ep (reverse check)",
                        ),
                        id,
                        value("ep", ep.0 as u64),
                    ]
                } else {
                    lines_if(
                        !self.endpoints[ep.0 as int].reply_queue.contains(i as usize),
                        seq![
                            error(
                                "INVARIANT VIOLATION: IpcReply task not found in endpoint.reply_queue (reverse check)",
                            ),
                            id,
                            value("ep", ep.0 as u64),
                            value(
                                "rq_len",
                                self.endpoints[ep.0 as int].reply_queue.len() as u64,
                            ),
                        ],
                    ) + lines_if(
                        self.is_dead_id(partner),
                        seq![
                            error(
                                "INVARIANT VIOLATION: IpcReply waiter has DEAD partner (reverse check)",
                            ),
                            value("waiter_task_id", t.id.0),
                            value("partner_task_id", partner.0),
                        ],
                    ) + lines_if(
                        asleep,
                        seq![
                            error(
                                "INVARIANT VIOLATION: IpcReply task is in wait_queue (reverse check)",
                            ),
                            id,
                        ],
                    )
                },
            }
        }
    }

    pub open spec fn task_state_lines_at(self) -> spec_fn(int) -> Seq<LogLine> {
        |i: int| self.task_state_lines(i)
    }

    pub open spec fn endpoint_lines_at(self) -> spec_fn(int) -> Seq<LogLine> {
        |i: int| self.endpoint_lines(i)
    }

    pub open spec fn dead_task_lines_at(self) -> spec_fn(int) -> Seq<LogLine> {
        |i: int| self.dead_task_lines(i)
    }

    pub open spec fn waiting_lines_at(self) -> spec_fn(int) -> Seq<LogLine> {
        |pos: int| self.waiting_lines(pos)
    }

    pub open spec fn sleeper_lines_at(self) -> spec_fn(int) -> Seq<LogLine> {
        |i: int| self.sleeper_lines(i)
    }

    pub open spec fn blocked_task_lines_at(self) -> spec_fn(int) -> Seq<LogLine> {
        |i: int| self.blocked_task_lines(i)
    }

    /// All that the self-check has to say.
    #[verifier::opaque]
    pub open spec fn violations(self) -> Seq<LogLine> {
        self.kernel_space_lines() + self.user_space_lines(1) + self.user_space_lines(2)
            + lines_for(MAX_TASKS as int, self.task_state_lines_at()) + self.current_task_lines()
            + self.user_mapping_lines(1) + self.user_mapping_lines(2) + lines_for(
            MAX_ENDPOINTS as int,
            self.endpoint_lines_at(),
        ) + lines_for(MAX_TASKS as int, self.dead_task_lines_at()) + lines_for(
            self.waiting.len() as int,
            self.waiting_lines_at(),
        ) + lines_for(MAX_TASKS as int, self.sleeper_lines_at()) + lines_for(
            MAX_TASKS as int,
            self.blocked_task_lines_at(),
        )
    }
}

impl KernelState {
    fn check_kernel_space(&self, out: &mut Vec<LogLine>)
        requires
            self.wf(),
        ensures
            final(out)@ == old(out)@ + self@.kernel_space_lines(),
    {
        let s = self.space(KERNEL_ASID_INDEX);
        if s.kind != AddressSpaceKind::Kernel {
            push_error(out, "INVARIANT VIOLATION: address_spaces[0] is not Kernel");
        }
        if s.root_page_frame.is_none() {
            push_error(out, "INVARIANT VIOLATION: kernel address space has no root_page_frame");
        }
        assert(out@ =~= old(out)@ + self@.kernel_space_lines());
    }

    fn check_user_space(&self, i: usize, out: &mut Vec<LogLine>)
        requires
            self.wf(),
            i < MAX_TASKS,
        ensures
            final(out)@ == old(out)@ + self@.user_space_lines(i as int),
    {
        let s = self.space(i);
        if s.kind != AddressSpaceKind::User {
            push_error(out, "INVARIANT VIOLATION: user address space kind is not User");
            push_value(out, "as_idx", i as u64);
        }
        if s.root_page_frame.is_none() {
            push_error(out, "INVARIANT VIOLATION: user address space has no root_page_frame");
            push_value(out, "as_idx", i as u64);
        }
        assert(out@ =~= old(out)@ + self@.user_space_lines(i as int));
    }

    fn check_task_state(&self, i: usize, out: &mut Vec<LogLine>)
        requires
            self.wf(),
            i < MAX_TASKS,
        ensures
            final(out)@ == old(out)@ + self@.task_state_lines(i as int),
    {
        let t = self.task(i);
        match t.state {
            TaskState::Blocked => {
                if t.blocked_reason.is_none() {
                    push_error(out, "INVARIANT VIOLATION: BLOCKED task has no blocked_reason");
                    push_value(out, "task_index", i as u64);
                    push_value(out, "task_id", t.id.0);
                }
            },
            TaskState::Dead => {
                if t.blocked_reason.is_some() {
                    push_error(out, "INVARIANT VIOLATION: DEAD task has blocked_reason");
                    push_value(out, "task_index", i as u64);
                    push_value(out, "task_id", t.id.0);
                }
                if t.last_msg.is_some() || t.last_reply.is_some() || t.pending_send_msg.is_some()
                    || t.pending_syscall.is_some() {
                    push_error(
                        out,
                        "INVARIANT VIOLATION: DEAD task has leftover task-local state",
                    );
                    push_value(out, "task_index", i as u64);
                    push_value(out, "task_id", t.id.0);
                }
            },
            _ => {
                if t.blocked_reason.is_some() {
                    push_error(out, "INVARIANT VIOLATION: non-BLOCKED task has blocked_reason");
                    push_value(out, "task_index", i as u64);
                    push_value(out, "task_id", t.id.0);
                }
            },
        }
        assert(out@ =~= old(out)@ + self@.task_state_lines(i as int));
    }

    fn check_current_task(&self, out: &mut Vec<LogLine>)
        requires
            self.wf(),
        ensures
            final(out)@ == old(out)@ + self@.current_task_lines(),
    {
        let st = self.task(self.current_task()).state;
        if st == TaskState::Dead {
            push_error(out, "INVARIANT VIOLATION: current_task is DEAD");
        } else if st != TaskState::Running {
            push_error(out, "INVARIANT VIOLATION: current_task is not RUNNING");
        }
        assert(out@ =~= old(out)@ + self@.current_task_lines());
    }

    fn check_user_mappings(&self, as_idx: usize, out: &mut Vec<LogLine>)
        requires
            self.wf(),
            as_idx < MAX_TASKS,
        ensures
            final(out)@ == old(out)@ + self@.user_mapping_lines(as_idx as int),
    {
        if self.space(as_idx).kind != AddressSpaceKind::User {
            assert(out@ =~= old(out)@ + self@.user_mapping_lines(as_idx as int));
            return;
        }
        let mappings = self.space(as_idx).for_each_mapping();
        let ghost f = self@.mapping_lines_at(as_idx as int);
        let mut j: usize = 0;
        assert(out@ =~= old(out)@ + lines_for(0, f));
        while j < mappings.len()
            invariant
                j <= mappings.len(),
                mappings@ == self@.spaces[as_idx as int].mappings(),
                f == self@.mapping_lines_at(as_idx as int),
                out@ == old(out)@ + lines_for(j as int, f),
            decreases mappings.len() - j,
        {
            let ghost before = out@;
            let m = mappings[j];
            let offset: u64 = page_byte_offset(m.page);
            if m.flags.contains(PageFlags::user()) && offset >= USER_SPACE_SIZE {
                push_error(
                    out,
                    "INVARIANT VIOLATION: user mapping offset out of user slot range",
                );
                push_value(out, "as_idx", as_idx as u64);
                push_value(out, "virt_page_index", m.page.number);
                push_value(out, "offset", offset);
            }
            assert(out@ =~= before + f(j as int));
            assert(out@ =~= old(out)@ + lines_for(j + 1, f));
            j += 1;
        }
    }

    fn check_closed(&self, i: usize, out: &mut Vec<LogLine>)
        requires
            self.wf(),
            i < MAX_ENDPOINTS,
        ensures
            final(out)@ == old(out)@ + self@.closed_lines(i as int),
    {
        let e = self.endpoint(i);
        if e.is_closed {
            if e.recv_waiter.is_some() || e.sq_len != 0 || e.rq_len != 0 {
                push_error(out, "INVARIANT VIOLATION: CLOSED endpoint has waiters/queues");
                push_value(out, "ep_id", e.id.0 as u64);
                push_value(out, "sq_len", e.sq_len as u64);
                push_value(out, "rq_len", e.rq_len as u64);
                if let Some(w) = e.recv_waiter {
                    push_value(out, "recv_waiter_task_index", w as u64);
                }
            }
        }
        assert(out@ =~= old(out)@ + self@.closed_lines(i as int));
    }

    fn check_receiver(&self, i: usize, out: &mut Vec<LogLine>)
        requires
            self.wf(),
            i < MAX_ENDPOINTS,
        ensures
            final(out)@ == old(out)@ + self@.receiver_lines(i as int),
    {
        let e = self.endpoint(i);
        if let Some(idx) = e.recv_waiter {
            if idx >= MAX_TASKS {
                push_error(out, "INVARIANT VIOLATION: endpoint.recv_waiter out of range");
            } else {
                let t = self.task(idx);
                if self.is_kernel_task_index(idx) {
                    push_error(
                        out,
                        "INVARIANT VIOLATION: kernel task appears as endpoint.recv_waiter",
                    );
                    push_value(out, "task_id", t.id.0);
                    push_value(out, "ep_id", e.id.0 as u64);
                }
                if t.state == TaskState::Dead {
                    push_error(
                        out,
                        "INVARIANT VIOLATION: endpoint.recv_waiter points DEAD task",
                    );
                    push_value(out, "task_id", t.id.0);
                }
                if t.state != TaskState::Blocked {
                    push_error(out, "INVARIANT VIOLATION: recv_waiter is not BLOCKED");
                    push_value(out, "task_id", t.id.0);
                }
                let matches_reason = match t.blocked_reason {
                    Some(BlockedReason::IpcRecv { ep }) => ep == e.id,
                    _ => false,
                };
                if !matches_reason {
                    push_error(
                        out,
                        "INVARIANT VIOLATION: recv_waiter blocked_reason mismatch",
                    );
                    push_value(out, "task_id", t.id.0);
                }
            }
        }
        assert(out@ =~= old(out)@ + self@.receiver_lines(i as int));
    }

    fn check_sender(&self, i: usize, pos: usize, out: &mut Vec<LogLine>)
        requires
            self.wf(),
            i < MAX_ENDPOINTS,
            pos < self@.endpoints[i as int].send_queue.len(),
        ensures
            final(out)@ == old(out)@ + self@.sender_lines(i as int, pos as int),
    {
        let e = self.endpoint(i);
        let idx: usize = e.send_queue[pos];
        assert(idx == e@.send_queue[pos as int]);
        if idx >= MAX_TASKS {
            push_error(out, "INVARIANT VIOLATION: endpoint.send_queue idx out of range");
        } else {
            let t = self.task(idx);
            if self.is_kernel_task_index(idx) {
                push_error(
                    out,
                    "INVARIANT VIOLATION: kernel task appears in endpoint.send_queue",
                );
                push_value(out, "task_id", t.id.0);
                push_value(out, "ep_id", e.id.0 as u64);
            }
            if t.state == TaskState::Dead {
                push_error(out, "INVARIANT VIOLATION: send_queue contains DEAD task");
                push_value(out, "task_id", t.id.0);
            }
            if t.state != TaskState::Blocked {
                push_error(out, "INVARIANT VIOLATION: sender in send_queue is not BLOCKED");
                push_value(out, "task_id", t.id.0);
            }
            let matches_reason = match t.blocked_reason {
                Some(BlockedReason::IpcSend { ep }) => ep == e.id,
                _ => false,
            };
            if !matches_reason {
                push_error(out, "INVARIANT VIOLATION: sender blocked_reason mismatch");
                push_value(out, "task_id", t.id.0);
            }
        }
        assert(out@ =~= old(out)@ + self@.sender_lines(i as int, pos as int));
    }

    /// Whether the task with an identifier is dead.
    fn is_dead_id(&self, id: TaskId) -> (r: bool)
        requires
            self.wf(),
        ensures
            r == self@.is_dead_id(id),
    {
        let mut i: usize = 0;
        while i < MAX_TASKS
            invariant
                self.wf(),
                i <= MAX_TASKS,
                forall|j: int| 0 <= j < i ==> !has_id(id)(#[trigger] self@.tasks[j]),
            decreases MAX_TASKS - i,
        {
            let t = self.task(i);
            if t.id == id {
                proof {
                    lemma_first_such_is(self@.tasks, has_id(id), i as int);
                }
                return t.state == TaskState::Dead;
            }
            i += 1;
        }
        proof {
            lemma_first_such_none(self@.tasks, has_id(id));
        }
        false
    }

    fn check_reply_waiter(&self, i: usize, pos: usize, out: &mut Vec<LogLine>)
        requires
            self.wf(),
            i < MAX_ENDPOINTS,
            pos < self@.endpoints[i as int].reply_queue.len(),
        ensures
            final(out)@ == old(out)@ + self@.reply_waiter_lines(i as int, pos as int),
    {
        let e = self.endpoint(i);
        let idx: usize = e.reply_queue[pos];
        assert(idx == e@.reply_queue[pos as int]);
        if idx >= MAX_TASKS {
            push_error(out, "INVARIANT VIOLATION: endpoint.reply_queue idx out of range");
        } else {
            let t = self.task(idx);
            if self.is_kernel_task_index(idx) {
                push_error(
                    out,
                    "INVARIANT VIOLATION: kernel task appears in endpoint.reply_queue",
                );
                push_value(out, "task_id", t.id.0);
                push_value(out, "ep_id", e.id.0 as u64);
            }
            if t.state == TaskState::Dead {
                push_error(out, "INVARIANT VIOLATION: reply_queue contains DEAD task");
                push_value(out, "task_id", t.id.0);
            }
            if t.state != TaskState::Blocked {
                push_error(out, "INVARIANT VIOLATION: reply waiter is not BLOCKED");
                push_value(out, "task_id", t.id.0);
            }
            let partner = match t.blocked_reason {
                Some(BlockedReason::IpcReply { partner, ep }) => if ep == e.id {
                    Some(partner)
                } else {
                    None
                },
                _ => None,
            };
            match partner {
                Some(partner) => {
                    if self.is_dead_id(partner) {
                        push_error(out, "INVARIANT VIOLATION: IpcReply waiter has DEAD partner");
                        push_value(out, "waiter_task_id", t.id.0);
                        push_value(out, "partner_task_id", partner.0);
                    }
                },
                None => {
                    push_error(
                        out,
                        "INVARIANT VIOLATION: reply waiter blocked_reason mismatch",
                    );
                    push_value(out, "task_id", t.id.0);
                },
            }
        }
        assert(out@ =~= old(out)@ + self@.reply_waiter_lines(i as int, pos as int));
    }

    fn check_endpoint(&self, i: usize, out: &mut Vec<LogLine>)
        requires
            self.wf(),
            i < MAX_ENDPOINTS,
        ensures
            final(out)@ == old(out)@ + self@.endpoint_lines(i as int),
    {
        self.check_closed(i, out);
        self.check_receiver(i, out);
        let ghost head = out@;
        let n_senders: usize = self.endpoint(i).sq_len;
        let ghost f = self@.sender_lines_at(i as int);
        assert(head + lines_for(0, f) =~= head);
        let mut pos: usize = 0;
        while pos < n_senders
            invariant
                self.wf(),
                i < MAX_ENDPOINTS,
                pos <= n_senders == self@.endpoints[i as int].send_queue.len(),
                f == self@.sender_lines_at(i as int),
                out@ == head + lines_for(pos as int, f),
            decreases n_senders - pos,
        {
            self.check_sender(i, pos, out);
            assert(out@ =~= head + lines_for(pos + 1, f));
            pos += 1;
        }
        let ghost middle = out@;
        let n_waiters: usize = self.endpoint(i).rq_len;
        let ghost g = self@.reply_waiter_lines_at(i as int);
        assert(middle + lines_for(0, g) =~= middle);
        let mut pos: usize = 0;
        while pos < n_waiters
            invariant
                self.wf(),
                i < MAX_ENDPOINTS,
                pos <= n_waiters == self@.endpoints[i as int].reply_queue.len(),
                g == self@.reply_waiter_lines_at(i as int),
                out@ == middle + lines_for(pos as int, g),
            decreases n_waiters - pos,
        {
            self.check_reply_waiter(i, pos, out);
            assert(out@ =~= middle + lines_for(pos + 1, g));
            pos += 1;
        }
        assert(out@ =~= old(out)@ + self@.endpoint_lines(i as int));
    }

    fn check_dead_task(&self, i: usize, out: &mut Vec<LogLine>)
        requires
            self.wf(),
            i < MAX_TASKS,
        ensures
            final(out)@ == old(out)@ + self@.dead_task_lines(i as int),
    {
        let t = self.task(i);
        if t.state == TaskState::Dead {
            if self.is_in_ready_queue(i) {
                push_error(out, "INVARIANT VIOLATION: DEAD task is in ready_queue");
                push_value(out, "task_index", i as u64);
                push_value(out, "task_id", t.id.0);
            }
            if self.is_in_wait_queue(i) {
                push_error(out, "INVARIANT VIOLATION: DEAD task is in wait_queue");
                push_value(out, "task_index", i as u64);
                push_value(out, "task_id", t.id.0);
            }
            let as_idx: usize = t.address_space_id.0;
            let s = self.space(as_idx);
            if s.kind == AddressSpaceKind::User {
                let pages = s.for_each_user_mapping_page();
                if pages.len() != 0 {
                    push_error(
                        out,
                        "INVARIANT VIOLATION: DEAD task address space still has USER mappings",
                    );
                    push_value(out, "task_index", i as u64);
                    push_value(out, "task_id", t.id.0);
                    push_value(out, "as_idx", as_idx as u64);
                }
            }
        }
        assert(out@ =~= old(out)@ + self@.dead_task_lines(i as int));
    }

    fn check_waiting(&self, pos: usize, out: &mut Vec<LogLine>)
        requires
            self.wf(),
            pos < self@.waiting.len(),
        ensures
            final(out)@ == old(out)@ + self@.waiting_lines(pos as int),
    {
        let idx: usize = self.waiting_at(pos);
        if idx >= MAX_TASKS {
            push_error(out, "INVARIANT VIOLATION: wait_queue contains out-of-range idx");
        } else {
            let t = self.task(idx);
            if t.state == TaskState::Dead {
                push_error(out, "INVARIANT VIOLATION: wait_queue contains DEAD task");
                push_value(out, "task_id", t.id.0);
            } else {
                if t.state != TaskState::Blocked {
                    push_error(out, "INVARIANT VIOLATION: wait_queue contains non-BLOCKED task");
                    push_value(out, "task_id", t.id.0);
                }
                let sleeps = match t.blocked_reason {
                    Some(BlockedReason::Sleep) => true,
                    _ => false,
                };
                if !sleeps {
                    push_error(
                        out,
                        "INVARIANT VIOLATION: wait_queue contains non-Sleep blocked_reason",
                    );
                    push_value(out, "task_id", t.id.0);
                }
            }
        }
        assert(out@ =~= old(out)@ + self@.waiting_lines(pos as int));
    }

    fn check_sleeper(&self, i: usize, out: &mut Vec<LogLine>)
        requires
            self.wf(),
            i < MAX_TASKS,
        ensures
            final(out)@ == old(out)@ + self@.sleeper_lines(i as int),
    {
        let t = self.task(i);
        let sleeps = match t.blocked_reason {
            Some(BlockedReason::Sleep) => true,
            _ => false,
        };
        if t.state == TaskState::Blocked && sleeps {
            if !self.is_in_wait_queue(i) {
                push_error(
                    out,
                    "INVARIANT VIOLATION: Sleep BLOCKED task is not in wait_queue",
                );
                push_value(out, "task_id", t.id.0);
            }
        }
        assert(out@ =~= old(out)@ + self@.sleeper_lines(i as int));
    }

    fn check_blocked_receiver(&self, i: usize, ep: EndpointId, out: &mut Vec<LogLine>)
        requires
            self.wf(),
            i < MAX_TASKS,
            self@.tasks[i as int].state == TaskState::Blocked,
            self@.tasks[i as int].blocked_reason == Some(BlockedReason::IpcRecv { ep }),
        ensures
            final(out)@ == old(out)@ + self@.blocked_task_lines(i as int),
    {
        let t = self.task(i);
        if ep.0 >= MAX_ENDPOINTS {
            push_error(out, "INVARIANT VIOLATION: IpcRecv has out-of-range ep (reverse check)");
            push_value(out, "task_id", t.id.0);
            push_value(out, "ep", ep.0 as u64);
        } else {
            let registered = match self.endpoint(ep.0).recv_waiter {
                Some(w) => w == i,
                None => false,
            };
            if !registered {
                push_error(
                    out,
                    "INVARIANT VIOLATION: IpcRecv task not registered as recv_waiter (reverse check)",
                );
                push_value(out, "task_id", t.id.0);
                push_value(out, "ep", ep.0 as u64);
            }
            if self.is_in_wait_queue(i) {
                push_error(
                    out,
                    "INVARIANT VIOLATION: IpcRecv task is in wait_queue (reverse check)",
                );
                push_value(out, "task_id", t.id.0);
            }
        }
        assert(out@ =~= old(out)@ + self@.blocked_task_lines(i as int));
    }

    fn check_blocked_sender(&self, i: usize, ep: EndpointId, out: &mut Vec<LogLine>)
        requires
            self.wf(),
            i < MAX_TASKS,
            self@.tasks[i as int].state == TaskState::Blocked,
            self@.tasks[i as int].blocked_reason == Some(BlockedReason::IpcSend { ep }),
        ensures
            final(out)@ == old(out)@ + self@.blocked_task_lines(i as int),
    {
        let t = self.task(i);
        if ep.0 >= MAX_ENDPOINTS {
            push_error(out, "INVARIANT VIOLATION: IpcSend has out-of-range ep (reverse check)");
            push_value(out, "task_id", t.id.0);
            push_value(out, "ep", ep.0 as u64);
        } else {
            let e = self.endpoint(ep.0);
            if !queue_contains(&e.send_queue, e.sq_len, i) {
                push_error(
                    out,
                    "INVARIANT VIOLATION: IpcSend task not found in endpoint.send_queue (reverse check)",
                );
                push_value(out, "task_id", t.id.0);
                push_value(out, "ep", ep.0 as u64);
                push_value(out, "sq_len", e.sq_len as u64);
            }
            if self.is_in_wait_queue(i) {
                push_error(
                    out,
                    "INVARIANT VIOLATION: IpcSend task is in wait_queue (reverse check)",
                );
                push_value(out, "task_id", t.id.0);
            }
        }
        assert(out@ =~= old(out)@ + self@.blocked_task_lines(i as int));
    }

    fn check_blocked_on_reply(
        &self,
        i: usize,
        partner: TaskId,
        ep: EndpointId,
        out: &mut Vec<LogLine>,
    )
        requires
            self.wf(),
            i < MAX_TASKS,
            self@.tasks[i as int].state == TaskState::Blocked,
            self@.tasks[i as int].blocked_reason == Some(BlockedReason::IpcReply { partner, ep }),
        ensures
            final(out)@ == old(out)@ + self@.blocked_task_lines(i as int),
    {
        let t = self.task(i);
        if ep.0 >= MAX_ENDPOINTS {
            push_error(out, "INVARIANT VIOLATION: IpcReply has out-of-range ep (reverse check)");
            push_value(out, "task_id", t.id.0);
            push_value(out, "ep", ep.0 as u64);
        } else {
            let e = self.endpoint(ep.0);
            if !queue_contains(&e.reply_queue, e.rq_len, i) {
                push_error(
                    out,
                    "INVARIANT VIOLATION: IpcReply task not found in endpoint.reply_queue (reverse check)",
                );
                push_value(out, "task_id", t.id.0);
                push_value(out, "ep", ep.0 as u64);
                push_value(out, "rq_len", e.rq_len as u64);
            }
            if self.is_dead_id(partner) {
                push_error(
                    out,
                    "INVARIANT VIOLATION: IpcReply waiter has DEAD partner (reverse check)",
                );
                push_value(out, "waiter_task_id", t.id.0);
                push_value(out, "partner_task_id", partner.0);
            }
            if self.is_in_wait_queue(i) {
                push_error(
                    out,
                    "INVARIANT VIOLATION: IpcReply task is in wait_queue (reverse check)",
                );
                push_value(out, "task_id", t.id.0);
            }
        }
        assert(out@ =~= old(out)@ + self@.blocked_task_lines(i as int));
    }

    fn check_blocked_task(&self, i: usize, out: &mut Vec<LogLine>)
        requires
            self.wf(),
            i < MAX_TASKS,
        ensures
            final(out)@ == old(out)@ + self@.blocked_task_lines(i as int),
    {
        let t = self.task(i);
        if t.state != TaskState::Blocked {
            assert(out@ =~= old(out)@ + self@.blocked_task_lines(i as int));
            return;
        }
        match t.blocked_reason {
            None => {
                push_error(
                    out,
                    "INVARIANT VIOLATION: BLOCKED task has no blocked_reason (reverse check)",
                );
                push_value(out, "task_id", t.id.0);
                assert(out@ =~= old(out)@ + self@.blocked_task_lines(i as int));
            },
            Some(BlockedReason::Sleep) => {
                if !self.is_in_wait_queue(i) {
                    push_error(
                        out,
                        "INVARIANT VIOLATION: Sleep BLOCKED task not in wait_queue (reverse check)",
                    );
                    push_value(out, "task_id", t.id.0);
                }
                assert(out@ =~= old(out)@ + self@.blocked_task_lines(i as int));
            },
            Some(BlockedReason::IpcRecv { ep }) => {
                self.check_blocked_receiver(i, ep, out);
            },
            Some(BlockedReason::IpcSend { ep }) => {
                self.check_blocked_sender(i, ep, out);
            },
            Some(BlockedReason::IpcReply { partner, ep }) => {
                self.check_blocked_on_reply(i, partner, ep, out);
            },
        }
    }

    fn check_task_states(&self, out: &mut Vec<LogLine>)
        requires
            self.wf(),
        ensures
            final(out)@ == old(out)@ + lines_for(MAX_TASKS as int, self@.task_state_lines_at()),
    {
        let ghost f = self@.task_state_lines_at();
        assert(out@ =~= old(out)@ + lines_for(0, f));
        let mut i: usize = 0;
        while i < MAX_TASKS
            invariant
                self.wf(),
                i <= MAX_TASKS,
                f == self@.task_state_lines_at(),
                out@ == old(out)@ + lines_for(i as int, f),
            decreases MAX_TASKS - i,
        {
            self.check_task_state(i, out);
            assert(out@ =~= old(out)@ + lines_for(i + 1, f));
            i += 1;
        }
    }

    fn check_endpoints(&self, out: &mut Vec<LogLine>)
        requires
            self.wf(),
        ensures
            final(out)@ == old(out)@ + lines_for(MAX_ENDPOINTS as int, self@.endpoint_lines_at()),
    {
        let ghost f = self@.endpoint_lines_at();
        assert(out@ =~= old(out)@ + lines_for(0, f));
        let mut i: usize = 0;
        while i < MAX_ENDPOINTS
            invariant
                self.wf(),
                i <= MAX_ENDPOINTS,
                f == self@.endpoint_lines_at(),
                out@ == old(out)@ + lines_for(i as int, f),
            decreases MAX_ENDPOINTS - i,
        {
            self.check_endpoint(i, out);
            assert(out@ =~= old(out)@ + lines_for(i + 1, f));
            i += 1;
        }
    }

    fn check_dead_tasks(&self, out: &mut Vec<LogLine>)
        requires
            self.wf(),
        ensures
            final(out)@ == old(out)@ + lines_for(MAX_TASKS as int, self@.dead_task_lines_at()),
    {
        let ghost f = self@.dead_task_lines_at();
        assert(out@ =~= old(out)@ + lines_for(0, f));
        let mut i: usize = 0;
        while i < MAX_TASKS
            invariant
                self.wf(),
                i <= MAX_TASKS,
                f == self@.dead_task_lines_at(),
                out@ == old(out)@ + lines_for(i as int, f),
            decreases MAX_TASKS - i,
        {
            self.check_dead_task(i, out);
            assert(out@ =~= old(out)@ + lines_for(i + 1, f));
            i += 1;
        }
    }

    fn check_sleepers(&self, out: &mut Vec<LogLine>)
        requires
            self.wf(),
        ensures
            final(out)@ == old(out)@ + lines_for(MAX_TASKS as int, self@.sleeper_lines_at()),
    {
        let ghost f = self@.sleeper_lines_at();
        assert(out@ =~= old(out)@ + lines_for(0, f));
        let mut i: usize = 0;
        while i < MAX_TASKS
            invariant
                self.wf(),
                i <= MAX_TASKS,
                f == self@.sleeper_lines_at(),
                out@ == old(out)@ + lines_for(i as int, f),
            decreases MAX_TASKS - i,
        {
            self.check_sleeper(i, out);
            assert(out@ =~= old(out)@ + lines_for(i + 1, f));
            i += 1;
        }
    }

    fn check_blocked_tasks(&self, out: &mut Vec<LogLine>)
        requires
            self.wf(),
        ensures
            final(out)@ == old(out)@ + lines_for(MAX_TASKS as int, self@.blocked_task_lines_at()),
    {
        let ghost f = self@.blocked_task_lines_at();
        assert(out@ =~= old(out)@ + lines_for(0, f));
        let mut i: usize = 0;
        while i < MAX_TASKS
            invariant
                self.wf(),
                i <= MAX_TASKS,
                f == self@.blocked_task_lines_at(),
                out@ == old(out)@ + lines_for(i as int, f),
            decreases MAX_TASKS - i,
        {
            self.check_blocked_task(i, out);
            assert(out@ =~= old(out)@ + lines_for(i + 1, f));
            i += 1;
        }
    }

    fn check_wait_queue(&self, out: &mut Vec<LogLine>)
        requires
            self.wf(),
        ensures
            final(out)@ == old(out)@ + lines_for(
                self@.waiting.len() as int,
                self@.waiting_lines_at(),
            ),
    {
        let ghost f = self@.waiting_lines_at();
        assert(out@ =~= old(out)@ + lines_for(0, f));
        let n: usize = self.waiting_len();
        let mut pos: usize = 0;
        while pos < n
            invariant
                self.wf(),
                pos <= n == self@.waiting.len(),
                f == self@.waiting_lines_at(),
                out@ == old(out)@ + lines_for(pos as int, f),
            decreases n - pos,
        {
            self.check_waiting(pos, out);
            assert(out@ =~= old(out)@ + lines_for(pos + 1, f));
            pos += 1;
        }
    }

    /// Checks the kernel's invariants; what comes back is what is wrong, in words.
    pub fn debug_check_invariants(&self) -> (out: Vec<LogLine>)
        requires
            self.wf(),
        ensures
            out@ == self@.violations(),
    {
        proof {
            reveal(KernelView::violations);
        }
        let mut lines: Vec<LogLine> = Vec::new();
        self.check_kernel_space(&mut lines);
        assert(lines@ =~= self@.kernel_space_lines());
        self.check_user_space(1, &mut lines);
        self.check_user_space(2, &mut lines);
        self.check_task_states(&mut lines);
        self.check_current_task(&mut lines);
        self.check_user_mappings(1, &mut lines);
        self.check_user_mappings(2, &mut lines);
        self.check_endpoints(&mut lines);
        self.check_dead_tasks(&mut lines);
        self.check_wait_queue(&mut lines);
        self.check_sleepers(&mut lines);
        self.check_blocked_tasks(&mut lines);
        lines
    }
}

} // verus!
