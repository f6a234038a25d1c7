//! Scheduling: who is ready, who sleeps, who runs next.

use vstd::prelude::*;

use crate::kernel::ipc::IPC_ERR_DEAD_PARTNER;
use crate::kernel::model::KernelView;
use crate::kernel::state::KernelState;
use crate::kernel::types::{
    BlockedReason, Effect, EndpointId, KernelCounters, LogEvent, Task, TaskState,
    KERNEL_ASID_INDEX, MAX_TASKS, TASK0_INDEX, TASK1_INDEX,
};
use crate::mem::addr::PhysFrame;
use crate::mem::address_space::AddressSpaceKind;
use crate::seqs::{
    equal_to, first_such, lemma_first_such_is, lemma_first_such_none, other_than, swap_remove,
};

verus! {

broadcast use crate::mem::address_space::lemma_view;

impl BlockedReason {
    /// The endpoint of the wait; a sleeper waits at none of them.
    pub open spec fn endpoint(self) -> EndpointId {
        match self {
            BlockedReason::Sleep => EndpointId(0),
            BlockedReason::IpcRecv { ep } => ep,
            BlockedReason::IpcSend { ep } => ep,
            BlockedReason::IpcReply { ep, .. } => ep,
        }
    }
}

/// What is said of the state of a task in the ready queue.
pub open spec fn queued_line(state: TaskState) -> &'static str {
    match state {
        TaskState::Ready => "rq[pos].state = Ready",
        TaskState::Running => "rq[pos].state = Running",
        TaskState::Blocked => "rq[pos].state = Blocked",
        TaskState::Dead => "rq[pos].state = Dead",
    }
}

fn queued_text(state: TaskState) -> (msg: &'static str)
    ensures
        msg == queued_line(state),
{
    match state {
        TaskState::Ready => "rq[pos].state = Ready",
        TaskState::Running => "rq[pos].state = Running",
        TaskState::Blocked => "rq[pos].state = Blocked",
        TaskState::Dead => "rq[pos].state = Dead",
    }
}

impl KernelView {
    /// Queues a ready task up to run. A task stands in the queue once at most.
    pub open spec fn enqueue_ready(self, idx: usize) -> KernelView {
        if self.ready.len() >= MAX_TASKS || idx >= MAX_TASKS || self.ready.contains(idx)
            || self.state(idx) != TaskState::Ready {
            self
        } else {
            KernelView { ready: self.ready.push(idx), ..self }.log(
                LogEvent::ReadyQueued(self.tasks[idx as int].id),
            )
        }
    }

    /// Queues a blocked task up as a sleeper. A task stands in the queue once at most.
    pub open spec fn enqueue_wait(self, idx: usize) -> KernelView {
        if self.waiting.len() >= MAX_TASKS || idx >= MAX_TASKS || self.waiting.contains(idx)
            || self.state(idx) != TaskState::Blocked || self.tasks[idx as int].blocked_reason
            is None {
            self
        } else {
            KernelView { waiting: self.waiting.push(idx), ..self }.log(
                LogEvent::WaitQueued(self.tasks[idx as int].id),
            )
        }
    }

    /// Takes a task out of the queue of sleepers.
    pub open spec fn dequeue_wait(self, idx: usize) -> KernelView {
        if idx >= MAX_TASKS {
            self
        } else {
            match first_such(self.waiting, equal_to(idx)) {
                Some(pos) => KernelView { waiting: swap_remove(self.waiting, pos), ..self }.log(
                    LogEvent::WaitDequeued(self.tasks[idx as int].id),
                ),
                None => self,
            }
        }
    }

    /// Blocks a task that is alive. It leaves the ready queue; a sleeper joins the queue
    /// of sleepers.
    pub open spec fn block(self, idx: usize, reason: BlockedReason) -> KernelView {
        if idx >= MAX_TASKS {
            self.error("block_task: idx out of range")
        } else if self.state(idx) == TaskState::Dead {
            self.error("block_task: called for DEAD task; ignore").value(
                "task_id",
                self.tasks[idx as int].id.0,
            )
        } else {
            let t = self.tasks[idx as int];
            let sleeps = reason == BlockedReason::Sleep && !(t.state == TaskState::Blocked
                && t.blocked_reason == Some(BlockedReason::Sleep));
            let m = KernelView {
                ready: self.ready.filter(other_than(idx)),
                ..self
            }.put_task(idx as int, t.made_blocked(reason)).log(
                LogEvent::TaskStateChanged(t.id, TaskState::Blocked),
            );
            if sleeps {
                m.enqueue_wait(idx)
            } else {
                m
            }
        }
    }

    /// Blocks the current task. The kernel task does not wait for messages: it is given
    /// an error in place of an answer.
    pub open spec fn block_current(self, reason: BlockedReason) -> KernelView {
        let idx = self.current;
        let t = self.tasks[idx as int];
        if t.state == TaskState::Dead {
            self.error("block_current: called for DEAD task; ignore")
        } else if self.is_kernel_task(idx) && reason != BlockedReason::Sleep {
            self.error("block_current: kernel task would block on IPC; convert to error").value(
                "task_id",
                t.id.0,
            ).value("ep", reason.endpoint().0 as u64).put_task(
                idx as int,
                Task { last_reply: Some(IPC_ERR_DEAD_PARTNER), pending_send_msg: None, ..t },
            )
        } else {
            self.block(idx, reason)
        }
    }

    /// Makes a blocked task ready and queues it up to run. A task that is ready or running
    /// stays as it is, and a dead one stays dead.
    pub open spec fn wake(self, idx: usize) -> KernelView {
        if idx >= MAX_TASKS || self.state(idx) == TaskState::Dead {
            self
        } else {
            let t = self.tasks[idx as int];
            if t.state == TaskState::Ready || t.state == TaskState::Running {
                self.put_task(idx as int, Task { blocked_reason: None, ..t })
            } else {
                KernelView {
                    ready: if !self.ready.contains(idx) && self.ready.len() < MAX_TASKS {
                        self.ready.push(idx)
                    } else {
                        self.ready
                    },
                    ..self
                }.put_task(idx as int, t.made_ready()).log(
                    LogEvent::TaskStateChanged(t.id, TaskState::Ready),
                )
            }
        }
    }

    /// A task index that stands for a task that sleeps.
    pub open spec fn is_sleeper(self) -> spec_fn(usize) -> bool {
        |idx: usize|
            idx < MAX_TASKS && self.state(idx) != TaskState::Dead
                && self.tasks[idx as int].blocked_reason == Some(BlockedReason::Sleep)
    }

    /// Wakes the first sleeper, if there is one. It leaves the queue of sleepers.
    pub open spec fn wake_one_sleeper(self) -> KernelView {
        match first_such(self.waiting, self.is_sleeper()) {
            Some(pos) => self.info("waking 1 blocked task (Sleep only)").dequeue_wait(
                self.waiting[pos],
            ).wake(self.waiting[pos]),
            None => self,
        }
    }

    /// Among the first `n` entries of the ready queue, the position of the one with the
    /// highest priority; the first of them where several are equal.
    pub open spec fn best_ready_pos(self, n: int) -> int
        decreases n,
    {
        if n <= 1 {
            0
        } else {
            let best = self.best_ready_pos(n - 1);
            if self.tasks[self.ready[n - 1] as int].priority
                > self.tasks[self.ready[best] as int].priority {
                n - 1
            } else {
                best
            }
        }
    }

    /// The task that is to run next: of those that are ready, the one with the highest
    /// priority.
    pub open spec fn next_ready(self) -> Option<usize> {
        let m = self.compact_ready();
        if m.ready.len() == 0 {
            None
        } else {
            Some(m.ready[m.best_ready_pos(m.ready.len() as int)])
        }
    }

    /// The kernel after the task that is to run next has left the ready queue.
    pub open spec fn dequeue_ready(self) -> KernelView {
        let m = self.compact_ready();
        if m.ready.len() == 0 {
            m
        } else {
            let best = m.best_ready_pos(m.ready.len() as int);
            KernelView { ready: swap_remove(m.ready, best), ..m }.log(
                LogEvent::ReadyDequeued(m.tasks[m.ready[best] as int].id),
            )
        }
    }

    /// The current task gives up the processor: it is queued up again if it was running.
    /// The kernel task is never queued.
    pub open spec fn yield_current(self) -> KernelView {
        let t = self.tasks[self.current as int];
        if t.state == TaskState::Running && self.current != TASK0_INDEX {
            self.put_task(self.current as int, t.made_ready()).log(
                LogEvent::TaskStateChanged(t.id, TaskState::Ready),
            ).enqueue_ready(self.current)
        } else {
            self
        }
    }

    /// The kernel task runs, for want of anything else. If it is dead, the kernel halts.
    pub open spec fn run_idle(self) -> KernelView {
        let t = self.tasks[TASK0_INDEX as int];
        if t.state == TaskState::Dead {
            self.error("schedule_next_task: idle task is DEAD; halt-safe").halted()
        } else {
            KernelView { current: TASK0_INDEX, ..self }.put_task(
                TASK0_INDEX as int,
                t.made_running(),
            ).emit(Effect::SwitchAddressSpaceQuiet { root: self.kernel_root() }).emit(
                Effect::SetVga { enabled: true },
            ).log(LogEvent::TaskSwitched(t.id)).log(
                LogEvent::TaskStateChanged(t.id, TaskState::Running),
            )
        }
    }

    /// The machine is told to enter the address space of a task.
    pub open spec fn enter_space_of(self, idx: usize) -> KernelView {
        let space = self.space_of(idx);
        match space.kind {
            AddressSpaceKind::User => self.emit(Effect::SetVga { enabled: false }).emit(
                Effect::SwitchAddressSpace { target: space.root_page_frame },
            ),
            AddressSpaceKind::Kernel => self.emit(
                Effect::SwitchAddressSpaceQuiet { root: self.kernel_root() },
            ).emit(Effect::SetVga { enabled: true }).info("switched to task").value(
                "task_id",
                self.tasks[idx as int].id.0,
            ),
        }
    }

    /// The first `n` entries of the ready queue are put out.
    pub open spec fn show_ready(self, n: int) -> KernelView
        decreases n,
    {
        if n <= 0 {
            self
        } else {
            let idx = self.ready[n - 1];
            let m = self.show_ready(n - 1).value("rq[pos].task_index", idx as u64);
            if idx < MAX_TASKS {
                let t = self.tasks[idx as int];
                m.value("rq[pos].task_id", t.id.0).info(queued_line(t.state)).value(
                    "rq[pos].prio",
                    t.priority as u64,
                )
            } else {
                m
            }
        }
    }

    /// The ready queue is put out.
    pub open spec fn show_ready_queue(self) -> KernelView {
        self.info("sched: dump ready_queue before dequeue").value(
            "rq_len",
            self.ready.len() as u64,
        ).show_ready(self.ready.len() as int)
    }

    /// The task that is to run next runs; `prev` ran before it. If nobody is ready, the
    /// kernel halts.
    pub open spec fn run_next(self, prev: usize) -> KernelView {
        match self.next_ready() {
            None => self.dequeue_ready().error(
                "schedule_next_task: ready_queue broken; halt-safe",
            ).halted(),
            Some(next) => {
                let t = self.tasks[next as int];
                let m = KernelView { current: next, ..self.dequeue_ready() }.put_task(
                    next as int,
                    t.made_running(),
                ).enter_space_of(next);
                let c = m.counters;
                m.put_counters(
                    if next != prev {
                        KernelCounters { sched_switches: (c.sched_switches + 1) as u64, ..c }
                    } else {
                        c
                    },
                ).log(LogEvent::TaskSwitched(t.id)).log(
                    LogEvent::TaskStateChanged(t.id, TaskState::Running),
                )
            },
        }
    }

    /// Picks the task that runs next. Without a ready task a sleeper is woken; without a
    /// sleeper the kernel task runs.
    #[verifier::opaque]
    pub open spec fn schedule(self) -> KernelView {
        let m = self.emit(
            Effect::SetVga {
                enabled: self.space_of(self.current).kind == AddressSpaceKind::Kernel,
            },
        ).compact_ready().yield_current();
        if m.ready.len() > 0 {
            m.show_ready_queue().run_next(self.current)
        } else {
            let w = if m.waiting.len() > 0 {
                m.info(
                    "schedule_next_task: no ready tasks; try wake sleep waiter",
                ).wake_one_sleeper().compact_ready()
            } else {
                m
            };
            if w.ready.len() > 0 {
                w.show_ready_queue().run_next(self.current)
            } else {
                w.info(
                    "schedule_next_task: still no ready tasks; run idle(task0) and continue",
                ).run_idle()
            }
        }
    }

    /// A task that is alive has run for one more tick.
    pub open spec fn update_runtime(self, ran: usize) -> KernelView {
        if ran >= MAX_TASKS {
            self.error("update_runtime_for: ran_idx out of range")
        } else if self.state(ran) == TaskState::Dead {
            self
        } else {
            let t = self.tasks[ran as int];
            let n = (t.runtime_ticks + 1) as u64;
            self.put_task(ran as int, Task { runtime_ticks: n, ..t }).value("runtime_ticks", n).log(
                LogEvent::RuntimeUpdated(t.id, n),
            )
        }
    }

    /// The task that ran, if it is still the current one and running, has used up one more
    /// tick of its time slice. At the end of the slice another task has its turn, if one
    /// is queued; otherwise a new slice begins.
    pub open spec fn update_time_slice(self, ran: usize) -> KernelView {
        if ran >= MAX_TASKS {
            self.error("update_time_slice_for_and_maybe_schedule: ran_idx out of range")
        } else if self.state(ran) == TaskState::Dead {
            self
        } else if ran != self.current {
            self.info("skip time_slice update due to task switch in this tick")
        } else if self.state(ran) != TaskState::Running {
            self.info("skip time_slice update (task not RUNNING)")
        } else {
            let t = self.tasks[ran as int];
            let used = (t.time_slice_used + 1) as u64;
            let m = self.put_task(ran as int, Task { time_slice_used: used, ..t }).value(
                "time_slice_used",
                used,
            );
            if used < self.quantum {
                m
            } else {
                let e = m.info("quantum expired").log(LogEvent::QuantumExpired(t.id, used));
                if e.ready.len() == 0 {
                    e.info("quantum expired but no ready tasks; continue running").put_task(
                        ran as int,
                        Task { time_slice_used: 0, ..t },
                    )
                } else {
                    e.info("quantum expired; scheduling next task").schedule()
                }
            }
        }
    }

    /// The second task takes over from the kernel task, as the one that the program in
    /// user mode runs as. If it is dead, the kernel halts.
    pub open spec fn prepare_ring3_loop(self) -> KernelView {
        let t0 = self.tasks[TASK0_INDEX as int];
        let t1 = self.tasks[TASK1_INDEX as int];
        if t1.state == TaskState::Dead {
            self.error(
                "prepare_ring3_loop_current_task: Task1 is DEAD; cannot enter ring3 loop",
            ).halted()
        } else {
            let m = if t0.state == TaskState::Running {
                self.put_task(TASK0_INDEX as int, t0.made_ready())
            } else {
                self
            };
            KernelView {
                current: TASK1_INDEX,
                ready: self.ready.filter(other_than(TASK1_INDEX)),
                ..m
            }.put_task(TASK1_INDEX as int, t1.made_running())
        }
    }
}

impl KernelState {
    /// Queues a ready task up to run.
    pub fn enqueue_ready(&mut self, idx: usize)
        requires
            old(self).wf(),
        ensures
            final(self).wf(),
            final(self)@ == old(self)@.enqueue_ready(idx),
            final(self)@.room() == old(self)@.room(),
    {
        if self.ready_len() >= MAX_TASKS || idx >= MAX_TASKS {
            return;
        }
        if self.is_in_ready_queue(idx) {
            return;
        }
        let t = self.task(idx);
        if t.state != TaskState::Ready {
            return;
        }
        self.push_ready(idx);
        self.push_event(LogEvent::ReadyQueued(t.id));
    }

    /// Queues a blocked task up as a sleeper.
    pub fn enqueue_wait(&mut self, idx: usize)
        requires
            old(self).wf(),
        ensures
            final(self).wf(),
            final(self)@ == old(self)@.enqueue_wait(idx),
            final(self)@.room() == old(self)@.room(),
    {
        if self.waiting_len() >= MAX_TASKS || idx >= MAX_TASKS {
            return;
        }
        if self.is_in_wait_queue(idx) {
            return;
        }
        let t = self.task(idx);
        if t.state != TaskState::Blocked {
            return;
        }
        if t.blocked_reason.is_none() {
            return;
        }
        self.push_waiting(idx);
        self.push_event(LogEvent::WaitQueued(t.id));
    }

    /// Takes a task out of the queue of sleepers; tells whether it was there.
    pub fn remove_from_wait_queue(&mut self, idx: usize) -> (removed: bool)
        requires
            old(self).wf(),
        ensures
            final(self).wf(),
            removed == (idx < MAX_TASKS && old(self)@.waiting.contains(idx)),
            final(self)@ == old(self)@.dequeue_wait(idx),
            final(self)@.room() == old(self)@.room(),
    {
        if idx >= MAX_TASKS {
            return false;
        }
        let ghost p = equal_to(idx);
        let ghost s = self@.waiting;
        let n: usize = self.waiting_len();
        let mut pos: usize = 0;
        while pos < n
            invariant
                self.wf(),
                *self == *old(self),
                idx < MAX_TASKS,
                s == self@.waiting,
                p == equal_to(idx),
                pos <= n == s.len(),
                forall|j: int| 0 <= j < pos ==> !p(#[trigger] s[j]),
            decreases n - pos,
        {
            if self.waiting_at(pos) == idx {
                proof {
                    lemma_first_such_is(s, p, pos as int);
                    assert(s[pos as int] == idx);
                }
                self.swap_remove_waiting(pos);
                let id = self.task(idx).id;
                self.push_event(LogEvent::WaitDequeued(id));
                return true;
            }
            pos += 1;
        }
        proof {
            lemma_first_such_none(s, p);
            if s.contains(idx) {
                let k = choose|k: int| 0 <= k < s.len() && s[k] == idx;
                assert(p(s[k]));
            }
        }
        false
    }

    /// Blocks a task. A task that is blocked already gets a new reason.
    pub fn block_task(&mut self, idx: usize, reason: BlockedReason)
        requires
            old(self).wf(),
        ensures
            final(self).wf(),
            final(self)@ == old(self)@.block(idx, reason),
            final(self)@.room() >= old(self)@.room(),
    {
        if idx >= MAX_TASKS {
            self.error("block_task: idx out of range");
            return;
        }
        let t = self.task(idx);
        if t.state == TaskState::Dead {
            self.error("block_task: called for DEAD task; ignore");
            self.value("task_id", t.id.0);
            return;
        }
        let _ = self.remove_from_ready_queue(idx);
        self.put_task(idx, t.made_blocked(reason));
        self.push_event(LogEvent::TaskStateChanged(t.id, TaskState::Blocked));
        if let BlockedReason::Sleep = reason {
            let slept = t.state == TaskState::Blocked && match t.blocked_reason {
                Some(BlockedReason::Sleep) => true,
                _ => false,
            };
            if !slept {
                self.enqueue_wait(idx);
            }
        }
    }

    /// Blocks the current task.
    pub fn block_current(&mut self, reason: BlockedReason)
        requires
            old(self).wf(),
        ensures
            final(self).wf(),
            final(self)@ == old(self)@.block_current(reason),
            final(self)@.room() >= old(self)@.room(),
    {
        let idx: usize = self.current_task();
        let t = self.task(idx);
        if t.state == TaskState::Dead {
            self.error("block_current: called for DEAD task; ignore");
            return;
        }
        if self.space(t.address_space_id.0).kind == AddressSpaceKind::Kernel {
            match reason {
                BlockedReason::Sleep => {},
                BlockedReason::IpcRecv { ep }
                | BlockedReason::IpcSend { ep }
                | BlockedReason::IpcReply { ep, .. } => {
                    self.error("block_current: kernel task would block on IPC; convert to error");
                    self.value("task_id", t.id.0);
                    self.value("ep", ep.0 as u64);
                    self.put_task(
                        idx,
                        Task {
                            last_reply: Some(IPC_ERR_DEAD_PARTNER),
                            pending_send_msg: None,
                            ..t
                        },
                    );
                    return;
                },
            }
        }
        self.block_task(idx, reason);
    }

    /// Makes a blocked task ready and queues it up to run.
    pub fn wake_task_to_ready(&mut self, idx: usize)
        requires
            old(self).wf(),
        ensures
            final(self).wf(),
            final(self)@ == old(self)@.wake(idx),
            final(self)@.room() >= old(self)@.room(),
    {
        if idx >= MAX_TASKS {
            return;
        }
        let t = self.task(idx);
        if t.state == TaskState::Dead {
            return;
        }
        if t.state == TaskState::Ready || t.state == TaskState::Running {
            self.put_task(idx, Task { blocked_reason: None, ..t });
            return;
        }
        self.put_task(idx, t.made_ready());
        if !self.is_in_ready_queue(idx) {
            if self.ready_len() < MAX_TASKS {
                self.push_ready(idx);
            }
        }
        self.push_event(LogEvent::TaskStateChanged(t.id, TaskState::Ready));
    }

    /// Wakes the first sleeper, if there is one, and takes it out of the queue of sleepers.
    pub fn maybe_wake_one_sleep_task(&mut self)
        requires
            old(self).wf(),
        ensures
            final(self).wf(),
            final(self)@ == old(self)@.wake_one_sleeper(),
            final(self)@.room() >= old(self)@.room(),
    {
        let ghost p = self@.is_sleeper();
        let ghost s = self@.waiting;
        let n: usize = self.waiting_len();
        let mut pos: usize = 0;
        while pos < n
            invariant
                self.wf(),
                *self == *old(self),
                s == self@.waiting,
                p == self@.is_sleeper(),
                pos <= n == s.len(),
                forall|j: int| 0 <= j < pos ==> !p(#[trigger] s[j]),
            decreases n - pos,
        {
            let idx: usize = self.waiting_at(pos);
            if idx < MAX_TASKS {
                let t = self.task(idx);
                let sleeps = match t.blocked_reason {
                    Some(BlockedReason::Sleep) => true,
                    _ => false,
                };
                if t.state != TaskState::Dead && sleeps {
                    proof {
                        lemma_first_such_is(s, p, pos as int);
                    }
                    self.info("waking 1 blocked task (Sleep only)");
                    let _ = self.remove_from_wait_queue(idx);
                    self.wake_task_to_ready(idx);
                    return;
                }
            }
            pos += 1;
        }
        proof {
            lemma_first_such_none(s, p);
        }
    }

    /// Takes the task that is to run next out of the ready queue.
    pub fn dequeue_ready_highest_priority(&mut self) -> (next: Option<usize>)
        requires
            old(self).wf(),
        ensures
            final(self).wf(),
            next == old(self)@.next_ready(),
            next matches Some(idx) ==> idx < MAX_TASKS,
            final(self)@ == old(self)@.dequeue_ready(),
            final(self)@.room() == old(self)@.room(),
    {
        self.compact_ready_queue_to_ready_only();
        let n: usize = self.ready_len();
        if n == 0 {
            return None;
        }
        proof {
            lemma_compact_is_ready(old(self)@);
        }
        let mut best_pos: usize = 0;
        let mut pos: usize = 1;
        while pos < n
            invariant
                self.wf(),
                n == self@.ready.len(),
                1 <= pos <= n,
                best_pos < pos,
                best_pos == self@.best_ready_pos(pos as int),
                forall|j: int| 0 <= j < n ==> #[trigger] self@.ready[j] < MAX_TASKS,
            decreases n - pos,
        {
            let prio: u8 = self.task(self.ready_at(pos)).priority;
            let best_prio: u8 = self.task(self.ready_at(best_pos)).priority;
            if prio > best_prio {
                best_pos = pos;
            }
            pos += 1;
        }
        let best_idx: usize = self.swap_remove_ready(best_pos);
        let id = self.task(best_idx).id;
        self.push_event(LogEvent::ReadyDequeued(id));
        Some(best_idx)
    }

    /// The kernel task runs, for want of anything else.
    fn run_idle(&mut self)
        requires
            old(self).wf(),
        ensures
            final(self).wf(),
            final(self)@ == old(self)@.run_idle(),
            final(self)@.room() >= old(self)@.room(),
    {
        let t = self.task(TASK0_INDEX);
        if t.state == TaskState::Dead {
            self.error("schedule_next_task: idle task is DEAD; halt-safe");
            self.set_should_halt();
            return;
        }
        let kernel_root = self.kernel_root();
        self.put_task(TASK0_INDEX, t.made_running());
        self.set_current(TASK0_INDEX);
        self.emit(Effect::SwitchAddressSpaceQuiet { root: kernel_root });
        self.emit(Effect::SetVga { enabled: true });
        self.push_event(LogEvent::TaskSwitched(t.id));
        self.push_event(LogEvent::TaskStateChanged(t.id, TaskState::Running));
    }

    /// The root page table of the kernel.
    pub fn kernel_root(&self) -> (root: PhysFrame)
        requires
            self.wf(),
        ensures
            root == self@.kernel_root(),
    {
        self.space(KERNEL_ASID_INDEX).root_page_frame.unwrap()
    }

    /// Tells the machine to enter the address space of a task.
    fn enter_space_of(&mut self, idx: usize)
        requires
            old(self).wf(),
            idx < MAX_TASKS,
        ensures
            final(self).wf(),
            final(self)@ == old(self)@.enter_space_of(idx),
            final(self)@.room() == old(self)@.room(),
    {
        let as_idx: usize = self.task(idx).address_space_id.0;
        let kind = self.space(as_idx).kind;
        let target = self.space(as_idx).root_page_frame;
        match kind {
            AddressSpaceKind::User => {
                self.emit(Effect::SetVga { enabled: false });
                self.emit(Effect::SwitchAddressSpace { target });
            },
            AddressSpaceKind::Kernel => {
                let kernel_root = self.kernel_root();
                self.emit(Effect::SwitchAddressSpaceQuiet { root: kernel_root });
                self.emit(Effect::SetVga { enabled: true });
                self.info("switched to task");
                let id = self.task(idx).id;
                self.value("task_id", id.0);
            },
        }
    }

    /// Puts out the ready queue.
    fn show_ready_queue(&mut self)
        requires
            old(self).wf(),
        ensures
            final(self).wf(),
            final(self)@ == old(self)@.show_ready_queue(),
            final(self)@.room() == old(self)@.room(),
    {
        self.info("sched: dump ready_queue before dequeue");
        let n: usize = self.ready_len();
        self.value("rq_len", n as u64);
        let ghost m = self@;
        let mut pos: usize = 0;
        while pos < n
            invariant
                self.wf(),
                pos <= n == m.ready.len(),
                self@.ready == m.ready,
                self@.tasks == m.tasks,
                self@ == m.show_ready(pos as int),
                self@.room() == old(self)@.room(),
            decreases n - pos,
        {
            let idx: usize = self.ready_at(pos);
            self.value("rq[pos].task_index", idx as u64);
            if idx < MAX_TASKS {
                let t = self.task(idx);
                self.value("rq[pos].task_id", t.id.0);
                self.info(queued_text(t.state));
                self.value("rq[pos].prio", t.priority as u64);
            }
            pos += 1;
        }
    }

    /// The task that is to run next runs.
    fn run_next(&mut self, prev: usize)
        requires
            old(self).wf(),
            old(self)@.room() >= 1,
        ensures
            final(self).wf(),
            final(self)@ == old(self)@.run_next(prev),
            final(self)@.room() >= old(self)@.room() - 1,
    {
        let next: usize = match self.dequeue_ready_highest_priority() {
            Some(i) => i,
            None => {
                self.error("schedule_next_task: ready_queue broken; halt-safe");
                self.set_should_halt();
                return;
            },
        };
        let t = self.task(next);
        self.put_task(next, t.made_running());
        self.set_current(next);
        self.enter_space_of(next);
        if next != prev {
            let c = self.counters();
            self.put_counters(KernelCounters { sched_switches: c.sched_switches + 1, ..c });
        }
        self.push_event(LogEvent::TaskSwitched(t.id));
        self.push_event(LogEvent::TaskStateChanged(t.id, TaskState::Running));
    }

    /// The current task gives up the processor.
    fn yield_current(&mut self)
        requires
            old(self).wf(),
        ensures
            final(self).wf(),
            final(self)@ == old(self)@.yield_current(),
            final(self)@.room() >= old(self)@.room(),
    {
        let idx: usize = self.current_task();
        let t = self.task(idx);
        if t.state == TaskState::Running && idx != TASK0_INDEX {
            self.put_task(idx, t.made_ready());
            self.push_event(LogEvent::TaskStateChanged(t.id, TaskState::Ready));
            self.enqueue_ready(idx);
        }
    }

    /// Picks the task that runs next.
    pub fn schedule_next_task(&mut self)
        requires
            old(self).wf(),
            old(self)@.room() >= 1,
        ensures
            final(self).wf(),
            final(self)@ == old(self)@.schedule(),
            final(self)@.room() >= old(self)@.room() - 1,
    {
        proof {
            reveal(KernelView::schedule);
        }
        let prev: usize = self.current_task();
        let prev_space: usize = self.task(prev).address_space_id.0;
        let in_kernel = self.space(prev_space).kind == AddressSpaceKind::Kernel;
        self.emit(Effect::SetVga { enabled: in_kernel });
        self.compact_ready_queue_to_ready_only();
        self.yield_current();
        if self.ready_len() == 0 {
            if self.waiting_len() > 0 {
                self.info("schedule_next_task: no ready tasks; try wake sleep waiter");
                self.maybe_wake_one_sleep_task();
                self.compact_ready_queue_to_ready_only();
            }
            if self.ready_len() == 0 {
                self.info(
                    "schedule_next_task: still no ready tasks; run idle(task0) and continue",
                );
                self.run_idle();
                return;
            }
        }
        self.show_ready_queue();
        self.run_next(prev);
    }

    /// Counts a tick that a task has run.
    pub fn update_runtime_for(&mut self, ran: usize)
        requires
            old(self).wf(),
            old(self)@.room() >= 1,
        ensures
            final(self).wf(),
            final(self)@ == old(self)@.update_runtime(ran),
            final(self)@.room() >= old(self)@.room() - 1,
    {
        if ran >= MAX_TASKS {
            self.error("update_runtime_for: ran_idx out of range");
            return;
        }
        if self.task(ran).state == TaskState::Dead {
            return;
        }
        self.count_runtime(ran);
        let t = self.task(ran);
        self.value("runtime_ticks", t.runtime_ticks);
        self.push_event(LogEvent::RuntimeUpdated(t.id, t.runtime_ticks));
    }

    /// Counts a tick of a time slice, and schedules at the end of the slice.
    pub fn update_time_slice_for_and_maybe_schedule(&mut self, ran: usize)
        requires
            old(self).wf(),
            old(self)@.room() >= 2,
        ensures
            final(self).wf(),
            final(self)@ == old(self)@.update_time_slice(ran),
            final(self)@.room() >= old(self)@.room() - 2,
    {
        if ran >= MAX_TASKS {
            self.error("update_time_slice_for_and_maybe_schedule: ran_idx out of range");
            return;
        }
        if self.task(ran).state == TaskState::Dead {
            return;
        }
        if ran != self.current_task() {
            self.info("skip time_slice update due to task switch in this tick");
            return;
        }
        if self.task(ran).state != TaskState::Running {
            self.info("skip time_slice update (task not RUNNING)");
            return;
        }
        self.count_time_slice(ran);
        let t = self.task(ran);
        self.value("time_slice_used", t.time_slice_used);
        if t.time_slice_used >= self.quantum() {
            self.info("quantum expired");
            self.push_event(LogEvent::QuantumExpired(t.id, t.time_slice_used));
            if self.ready_len() == 0 {
                self.info("quantum expired but no ready tasks; continue running");
                self.put_task(ran, Task { time_slice_used: 0, ..t });
                assert(self@ =~= old(self)@.update_time_slice(ran));
                return;
            }
            self.info("quantum expired; scheduling next task");
            self.schedule_next_task();
        }
    }

    /// Whether the task that ran goes to sleep of its own. No task does so yet.
    pub fn maybe_block_task(&mut self, ran: usize) -> (r: bool)
        requires
            old(self).wf(),
        ensures
            final(self).wf(),
            !r,
            final(self)@ == (if ran >= MAX_TASKS {
                old(self)@.error("maybe_block_task: ran_idx out of range")
            } else {
                old(self)@
            }),
            final(self)@.room() == old(self)@.room(),
    {
        if ran >= MAX_TASKS {
            self.error("maybe_block_task: ran_idx out of range");
            return false;
        }
        if self.task(ran).state == TaskState::Dead {
            return false;
        }
        if ran != self.current_task() {
            return false;
        }
        false
    }

    /// Hands over from the kernel task to the second task, as which a program in user
    /// mode is going to run.
    pub fn prepare_ring3_loop_current_task(&mut self)
        requires
            old(self).wf(),
        ensures
            final(self).wf(),
            final(self)@ == old(self)@.prepare_ring3_loop(),
            final(self)@.room() >= old(self)@.room(),
    {
        if self.task(TASK1_INDEX).state == TaskState::Dead {
            self.error("prepare_ring3_loop_current_task: Task1 is DEAD; cannot enter ring3 loop");
            self.set_should_halt();
            return;
        }
        let t0 = self.task(TASK0_INDEX);
        if t0.state == TaskState::Running {
            self.put_task(TASK0_INDEX, t0.made_ready());
        }
        self.set_current(TASK1_INDEX);
        let t1 = self.task(TASK1_INDEX);
        self.put_task(TASK1_INDEX, t1.made_running());
        let _ = self.remove_from_ready_queue(TASK1_INDEX);
    }
}

proof fn lemma_shown(m: KernelView, n: int)
    ensures
        m.show_ready(n) == (KernelView { effects: m.show_ready(n).effects, ..m }),
    decreases n,
{
    if n > 0 {
        lemma_shown(m, n - 1);
    }
}

/// Putting out the ready queue changes nothing but what was put out.
pub proof fn lemma_show_ready_queue(m: KernelView)
    ensures
        m.show_ready_queue() == (KernelView { effects: m.show_ready_queue().effects, ..m }),
{
    let k = m.info("sched: dump ready_queue before dequeue").value("rq_len", m.ready.len() as u64);
    lemma_shown(k, m.ready.len() as int);
}

/// Whoever is left in a compacted ready queue is ready.
pub proof fn lemma_compact_is_ready(m: KernelView)
    ensures
        forall|j: int|
            0 <= j < m.compact_ready().ready.len() ==> m.is_ready()(
                #[trigger] m.compact_ready().ready[j],
            ),
{
    assert forall|j: int| 0 <= j < m.compact_ready().ready.len() implies m.is_ready()(
        #[trigger] m.compact_ready().ready[j],
    ) by {
        m.ready.lemma_filter_pred(m.is_ready(), j);
    }
}

} // verus!
