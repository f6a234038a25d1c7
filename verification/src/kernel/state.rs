//! The kernel's state in memory, and the elementary operations on it. Everything else in
//! the kernel is built from these operations.

use vstd::prelude::*;

use bootloader::bootinfo::MemoryMap;

use crate::kernel::endpoint::Endpoint;
use crate::kernel::model::{initial_kernel, initial_task, root_effects, KernelView};
use crate::kernel::pagetable_init::allocate_new_l4_table;
use crate::kernel::queue::{queue, queue_contains, queue_push, queue_remove, queue_swap_remove};
use crate::kernel::types::{
    AddressSpaceId, DemoProgress, Effect, EndpointId, InjectionState, KernelActivity,
    KernelCounters, KernelFeatures, LogEvent, LogLine, Task, TaskId, TaskState, EVENT_LOG_CAP,
    MAX_ENDPOINTS, MAX_TASKS, TASK0_INDEX, TASK1_INDEX, TASK2_INDEX,
};
use crate::mem::addr::PhysFrame;
use crate::mem::address_space::{AddressSpace, AddressSpaceError};
use crate::mem::paging::MemAction;
use crate::mm::{
    boot_regions, frames_from, memory_map_is_valid, memory_map_valid, PhysicalMemoryManager,
};
use crate::seqs::{lemma_filter_take, other_than, swap_remove};

verus! {

broadcast use crate::mem::address_space::lemma_view;

pub struct KernelState {
    phys_mem: PhysicalMemoryManager,
    tick_count: u64,
    time_ticks: u64,
    should_halt: bool,
    activity: KernelActivity,
    address_spaces: [AddressSpace; MAX_TASKS],
    tasks: [Task; MAX_TASKS],
    current_task: usize,
    ready_queue: [usize; MAX_TASKS],
    rq_len: usize,
    wait_queue: [usize; MAX_TASKS],
    wq_len: usize,
    // a ring: `event_log_len` events, the oldest at `event_log_head`
    event_log: [Option<LogEvent>; EVENT_LOG_CAP],
    event_log_head: usize,
    event_log_len: usize,
    quantum: u64,
    mem_demo_mapped: [bool; MAX_TASKS],
    mem_demo_stage: [u8; MAX_TASKS],
    mem_demo_frame: [Option<PhysFrame>; MAX_TASKS],
    endpoints: [Endpoint; MAX_ENDPOINTS],
    demo: DemoProgress,
    injected: InjectionState,
    counters: KernelCounters,
    features: KernelFeatures,
    effects: Vec<Effect>,
}

fn fresh_task(
    id: TaskId,
    state: TaskState,
    priority: u8,
    address_space_id: AddressSpaceId,
) -> (t: Task)
    ensures
        t == initial_task(id, state, priority, address_space_id),
{
    Task {
        id,
        state,
        priority,
        runtime_ticks: 0,
        time_slice_used: 0,
        address_space_id,
        blocked_reason: None,
        last_msg: None,
        last_reply: None,
        last_syscall_ret: None,
        last_syscall_ret_unread: false,
        pending_send_msg: None,
        pending_syscall: None,
    }
}

/// Where event `i` of a ring stands.
spec fn ring_pos(head: int, i: int) -> int {
    if head + i < EVENT_LOG_CAP {
        head + i
    } else {
        head + i - EVENT_LOG_CAP
    }
}

/// The events of a ring, oldest first.
#[verifier::opaque]
spec fn ring(log: Seq<Option<LogEvent>>, head: int, len: int) -> Seq<LogEvent> {
    Seq::new(len as nat, |i: int| log[ring_pos(head, i)]->0)
}

/// Every place of a ring that counts holds an event.
#[verifier::opaque]
spec fn ring_ok(log: Seq<Option<LogEvent>>, head: int, len: int) -> bool {
    forall|i: int| 0 <= i < len ==> log[#[trigger] ring_pos(head, i)] is Some
}

/// Writing behind the last event appends it; in a full ring it replaces the oldest one.
proof fn lemma_ring_push(log: Seq<Option<LogEvent>>, head: int, len: int, ev: LogEvent)
    requires
        log.len() == EVENT_LOG_CAP,
        0 <= head < EVENT_LOG_CAP,
        0 <= len <= EVENT_LOG_CAP,
        ring_ok(log, head, len),
    ensures
        ring(log, head, len).len() == len,
        ({
            let written = log.update(ring_pos(head, len), Some(ev));
            if len < EVENT_LOG_CAP {
                &&& ring(written, head, len + 1) == ring(log, head, len).push(ev)
                &&& ring_ok(written, head, len + 1)
            } else {
                &&& ring(written, ring_pos(head, 1), len) == ring(log, head, len).push(ev).skip(1)
                &&& ring_ok(written, ring_pos(head, 1), len)
            }
        }),
{
    reveal(ring);
    reveal(ring_ok);
    let written = log.update(ring_pos(head, len), Some(ev));
    if len < EVENT_LOG_CAP {
        assert(ring(written, head, len + 1) =~= ring(log, head, len).push(ev));
    } else {
        let next = ring_pos(head, 1);
        let goal = ring(log, head, len).push(ev).skip(1);
        assert forall|i: int| 0 <= i < len implies ring(written, next, len)[i] == goal[i] by {
            assert(ring_pos(next, i) == ring_pos(head, if i == len - 1 { 0 } else { i + 1 }));
        }
        assert(ring(written, next, len) =~= goal);
        assert forall|i: int| 0 <= i < len implies written[#[trigger] ring_pos(next, i)]
            is Some by {
            assert(ring_pos(next, i) == ring_pos(head, if i == len - 1 { 0 } else { i + 1 }));
        }
    }
}

impl View for KernelState {
    type V = KernelView;

    closed spec fn view(&self) -> KernelView {
        KernelView {
            frames: self.phys_mem@,
            tick_count: self.tick_count,
            time_ticks: self.time_ticks,
            should_halt: self.should_halt,
            activity: self.activity,
            spaces: self.address_spaces@.map_values(|s: AddressSpace| s@),
            tasks: self.tasks@,
            current: self.current_task,
            ready: queue(self.ready_queue, self.rq_len),
            waiting: queue(self.wait_queue, self.wq_len),
            events: ring(
                self.event_log@,
                self.event_log_head as int,
                self.event_log_len as int,
            ),
            quantum: self.quantum,
            mem_demo_mapped: self.mem_demo_mapped@,
            mem_demo_stage: self.mem_demo_stage@,
            mem_demo_frame: self.mem_demo_frame@,
            endpoints: self.endpoints@.map_values(|e: Endpoint| e@),
            demo: self.demo,
            injected: self.injected,
            counters: self.counters,
            features: self.features,
            effects: self.effects@,
        }
    }
}

/// Has the root of a user address space filled, and says so.
fn fill_root(effects: &mut Vec<Effect>, as_idx: u64, root: Option<PhysFrame>)
    ensures
        final(effects)@ == old(effects)@ + root_effects(as_idx, root),
{
    match root {
        None => {
            effects.push(
                Effect::Say { line: LogLine::Error { msg: "no more frames for user pml4" } },
            );
        },
        Some(root) => {
            effects.push(
                Effect::Say { line: LogLine::Info { msg: "init_user_pml4_from_current: start" } },
            );
            effects.push(Effect::Say { line: LogLine::Value { key: "as_idx", value: as_idx } });
            effects.push(
                Effect::Say {
                    line: LogLine::Value { key: "root_page_frame_index", value: root.number },
                },
            );
            effects.push(Effect::InitUserPml4 { root });
            effects.push(
                Effect::Say { line: LogLine::Info { msg: "init_user_pml4_from_current: done" } },
            );
        },
    }
}

impl KernelState {
    /// The arrays are in order.
    pub closed spec fn repr_ok(&self) -> bool {
        &&& self.phys_mem.wf()
        &&& self.rq_len <= MAX_TASKS
        &&& self.wq_len <= MAX_TASKS
        &&& self.event_log_head < EVENT_LOG_CAP
        &&& self.event_log_len <= EVENT_LOG_CAP
        &&& ring_ok(self.event_log@, self.event_log_head as int, self.event_log_len as int)
        &&& forall|i: int| 0 <= i < MAX_ENDPOINTS ==> (#[trigger] self.endpoints@[i]).wf()
    }

    pub open spec fn wf(&self) -> bool {
        self.repr_ok() && self@.wf()
    }

    /// The kernel at the start. Only the memory map is consulted; filling the root page
    /// tables of the user address spaces is asked of the machine.
    pub fn new(
        memory_map: &'static MemoryMap,
        kernel_root: PhysFrame,
        features: KernelFeatures,
    ) -> (ks: Self)
        requires
            memory_map_valid(*memory_map),
        ensures
            ks.wf(),
            ks@ == initial_kernel(
                frames_from(boot_regions(*memory_map), 0),
                kernel_root,
                features,
            ),
            ks@.room() == u64::MAX,
    {
        let mut phys_mem = PhysicalMemoryManager::new(memory_map);
        let mut effects: Vec<Effect> = Vec::new();
        let mut kernel_space = AddressSpace::new_kernel();
        kernel_space.root_page_frame = Some(kernel_root);
        let mut first_user_space = AddressSpace::new_user();
        first_user_space.root_page_frame = allocate_new_l4_table(&mut phys_mem);
        fill_root(&mut effects, 1, first_user_space.root_page_frame);
        let mut second_user_space = AddressSpace::new_user();
        second_user_space.root_page_frame = allocate_new_l4_table(&mut phys_mem);
        fill_root(&mut effects, 2, second_user_space.root_page_frame);
        let mut first_endpoint = Endpoint::new(EndpointId(0));
        if features.endpoint_close_test {
            first_endpoint.owner = Some(TaskId(3));
        }
        let ks = KernelState {
            phys_mem,
            tick_count: 0,
            time_ticks: 0,
            should_halt: false,
            activity: KernelActivity::Idle,
            address_spaces: [kernel_space, first_user_space, second_user_space],
            tasks: [
                fresh_task(TaskId(1), TaskState::Running, 1, AddressSpaceId(0)),
                fresh_task(TaskId(2), TaskState::Ready, 3, AddressSpaceId(1)),
                fresh_task(TaskId(3), TaskState::Ready, 2, AddressSpaceId(2)),
            ],
            current_task: TASK0_INDEX,
            ready_queue: [TASK1_INDEX, TASK2_INDEX, 0],
            rq_len: 2,
            wait_queue: [0;MAX_TASKS],
            wq_len: 0,
            event_log: [None;EVENT_LOG_CAP],
            event_log_head: 0,
            event_log_len: 0,
            quantum: 5,
            mem_demo_mapped: [false;MAX_TASKS],
            mem_demo_stage: [0;MAX_TASKS],
            mem_demo_frame: [None;MAX_TASKS],
            endpoints: [first_endpoint, Endpoint::new(EndpointId(1))],
            demo: DemoProgress {
                msgs_delivered: 0,
                replies_sent: 0,
                sent_by_task2: false,
                sent_by_task1: false,
                early_sent_by_task0: false,
            },
            injected: InjectionState {
                double_map_stage: 0,
                unmap_fired: false,
                dead_partner_fired: false,
            },
            counters: KernelCounters::new(),
            features,
            effects,
        };
        proof {
            let goal = initial_kernel(
                frames_from(boot_regions(*memory_map), 0),
                kernel_root,
                features,
            );
            assert(ks@.frames =~= goal.frames);
            assert(ks@.spaces =~= goal.spaces);
            assert(ks@.endpoints =~= goal.endpoints);
            assert(ks@.effects =~= goal.effects);
            reveal(ring);
            reveal(ring_ok);
            assert(ks@ =~= goal);
            reveal(KernelView::room);
        }
        ks
    }

    /// The kernel at the start, if the addresses of the memory map fit the machine.
    pub fn checked_new(
        memory_map: &'static MemoryMap,
        kernel_root: PhysFrame,
        features: KernelFeatures,
    ) -> (ks: Option<Self>)
        ensures
            ks is Some <==> memory_map_valid(*memory_map),
            ks matches Some(ks) ==> {
                &&& ks.wf()
                &&& ks@ == initial_kernel(
                    frames_from(boot_regions(*memory_map), 0),
                    kernel_root,
                    features,
                )
                &&& ks@.room() == u64::MAX
            },
    {
        if memory_map_is_valid(memory_map) {
            Some(Self::new(memory_map, kernel_root, features))
        } else {
            None
        }
    }

    /// A task.
    pub fn task(&self, idx: usize) -> (t: Task)
        requires
            self.wf(),
            idx < MAX_TASKS,
        ensures
            t == self@.tasks[idx as int],
            t.address_space_id.0 < MAX_TASKS,
    {
        self.tasks[idx]
    }

    /// The index of the current task.
    pub fn current_task(&self) -> (idx: usize)
        requires
            self.wf(),
        ensures
            idx == self@.current,
            idx < MAX_TASKS,
    {
        self.current_task
    }

    /// An address space.
    pub fn space(&self, i: usize) -> (s: &AddressSpace)
        requires
            self.wf(),
            i < MAX_TASKS,
        ensures
            s@ == self@.spaces[i as int],
            s@.wf(),
    {
        assert(self@.spaces[i as int] == self.address_spaces@[i as int]@);
        &self.address_spaces[i]
    }

    /// An endpoint.
    pub fn endpoint(&self, i: usize) -> (e: Endpoint)
        requires
            self.wf(),
            i < MAX_ENDPOINTS,
        ensures
            e.wf(),
            e@ == self@.endpoints[i as int],
    {
        assert(self@.endpoints[i as int] == self.endpoints@[i as int]@);
        self.endpoints[i]
    }

    pub fn tick_count(&self) -> (n: u64)
        ensures
            n == self@.tick_count,
    {
        self.tick_count
    }

    pub fn should_halt(&self) -> (r: bool)
        ensures
            r == self@.should_halt,
    {
        self.should_halt
    }

    pub fn activity(&self) -> (a: KernelActivity)
        ensures
            a == self@.activity,
    {
        self.activity
    }

    pub fn quantum(&self) -> (n: u64)
        ensures
            n == self@.quantum,
    {
        self.quantum
    }

    pub fn features(&self) -> (f: KernelFeatures)
        ensures
            f == self@.features,
    {
        self.features
    }

    pub fn demo(&self) -> (d: DemoProgress)
        ensures
            d == self@.demo,
    {
        self.demo
    }

    pub fn injected(&self) -> (d: InjectionState)
        ensures
            d == self@.injected,
    {
        self.injected
    }

    /// The counters; none of them has less than `room` left.
    pub fn counters(&self) -> (c: KernelCounters)
        ensures
            c == self@.counters,
            c.largest() + self@.room() <= u64::MAX,
    {
        proof {
            reveal(KernelView::room);
        }
        self.counters
    }

    /// The number of tasks that are ready to run.
    pub fn ready_len(&self) -> (n: usize)
        requires
            self.wf(),
        ensures
            n == self@.ready.len(),
            n <= MAX_TASKS,
    {
        self.rq_len
    }

    pub fn ready_at(&self, pos: usize) -> (idx: usize)
        requires
            self.wf(),
            pos < self@.ready.len(),
        ensures
            idx == self@.ready[pos as int],
    {
        self.ready_queue[pos]
    }

    /// Whether a task is in the ready queue.
    pub fn is_in_ready_queue(&self, idx: usize) -> (r: bool)
        requires
            self.wf(),
        ensures
            r == self@.ready.contains(idx),
    {
        queue_contains(&self.ready_queue, self.rq_len, idx)
    }

    pub fn waiting_len(&self) -> (n: usize)
        requires
            self.wf(),
        ensures
            n == self@.waiting.len(),
            n <= MAX_TASKS,
    {
        self.wq_len
    }

    pub fn waiting_at(&self, pos: usize) -> (idx: usize)
        requires
            self.wf(),
            pos < self@.waiting.len(),
        ensures
            idx == self@.waiting[pos as int],
    {
        self.wait_queue[pos]
    }

    /// Whether a task is in the wait queue.
    pub fn is_in_wait_queue(&self, idx: usize) -> (r: bool)
        requires
            self.wf(),
        ensures
            r == self@.waiting.contains(idx),
    {
        queue_contains(&self.wait_queue, self.wq_len, idx)
    }

    pub fn mem_demo_mapped(&self, idx: usize) -> (r: bool)
        requires
            self.wf(),
            idx < MAX_TASKS,
        ensures
            r == self@.mem_demo_mapped[idx as int],
    {
        self.mem_demo_mapped[idx]
    }

    pub fn mem_demo_stage(&self, idx: usize) -> (r: u8)
        requires
            self.wf(),
            idx < MAX_TASKS,
        ensures
            r == self@.mem_demo_stage[idx as int],
    {
        self.mem_demo_stage[idx]
    }

    pub fn mem_demo_frame(&self, idx: usize) -> (r: Option<PhysFrame>)
        requires
            self.wf(),
            idx < MAX_TASKS,
        ensures
            r == self@.mem_demo_frame[idx as int],
    {
        self.mem_demo_frame[idx]
    }

    /// The number of events in the log.
    pub fn event_log_len(&self) -> (n: usize)
        requires
            self.wf(),
        ensures
            n == self@.events.len(),
            n <= EVENT_LOG_CAP,
    {
        proof {
            reveal(ring);
        }
        self.event_log_len
    }

    /// An event of the log; the oldest one is event 0.
    pub fn event_at(&self, i: usize) -> (ev: LogEvent)
        requires
            self.wf(),
            i < self@.events.len(),
        ensures
            ev == self@.events[i as int],
    {
        let pos: usize = (self.event_log_head + i) % EVENT_LOG_CAP;
        assert(pos == ring_pos(self.event_log_head as int, i as int));
        proof {
            reveal(ring);
            reveal(ring_ok);
        }
        self.event_log[pos].unwrap()
    }

    /// Records an event. When the log is full, the oldest event makes room.
    pub fn push_event(&mut self, ev: LogEvent)
        requires
            old(self).wf(),
        ensures
            final(self).wf(),
            final(self)@ == old(self)@.log(ev),
            final(self)@.room() == old(self)@.room(),
    {
        proof {
            lemma_ring_push(
                self.event_log@,
                self.event_log_head as int,
                self.event_log_len as int,
                ev,
            );
        }
        let pos: usize = (self.event_log_head + self.event_log_len) % EVENT_LOG_CAP;
        assert(pos == ring_pos(self.event_log_head as int, self.event_log_len as int));
        self.event_log[pos] = Some(ev);
        if self.event_log_len < EVENT_LOG_CAP {
            self.event_log_len += 1;
        } else {
            let next: usize = (self.event_log_head + 1) % EVENT_LOG_CAP;
            assert(next == ring_pos(self.event_log_head as int, 1));
            self.event_log_head = next;
        }
        assert(self@ =~= old(self)@.log(ev));
        proof {
            reveal(KernelView::room);
        }
    }

    /// Puts out a piece of news.
    pub(crate) fn info(&mut self, msg: &'static str)
        requires
            old(self).wf(),
        ensures
            final(self).wf(),
            final(self)@ == old(self)@.info(msg),
            final(self)@.room() == old(self)@.room(),
    {
        self.emit(Effect::Say { line: LogLine::Info { msg } });
    }

    /// Puts out a piece of bad news.
    pub(crate) fn error(&mut self, msg: &'static str)
        requires
            old(self).wf(),
        ensures
            final(self).wf(),
            final(self)@ == old(self)@.error(msg),
            final(self)@.room() == old(self)@.room(),
    {
        self.emit(Effect::Say { line: LogLine::Error { msg } });
    }

    /// Puts out a number under its name.
    pub(crate) fn value(&mut self, key: &'static str, value: u64)
        requires
            old(self).wf(),
        ensures
            final(self).wf(),
            final(self)@ == old(self)@.value(key, value),
            final(self)@.room() == old(self)@.room(),
    {
        self.emit(Effect::Say { line: LogLine::Value { key, value } });
    }

    /// Asks the machine to do something.
    pub(crate) fn emit(&mut self, e: Effect)
        requires
            old(self).wf(),
        ensures
            final(self).wf(),
            final(self)@ == old(self)@.emit(e),
            final(self)@.room() == old(self)@.room(),
    {
        self.effects.push(e);
        assert(self@ =~= old(self)@.emit(e));
        proof {
            reveal(KernelView::room);
        }
    }

    /// Hands over what the machine has been asked to do, and forgets it.
    pub fn take_effects(&mut self) -> (r: Vec<Effect>)
        requires
            old(self).wf(),
        ensures
            final(self).wf(),
            r@ == old(self)@.effects,
            final(self)@ == (KernelView { effects: Seq::empty(), ..old(self)@ }),
            final(self)@.room() == old(self)@.room(),
    {
        let mut taken: Vec<Effect> = Vec::new();
        std::mem::swap(&mut taken, &mut self.effects);
        assert(self@ =~= (KernelView { effects: Seq::empty(), ..old(self)@ }));
        proof {
            reveal(KernelView::room);
        }
        taken
    }

    /// Writes a task back. It stays in its address space, and its clocks do not advance.
    pub(crate) fn put_task(&mut self, idx: usize, t: Task)
        requires
            old(self).wf(),
            idx < MAX_TASKS,
            t.address_space_id == old(self)@.tasks[idx as int].address_space_id,
            t.largest_clock() <= old(self)@.tasks[idx as int].largest_clock(),
        ensures
            final(self).wf(),
            final(self)@ == old(self)@.put_task(idx as int, t),
            final(self)@.room() >= old(self)@.room(),
    {
        self.tasks[idx] = t;
        assert(self@ =~= old(self)@.put_task(idx as int, t));
        proof {
            reveal(KernelView::room);
        }
    }

    /// Advances the runtime of a task by one tick.
    pub(crate) fn count_runtime(&mut self, idx: usize)
        requires
            old(self).wf(),
            idx < MAX_TASKS,
            old(self)@.room() >= 1,
        ensures
            final(self).wf(),
            final(self)@ == old(self)@.put_task(
                idx as int,
                Task {
                    runtime_ticks: (old(self)@.tasks[idx as int].runtime_ticks + 1) as u64,
                    ..old(self)@.tasks[idx as int]
                },
            ),
            old(self)@.tasks[idx as int].runtime_ticks < u64::MAX,
            final(self)@.room() >= old(self)@.room() - 1,
    {
        proof {
            reveal(KernelView::room);
        }
        self.tasks[idx].runtime_ticks = self.tasks[idx].runtime_ticks + 1;
        assert(self@ =~= old(self)@.put_task(idx as int, self@.tasks[idx as int]));
    }

    /// Advances the time slice of a task by one tick.
    pub(crate) fn count_time_slice(&mut self, idx: usize)
        requires
            old(self).wf(),
            idx < MAX_TASKS,
            old(self)@.room() >= 1,
        ensures
            final(self).wf(),
            final(self)@ == old(self)@.put_task(
                idx as int,
                Task {
                    time_slice_used: (old(self)@.tasks[idx as int].time_slice_used + 1) as u64,
                    ..old(self)@.tasks[idx as int]
                },
            ),
            old(self)@.tasks[idx as int].time_slice_used < u64::MAX,
            final(self)@.room() >= old(self)@.room() - 1,
    {
        proof {
            reveal(KernelView::room);
        }
        self.tasks[idx].time_slice_used = self.tasks[idx].time_slice_used + 1;
        assert(self@ =~= old(self)@.put_task(idx as int, self@.tasks[idx as int]));
    }

    /// Counts a tick.
    pub(crate) fn count_tick(&mut self)
        requires
            old(self).wf(),
            old(self)@.room() >= 1,
        ensures
            final(self).wf(),
            final(self)@ == (KernelView {
                tick_count: (old(self)@.tick_count + 1) as u64,
                ..old(self)@
            }),
            old(self)@.tick_count < u64::MAX,
            final(self)@.room() >= old(self)@.room() - 1,
    {
        proof {
            reveal(KernelView::room);
        }
        self.tick_count = self.tick_count + 1;
    }

    /// Counts a timer update; gives the new time.
    pub(crate) fn count_time(&mut self) -> (now: u64)
        requires
            old(self).wf(),
            old(self)@.room() >= 1,
        ensures
            final(self).wf(),
            now == old(self)@.time_ticks + 1,
            final(self)@ == (KernelView { time_ticks: now, ..old(self)@ }),
            final(self)@.room() >= old(self)@.room() - 1,
    {
        proof {
            reveal(KernelView::room);
        }
        self.time_ticks = self.time_ticks + 1;
        self.time_ticks
    }

    /// Writes the counters back; none of them is more than one ahead.
    pub(crate) fn put_counters(&mut self, c: KernelCounters)
        requires
            old(self).wf(),
            c.largest() <= old(self)@.counters.largest() + 1,
        ensures
            final(self).wf(),
            final(self)@ == old(self)@.put_counters(c),
            final(self)@.room() >= old(self)@.room() - 1,
    {
        proof {
            reveal(KernelView::room);
        }
        self.counters = c;
    }

    pub(crate) fn set_current(&mut self, idx: usize)
        requires
            old(self).wf(),
            idx < MAX_TASKS,
        ensures
            final(self).wf(),
            final(self)@ == (KernelView { current: idx, ..old(self)@ }),
            final(self)@.room() == old(self)@.room(),
    {
        self.current_task = idx;
        proof {
            reveal(KernelView::room);
        }
    }

    pub(crate) fn set_should_halt(&mut self)
        requires
            old(self).wf(),
        ensures
            final(self).wf(),
            final(self)@ == old(self)@.halted(),
            final(self)@.room() == old(self)@.room(),
    {
        self.should_halt = true;
        proof {
            reveal(KernelView::room);
        }
    }

    pub(crate) fn set_activity(&mut self, a: KernelActivity)
        requires
            old(self).wf(),
        ensures
            final(self).wf(),
            final(self)@ == (KernelView { activity: a, ..old(self)@ }),
            final(self)@.room() == old(self)@.room(),
    {
        self.activity = a;
        proof {
            reveal(KernelView::room);
        }
    }

    pub(crate) fn put_demo(&mut self, d: DemoProgress)
        requires
            old(self).wf(),
        ensures
            final(self).wf(),
            final(self)@ == old(self)@.put_demo(d),
            final(self)@.room() == old(self)@.room(),
    {
        self.demo = d;
        proof {
            reveal(KernelView::room);
        }
    }

    pub(crate) fn put_injected(&mut self, d: InjectionState)
        requires
            old(self).wf(),
        ensures
            final(self).wf(),
            final(self)@ == (KernelView { injected: d, ..old(self)@ }),
            final(self)@.room() == old(self)@.room(),
    {
        self.injected = d;
        proof {
            reveal(KernelView::room);
        }
    }

    /// Appends a task to the ready queue.
    pub(crate) fn push_ready(&mut self, idx: usize)
        requires
            old(self).wf(),
            old(self)@.ready.len() < MAX_TASKS,
        ensures
            final(self).wf(),
            final(self)@ == (KernelView { ready: old(self)@.ready.push(idx), ..old(self)@ }),
            final(self)@.room() == old(self)@.room(),
    {
        queue_push(&mut self.ready_queue, &mut self.rq_len, idx);
        proof {
            reveal(KernelView::room);
        }
    }

    /// Takes a task out of the ready queue; tells whether it was there.
    pub fn remove_from_ready_queue(&mut self, idx: usize) -> (removed: bool)
        requires
            old(self).wf(),
        ensures
            final(self).wf(),
            removed == old(self)@.ready.contains(idx),
            final(self)@ == (KernelView {
                ready: old(self)@.ready.filter(other_than(idx)),
                ..old(self)@
            }),
            final(self)@.room() == old(self)@.room(),
    {
        let removed = queue_remove(&mut self.ready_queue, &mut self.rq_len, idx);
        proof {
            reveal(KernelView::room);
        }
        removed
    }

    /// Takes the entry at `pos` out of the ready queue; the last one takes its place.
    pub(crate) fn swap_remove_ready(&mut self, pos: usize) -> (idx: usize)
        requires
            old(self).wf(),
            pos < old(self)@.ready.len(),
        ensures
            final(self).wf(),
            idx == old(self)@.ready[pos as int],
            final(self)@ == (KernelView {
                ready: swap_remove(old(self)@.ready, pos as int),
                ..old(self)@
            }),
            final(self)@.room() == old(self)@.room(),
    {
        let idx = queue_swap_remove(&mut self.ready_queue, &mut self.rq_len, pos);
        proof {
            reveal(KernelView::room);
        }
        idx
    }

    /// Appends a task to the wait queue.
    pub(crate) fn push_waiting(&mut self, idx: usize)
        requires
            old(self).wf(),
            old(self)@.waiting.len() < MAX_TASKS,
        ensures
            final(self).wf(),
            final(self)@ == (KernelView { waiting: old(self)@.waiting.push(idx), ..old(self)@ }),
            final(self)@.room() == old(self)@.room(),
    {
        queue_push(&mut self.wait_queue, &mut self.wq_len, idx);
        proof {
            reveal(KernelView::room);
        }
    }

    /// Takes the entry at `pos` out of the wait queue; the last one takes its place.
    pub(crate) fn swap_remove_waiting(&mut self, pos: usize) -> (idx: usize)
        requires
            old(self).wf(),
            pos < old(self)@.waiting.len(),
        ensures
            final(self).wf(),
            idx == old(self)@.waiting[pos as int],
            final(self)@ == (KernelView {
                waiting: swap_remove(old(self)@.waiting, pos as int),
                ..old(self)@
            }),
            final(self)@.room() == old(self)@.room(),
    {
        let idx = queue_swap_remove(&mut self.wait_queue, &mut self.wq_len, pos);
        proof {
            reveal(KernelView::room);
        }
        idx
    }

    /// Keeps in the ready queue only tasks that are ready.
    pub fn compact_ready_queue_to_ready_only(&mut self)
        requires
            old(self).wf(),
        ensures
            final(self).wf(),
            final(self)@ == old(self)@.compact_ready(),
            final(self)@.ready.len() <= old(self)@.ready.len(),
            final(self)@.room() == old(self)@.room(),
    {
        let n: usize = self.rq_len;
        let ghost s = self@.ready;
        let ghost p = self@.is_ready();
        let mut write_pos: usize = 0;
        let mut read_pos: usize = 0;
        assert(s.take(0) =~= Seq::empty());
        proof {
            reveal(Seq::filter);
        }
        while read_pos < n
            invariant
                old(self).wf(),
                write_pos <= read_pos <= n <= MAX_TASKS,
                n == old(self).rq_len,
                *self == (KernelState { ready_queue: self.ready_queue, ..*old(self) }),
                s == old(self)@.ready,
                p == old(self)@.is_ready(),
                queue(self.ready_queue, write_pos) == s.take(read_pos as int).filter(p),
                forall|j: int| read_pos <= j < n ==> #[trigger] self.ready_queue@[j] == s[j],
            decreases n - read_pos,
        {
            let idx: usize = self.ready_queue[read_pos];
            assert(idx == s[read_pos as int]);
            proof {
                lemma_filter_take(s, p, read_pos as int);
            }
            if idx < MAX_TASKS && self.tasks[idx].state == TaskState::Ready {
                let ghost was = self.ready_queue;
                self.ready_queue[write_pos] = idx;
                write_pos += 1;
                assert(queue(self.ready_queue, write_pos) =~= queue(
                    was,
                    (write_pos - 1) as usize,
                ).push(idx));
            }
            read_pos += 1;
        }
        assert(s.take(n as int) =~= s);
        self.rq_len = write_pos;
        assert(self@ =~= old(self)@.compact_ready());
        proof {
            reveal(KernelView::room);
        }
    }

    /// Writes an endpoint back.
    pub(crate) fn put_endpoint(&mut self, i: usize, e: Endpoint)
        requires
            old(self).wf(),
            i < MAX_ENDPOINTS,
            e.wf(),
        ensures
            final(self).wf(),
            final(self)@ == old(self)@.put_endpoint(i as int, e@),
            final(self)@.room() == old(self)@.room(),
    {
        self.endpoints[i] = e;
        assert(self@ =~= old(self)@.put_endpoint(i as int, e@));
        proof {
            reveal(KernelView::room);
        }
    }

    /// Performs a memory operation on the record of an address space.
    pub(crate) fn apply_in_space(&mut self, i: usize, action: MemAction) -> (r: Result<
        (),
        AddressSpaceError,
    >)
        requires
            old(self).wf(),
            i < MAX_TASKS,
        ensures
            final(self).wf(),
            r == old(self)@.spaces[i as int].apply_result(action),
            final(self)@ == old(self)@.put_space(
                i as int,
                old(self)@.spaces[i as int].apply(action),
            ),
            final(self)@.room() == old(self)@.room(),
    {
        assert(self@.spaces[i as int] == self.address_spaces@[i as int]@);
        let r = self.address_spaces[i].apply(action);
        assert(self@ =~= old(self)@.put_space(i as int, old(self)@.spaces[i as int].apply(action)));
        proof {
            reveal(KernelView::room);
        }
        r
    }

    /// Forgets the user mappings in the record of an address space.
    pub(crate) fn clear_user_mappings_of(&mut self, i: usize)
        requires
            old(self).wf(),
            i < MAX_TASKS,
        ensures
            final(self).wf(),
            final(self)@ == old(self)@.put_space(
                i as int,
                old(self)@.spaces[i as int].without_user_mappings(),
            ),
            final(self)@.room() == old(self)@.room(),
    {
        assert(self@.spaces[i as int] == self.address_spaces@[i as int]@);
        self.address_spaces[i].clear_user_mappings();
        assert(self@ =~= old(self)@.put_space(
            i as int,
            old(self)@.spaces[i as int].without_user_mappings(),
        ));
        proof {
            reveal(KernelView::room);
        }
    }

    pub(crate) fn set_mem_demo_mapped(&mut self, idx: usize, v: bool)
        requires
            old(self).wf(),
            idx < MAX_TASKS,
        ensures
            final(self).wf(),
            final(self)@ == (KernelView {
                mem_demo_mapped: old(self)@.mem_demo_mapped.update(idx as int, v),
                ..old(self)@
            }),
            final(self)@.room() == old(self)@.room(),
    {
        self.mem_demo_mapped[idx] = v;
        proof {
            reveal(KernelView::room);
        }
    }

    pub(crate) fn set_mem_demo_stage(&mut self, idx: usize, v: u8)
        requires
            old(self).wf(),
            idx < MAX_TASKS,
        ensures
            final(self).wf(),
            final(self)@ == (KernelView {
                mem_demo_stage: old(self)@.mem_demo_stage.update(idx as int, v),
                ..old(self)@
            }),
            final(self)@.room() == old(self)@.room(),
    {
        self.mem_demo_stage[idx] = v;
        proof {
            reveal(KernelView::room);
        }
    }

    pub(crate) fn set_mem_demo_frame(&mut self, idx: usize, v: Option<PhysFrame>)
        requires
            old(self).wf(),
            idx < MAX_TASKS,
        ensures
            final(self).wf(),
            final(self)@ == (KernelView {
                mem_demo_frame: old(self)@.mem_demo_frame.update(idx as int, v),
                ..old(self)@
            }),
            final(self)@.room() == old(self)@.room(),
    {
        self.mem_demo_frame[idx] = v;
        proof {
            reveal(KernelView::room);
        }
    }

    /// Takes the next free frame.
    pub fn allocate_frame(&mut self) -> (f: Option<PhysFrame>)
        requires
            old(self).wf(),
        ensures
            final(self).wf(),
            match f {
                Some(frame) => {
                    &&& old(self)@.frames.len() > 0
                    &&& frame.number == old(self)@.frames[0]
                    &&& final(self)@ == (KernelView {
                        frames: old(self)@.frames.skip(1),
                        ..old(self)@
                    })
                },
                None => old(self)@.frames.len() == 0 && final(self)@ == old(self)@,
            },
            final(self)@.room() == old(self)@.room(),
    {
        let f = self.phys_mem.allocate_frame();
        proof {
            reveal(KernelView::room);
        }
        f
    }

    /// The kernel's source of frames, for whoever builds page tables on its behalf: there
    /// is one source, so no frame is used twice.
    pub fn phys_mem_mut(&mut self) -> (m: &mut PhysicalMemoryManager)
        requires
            old(self).wf(),
        ensures
            m.wf(),
            m@ == old(self)@.frames,
            final(m).wf() ==> final(self).wf(),
            final(self)@ == (KernelView { frames: final(m)@, ..old(self)@ }),
    {
        &mut self.phys_mem
    }

    /// Whether every counter and clock is at least `n` below the end of its range.
    pub fn has_room(&self, n: u64) -> (r: bool)
        requires
            self.wf(),
        ensures
            r == (self@.room() >= n),
    {
        let limit: u64 = u64::MAX - n;
        let c = self.counters;
        proof {
            reveal(KernelView::room);
        }
        self.tick_count <= limit && self.time_ticks <= limit && c.sched_switches <= limit
            && c.ipc_send_fast <= limit && c.ipc_send_slow <= limit && c.ipc_recv_fast <= limit
            && c.ipc_recv_slow <= limit && c.ipc_reply_delivered <= limit && c.task_killed_user_pf
            <= limit && self.tasks[0].runtime_ticks <= limit && self.tasks[0].time_slice_used
            <= limit && self.tasks[1].runtime_ticks <= limit && self.tasks[1].time_slice_used
            <= limit && self.tasks[2].runtime_ticks <= limit && self.tasks[2].time_slice_used
            <= limit
    }
}

} // verus!
