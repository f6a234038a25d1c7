//! The kernel's state as a value: what the queues, tables and logs hold. The steps of
//! the kernel are functions on these values.

use vstd::prelude::*;

use crate::kernel::endpoint::EndpointView;
use crate::kernel::types::{
    AddressSpaceId, DemoProgress, Effect, EndpointId, InjectionState, KernelActivity,
    KernelCounters, KernelFeatures, LogEvent, LogLine, Task, TaskId, TaskState, EVENT_LOG_CAP,
    KERNEL_ASID_INDEX, MAX_ENDPOINTS, MAX_TASKS, TASK0_INDEX, TASK1_INDEX, TASK2_INDEX,
};
use crate::mem::addr::PhysFrame;
use crate::mem::address_space::{AddressSpaceKind, AddressSpaceView, MAX_MAPPINGS};

verus! {

#[verifier::ext_equal]
pub struct KernelView {
    /// The numbers of the frames that can still be handed out.
    pub frames: Seq<u64>,
    pub tick_count: u64,
    pub time_ticks: u64,
    pub should_halt: bool,
    pub activity: KernelActivity,
    pub spaces: Seq<AddressSpaceView>,
    pub tasks: Seq<Task>,
    pub current: usize,
    /// The queue of tasks that are ready to run.
    pub ready: Seq<usize>,
    /// The queue of tasks that sleep.
    pub waiting: Seq<usize>,
    /// The most recent events, oldest first.
    pub events: Seq<LogEvent>,
    pub quantum: u64,
    pub mem_demo_mapped: Seq<bool>,
    pub mem_demo_stage: Seq<u8>,
    pub mem_demo_frame: Seq<Option<PhysFrame>>,
    pub endpoints: Seq<EndpointView>,
    pub demo: DemoProgress,
    pub injected: InjectionState,
    pub counters: KernelCounters,
    pub features: KernelFeatures,
    /// What the machine has been asked to do and has not been told of yet.
    pub effects: Seq<Effect>,
}

/// The last `n` elements of a sequence.
pub open spec fn keep_last<A>(s: Seq<A>, n: int) -> Seq<A> {
    if s.len() > n {
        s.skip(s.len() - n)
    } else {
        s
    }
}

pub open spec fn larger(a: int, b: int) -> int {
    if a >= b {
        a
    } else {
        b
    }
}

impl Task {
    /// The larger of the task's two clocks.
    pub open spec fn largest_clock(self) -> int {
        larger(self.runtime_ticks as int, self.time_slice_used as int)
    }
}

impl KernelCounters {
    pub open spec fn largest(self) -> int {
        larger(
            larger(
                larger(self.sched_switches as int, self.ipc_send_fast as int),
                larger(self.ipc_send_slow as int, self.ipc_recv_fast as int),
            ),
            larger(
                larger(self.ipc_recv_slow as int, self.ipc_reply_delivered as int),
                self.task_killed_user_pf as int,
            ),
        )
    }
}

/// A task as it is at the start.
pub open spec fn initial_task(
    id: TaskId,
    state: TaskState,
    priority: u8,
    address_space_id: AddressSpaceId,
) -> Task {
    Task {
        id,
        state,
        priority,
        runtime_ticks: 0,
        time_slice_used: 0,
        address_space_id,
        blocked_reason: None,
        last_msg: None,
        last_reply: None,
        last_syscall_ret: None,
        last_syscall_ret_unread: false,
        pending_send_msg: None,
        pending_syscall: None,
    }
}

/// An address space without mappings.
pub open spec fn initial_space(
    kind: AddressSpaceKind,
    root_page_frame: Option<PhysFrame>,
) -> AddressSpaceView {
    AddressSpaceView {
        kind,
        root_page_frame,
        slots: Seq::new(MAX_MAPPINGS as nat, |i: int| None),
    }
}

/// How the root of a user address space is filled, and what is said of it.
pub open spec fn root_effects(as_idx: u64, root: Option<PhysFrame>) -> Seq<Effect> {
    match root {
        None => seq![Effect::Say { line: LogLine::Error { msg: "no more frames for user pml4" } }],
        Some(root) => seq![
            Effect::Say { line: LogLine::Info { msg: "init_user_pml4_from_current: start" } },
            Effect::Say { line: LogLine::Value { key: "as_idx", value: as_idx } },
            Effect::Say {
                line: LogLine::Value { key: "root_page_frame_index", value: root.number },
            },
            Effect::InitUserPml4 { root },
            Effect::Say { line: LogLine::Info { msg: "init_user_pml4_from_current: done" } },
        ],
    }
}

/// The kernel at the start. One kernel task runs; two user tasks are ready, each with an
/// address space of its own whose root is the next free frame, as long as there are
/// frames.
pub open spec fn initial_kernel(
    frames: Seq<u64>,
    kernel_root: PhysFrame,
    features: KernelFeatures,
) -> KernelView {
    let n_roots: int = if frames.len() >= 2 {
        2
    } else {
        frames.len() as int
    };
    let first_root = if n_roots >= 1 {
        Some(PhysFrame { number: frames[0] })
    } else {
        None
    };
    let second_root = if n_roots >= 2 {
        Some(PhysFrame { number: frames[1] })
    } else {
        None
    };
    KernelView {
        frames: frames.skip(n_roots),
        tick_count: 0,
        time_ticks: 0,
        should_halt: false,
        activity: KernelActivity::Idle,
        spaces: seq![
            initial_space(AddressSpaceKind::Kernel, Some(kernel_root)),
            initial_space(AddressSpaceKind::User, first_root),
            initial_space(AddressSpaceKind::User, second_root),
        ],
        tasks: seq![
            initial_task(TaskId(1), TaskState::Running, 1, AddressSpaceId(0)),
            initial_task(TaskId(2), TaskState::Ready, 3, AddressSpaceId(1)),
            initial_task(TaskId(3), TaskState::Ready, 2, AddressSpaceId(2)),
        ],
        current: TASK0_INDEX,
        ready: seq![TASK1_INDEX, TASK2_INDEX],
        waiting: Seq::empty(),
        events: Seq::empty(),
        quantum: 5,
        mem_demo_mapped: seq![false, false, false],
        mem_demo_stage: seq![0u8, 0u8, 0u8],
        mem_demo_frame: seq![None, None, None],
        endpoints: seq![
            EndpointView {
                owner: if features.endpoint_close_test {
                    Some(TaskId(3))
                } else {
                    None
                },
                ..EndpointView::new(EndpointId(0))
            },
            EndpointView::new(EndpointId(1)),
        ],
        demo: DemoProgress {
            msgs_delivered: 0,
            replies_sent: 0,
            sent_by_task2: false,
            sent_by_task1: false,
            early_sent_by_task0: false,
        },
        injected: InjectionState {
            double_map_stage: 0,
            unmap_fired: false,
            dead_partner_fired: false,
        },
        counters: KernelCounters::new(),
        features,
        effects: root_effects(1, first_root) + root_effects(2, second_root),
    }
}

impl KernelView {
    /// The tables have their sizes, the queues fit their arrays, and every index that is
    /// followed without a test is in range.
    pub open spec fn wf(self) -> bool {
        &&& self.tasks.len() == MAX_TASKS
        &&& self.spaces.len() == MAX_TASKS
        &&& self.endpoints.len() == MAX_ENDPOINTS
        &&& self.mem_demo_mapped.len() == MAX_TASKS
        &&& self.mem_demo_stage.len() == MAX_TASKS
        &&& self.mem_demo_frame.len() == MAX_TASKS
        &&& self.ready.len() <= MAX_TASKS
        &&& self.waiting.len() <= MAX_TASKS
        &&& self.events.len() <= EVENT_LOG_CAP
        &&& self.current < MAX_TASKS
        &&& forall|i: int|
            0 <= i < MAX_TASKS ==> (#[trigger] self.tasks[i]).address_space_id.0 < MAX_TASKS
        &&& forall|i: int| 0 <= i < MAX_TASKS ==> (#[trigger] self.spaces[i]).wf()
        &&& forall|i: int| 0 <= i < MAX_ENDPOINTS ==> (#[trigger] self.endpoints[i]).wf()
        &&& self.spaces[KERNEL_ASID_INDEX as int].root_page_frame is Some
    }

    /// How far the largest counter or clock of the kernel is from the end of its range.
    #[verifier::opaque]
    pub open spec fn room(self) -> int {
        u64::MAX - larger(
            larger(
                larger(self.tick_count as int, self.time_ticks as int),
                self.counters.largest(),
            ),
            larger(
                larger(self.tasks[0].largest_clock(), self.tasks[1].largest_clock()),
                self.tasks[2].largest_clock(),
            ),
        )
    }

    /// Records an event; the log keeps the most recent ones.
    pub open spec fn log(self, ev: LogEvent) -> KernelView {
        KernelView { events: keep_last(self.events.push(ev), EVENT_LOG_CAP as int), ..self }
    }

    pub open spec fn emit(self, e: Effect) -> KernelView {
        KernelView { effects: self.effects.push(e), ..self }
    }

    /// A piece of news is put out.
    pub open spec fn info(self, msg: &'static str) -> KernelView {
        self.emit(Effect::Say { line: LogLine::Info { msg } })
    }

    /// A piece of bad news is put out.
    pub open spec fn error(self, msg: &'static str) -> KernelView {
        self.emit(Effect::Say { line: LogLine::Error { msg } })
    }

    /// A number is put out under its name.
    pub open spec fn value(self, key: &'static str, value: u64) -> KernelView {
        self.emit(Effect::Say { line: LogLine::Value { key, value } })
    }

    pub open spec fn put_task(self, idx: int, t: Task) -> KernelView {
        KernelView { tasks: self.tasks.update(idx, t), ..self }
    }

    pub open spec fn put_endpoint(self, i: int, e: EndpointView) -> KernelView {
        KernelView { endpoints: self.endpoints.update(i, e), ..self }
    }

    pub open spec fn put_space(self, i: int, s: AddressSpaceView) -> KernelView {
        KernelView { spaces: self.spaces.update(i, s), ..self }
    }

    pub open spec fn put_counters(self, c: KernelCounters) -> KernelView {
        KernelView { counters: c, ..self }
    }

    pub open spec fn put_demo(self, d: DemoProgress) -> KernelView {
        KernelView { demo: d, ..self }
    }

    pub open spec fn halted(self) -> KernelView {
        KernelView { should_halt: true, ..self }
    }

    /// The state of a task; `idx` must be in range.
    pub open spec fn state(self, idx: usize) -> TaskState {
        self.tasks[idx as int].state
    }

    /// The address space of a task.
    pub open spec fn space_of(self, idx: usize) -> AddressSpaceView {
        self.spaces[self.tasks[idx as int].address_space_id.0 as int]
    }

    pub open spec fn is_kernel_task(self, idx: usize) -> bool {
        idx < MAX_TASKS && self.space_of(idx).kind == AddressSpaceKind::Kernel
    }

    /// A task index that stands for a task that is ready to run.
    pub open spec fn is_ready(self) -> spec_fn(usize) -> bool {
        |idx: usize| idx < MAX_TASKS && self.state(idx) == TaskState::Ready
    }

    /// The ready queue with only those in it that are ready.
    pub open spec fn compact_ready(self) -> KernelView {
        KernelView { ready: self.ready.filter(self.is_ready()), ..self }
    }

    pub open spec fn kernel_root(self) -> PhysFrame {
        self.spaces[KERNEL_ASID_INDEX as int].root_page_frame->0
    }
}

} // verus!
