//! The types of the kernel's state machine: tasks, events, counters, and what the kernel
//! asks the machine to do.

use vstd::prelude::*;

use crate::kernel::syscall::Syscall;
use crate::kernel::trace::{IpcPathEvent, IpcSyscallKind};
use crate::mem::addr::{PhysFrame, VirtPage};
use crate::mem::paging::MemAction;

verus! {

pub const MAX_TASKS: usize = 3;

pub const EVENT_LOG_CAP: usize = 256;

pub const MAX_ENDPOINTS: usize = 2;

pub const KERNEL_ASID_INDEX: usize = 0;

pub const FIRST_USER_ASID_INDEX: usize = 1;

pub const TASK0_INDEX: usize = 0;

pub const TASK1_INDEX: usize = 1;

pub const TASK2_INDEX: usize = 2;

/// The page that the kernel task's memory demo maps.
pub const DEMO_VIRT_PAGE_INDEX_TASK0: u64 = 0x100;

/// The page that a user task's memory demo maps, as an offset into user space.
pub const DEMO_VIRT_PAGE_INDEX_USER: u64 = 0x110;

#[derive(Clone, Copy, Debug, PartialEq, Eq, Structural)]
pub struct TaskId(pub u64);

#[derive(Clone, Copy, Debug, PartialEq, Eq, Structural)]
pub struct AddressSpaceId(pub usize);

#[derive(Clone, Copy, Debug, PartialEq, Eq, Structural)]
pub struct EndpointId(pub usize);

#[derive(Clone, Copy, Debug, PartialEq, Eq, Structural)]
pub enum TaskState {
    Ready,
    Running,
    Blocked,
    /// Killed; a dead task never comes back.
    Dead,
}

/// What a blocked task waits for.
#[derive(Clone, Copy, Debug, PartialEq, Eq, Structural)]
pub enum BlockedReason {
    Sleep,
    IpcRecv { ep: EndpointId },
    IpcSend { ep: EndpointId },
    IpcReply { partner: TaskId, ep: EndpointId },
}

#[derive(Clone, Copy, Debug, PartialEq, Eq)]
pub struct Task {
    pub id: TaskId,
    pub state: TaskState,
    pub priority: u8,
    pub runtime_ticks: u64,
    pub time_slice_used: u64,
    pub address_space_id: AddressSpaceId,
    pub blocked_reason: Option<BlockedReason>,
    pub last_msg: Option<u64>,
    pub last_reply: Option<u64>,
    /// The result of the last page system call.
    pub last_syscall_ret: Option<u64>,
    /// Whether that result is still to be seen by the task.
    pub last_syscall_ret_unread: bool,
    pub pending_send_msg: Option<u64>,
    pub pending_syscall: Option<Syscall>,
}

/// Why a task was killed.
#[derive(Clone, Copy, Debug, PartialEq, Eq, Structural)]
pub enum TaskKillReason {
    UserPageFault { addr: u64, err: u64, rip: u64 },
    /// Killed by a demo on purpose; `code` tells which one.
    DemoInjected { code: u64 },
}

#[derive(Clone, Copy, Debug, PartialEq, Eq, Structural)]
pub enum LogEvent {
    TickStarted(u64),
    TimerUpdated(u64),
    FrameAllocated,
    TaskSwitched(TaskId),
    TaskStateChanged(TaskId, TaskState),
    ReadyQueued(TaskId),
    ReadyDequeued(TaskId),
    WaitQueued(TaskId),
    WaitDequeued(TaskId),
    RuntimeUpdated(TaskId, u64),
    QuantumExpired(TaskId, u64),
    MemActionApplied { task: TaskId, address_space: AddressSpaceId, action: MemAction },
    SyscallIssued { task: TaskId },
    SyscallHandled { task: TaskId },
    IpcRecvCalled { task: TaskId, ep: EndpointId },
    IpcRecvBlocked { task: TaskId, ep: EndpointId },
    IpcSendCalled { task: TaskId, ep: EndpointId, msg: u64 },
    IpcSendBlocked { task: TaskId, ep: EndpointId },
    IpcDelivered { from: TaskId, to: TaskId, ep: EndpointId, msg: u64 },
    IpcReplyCalled { task: TaskId, ep: EndpointId, to: TaskId },
    IpcReplyDelivered { from: TaskId, to: TaskId, ep: EndpointId },
    TaskKilled { task: TaskId, reason: TaskKillReason },
}

/// What the kernel does in the next tick, besides running a task.
#[derive(Clone, Copy, Debug, PartialEq, Eq, Structural)]
pub enum KernelActivity {
    Idle,
    UpdatingTimer,
    AllocatingFrame,
    MappingDemoPage,
}

#[derive(Clone, Copy, Debug, PartialEq, Eq, Structural)]
pub enum KernelAction {
    Nothing,
    UpdateTimer,
    AllocateFrame,
    MemDemo,
}

#[derive(Clone, Copy, Debug, PartialEq, Eq, Structural)]
pub struct KernelCounters {
    pub sched_switches: u64,
    pub ipc_send_fast: u64,
    pub ipc_send_slow: u64,
    pub ipc_recv_fast: u64,
    pub ipc_recv_slow: u64,
    pub ipc_reply_delivered: u64,
    pub task_killed_user_pf: u64,
}

impl KernelCounters {
    #[verifier::allow_in_spec]
    pub fn new() -> Self
        returns
            (KernelCounters {
                sched_switches: 0,
                ipc_send_fast: 0,
                ipc_send_slow: 0,
                ipc_recv_fast: 0,
                ipc_recv_slow: 0,
                ipc_reply_delivered: 0,
                task_killed_user_pf: 0,
            }),
    {
        KernelCounters {
            sched_switches: 0,
            ipc_send_fast: 0,
            ipc_send_slow: 0,
            ipc_recv_fast: 0,
            ipc_recv_slow: 0,
            ipc_reply_delivered: 0,
            task_killed_user_pf: 0,
        }
    }
}

/// Which demos and traces are switched on. All of them off is the ordinary kernel.
#[derive(Clone, Copy, Debug, PartialEq, Eq, Structural)]
pub struct KernelFeatures {
    /// A page fault of the memory demo kills the task.
    pub pf_demo: bool,
    /// The kernel serves one user program through the mailbox and does not reschedule
    /// when it blocks.
    pub ring3_mailbox: bool,
    /// The kernel serves a user program in a loop; the program runs as the second task.
    pub ring3_mailbox_loop: bool,
    /// The second task sends its first message only.
    pub ipc_demo_single_slow: bool,
    /// The third task owns the first endpoint.
    pub endpoint_close_test: bool,
    /// The third task is killed once, right after it has asked to receive.
    pub dead_partner_test: bool,
    /// The second task maps one page twice.
    pub evil_double_map: bool,
    /// The second task unmaps a page that is not mapped.
    pub evil_unmap_not_mapped: bool,
    /// System calls for message passing are traced.
    pub ipc_trace_syscall: bool,
    /// The paths that messages take are traced, and the system calls with them.
    pub ipc_trace_paths: bool,
}

impl KernelFeatures {
    /// Whether system calls for message passing are traced.
    #[verifier::allow_in_spec]
    pub fn traces_syscalls(self) -> bool
        returns
            (self.ipc_trace_syscall || self.ipc_trace_paths),
    {
        self.ipc_trace_syscall || self.ipc_trace_paths
    }

    /// The ordinary kernel.
    #[verifier::allow_in_spec]
    pub fn none() -> Self
        returns
            (KernelFeatures {
                pf_demo: false,
                ring3_mailbox: false,
                ring3_mailbox_loop: false,
                ipc_demo_single_slow: false,
                endpoint_close_test: false,
                dead_partner_test: false,
                evil_double_map: false,
                evil_unmap_not_mapped: false,
                ipc_trace_syscall: false,
                ipc_trace_paths: false,
            }),
    {
        KernelFeatures {
            pf_demo: false,
            ring3_mailbox: false,
            ring3_mailbox_loop: false,
            ipc_demo_single_slow: false,
            endpoint_close_test: false,
            dead_partner_test: false,
            evil_double_map: false,
            evil_unmap_not_mapped: false,
            ipc_trace_syscall: false,
            ipc_trace_paths: false,
        }
    }
}

/// How far the demos that break the rules on purpose have come.
#[derive(Clone, Copy, Debug, PartialEq, Eq, Structural)]
pub struct InjectionState {
    /// How many times `evil_double_map` has mapped its page; it stops at two.
    pub double_map_stage: u8,
    pub unmap_fired: bool,
    pub dead_partner_fired: bool,
}

/// How far the demo programs have come.
#[derive(Clone, Copy, Debug, PartialEq, Eq, Structural)]
pub struct DemoProgress {
    pub msgs_delivered: u8,
    pub replies_sent: u8,
    pub sent_by_task2: bool,
    pub sent_by_task1: bool,
    pub early_sent_by_task0: bool,
}

/// Why the kernel cannot go on.
#[derive(Clone, Copy, Debug, PartialEq, Eq, Structural)]
pub enum FailStopReason {
    /// A user address space has no root page table.
    UserRootMissing,
    /// The kernel's own record of an address space refused an operation of the kernel.
    AddressSpaceApplyFailed,
    /// The page table refused an operation that the kernel's record accepted.
    ArchApplyFailed,
}

/// What the kernel asks the machine to do. The requests are to be carried out in order;
/// none of them hands anything back to the kernel.
#[derive(Clone, Copy, Debug, PartialEq, Eq)]
pub enum Effect {
    /// Lets the VGA text screen take part in logging, or not.
    SetVga { enabled: bool },
    /// Switches to a root page table after the safety checks of a task switch.
    SwitchAddressSpace { target: Option<PhysFrame> },
    /// Switches to a root page table and logs nothing.
    SwitchAddressSpaceQuiet { root: PhysFrame },
    /// Fills a fresh root page table for a user address space.
    InitUserPml4 { root: PhysFrame },
    /// Takes a user page of an address space out of its page table; a failure of this is a
    /// fail-stop. The page may be looked up after that, to show that it is gone.
    UnmapInRoot { page: VirtPage, root: PhysFrame, as_idx: usize, shown: bool },
    /// Traces the path that a message took.
    IpcPath { event: IpcPathEvent },
    /// Traces a system call for message passing.
    IpcSyscall { kind: IpcSyscallKind, task: TaskId, ep: EndpointId, msg: Option<u64> },
    /// Puts out a line.
    Say { line: LogLine },
}

/// One line of kernel output.
#[derive(Clone, Copy, Debug, PartialEq, Eq)]
pub enum LogLine {
    Info { msg: &'static str },
    Error { msg: &'static str },
    Value { key: &'static str, value: u64 },
}

impl Task {
    /// The task, ready to run.
    #[verifier::allow_in_spec]
    pub fn made_ready(self) -> Task
        returns
            (Task { state: TaskState::Ready, blocked_reason: None, time_slice_used: 0, ..self }),
    {
        Task { state: TaskState::Ready, blocked_reason: None, time_slice_used: 0, ..self }
    }

    /// The task, running, with a fresh time slice.
    #[verifier::allow_in_spec]
    pub fn made_running(self) -> Task
        returns
            (Task { state: TaskState::Running, blocked_reason: None, time_slice_used: 0, ..self }),
    {
        Task { state: TaskState::Running, blocked_reason: None, time_slice_used: 0, ..self }
    }

    /// The task, blocked for the given reason.
    #[verifier::allow_in_spec]
    pub fn made_blocked(self, reason: BlockedReason) -> Task
        returns
            (Task {
                state: TaskState::Blocked,
                blocked_reason: Some(reason),
                time_slice_used: 0,
                ..self
            }),
    {
        Task {
            state: TaskState::Blocked,
            blocked_reason: Some(reason),
            time_slice_used: 0,
            ..self
        }
    }

    /// The task, dead, with nothing left of what it was doing.
    #[verifier::allow_in_spec]
    pub fn made_dead(self) -> Task
        returns
            (Task {
                state: TaskState::Dead,
                blocked_reason: None,
                pending_syscall: None,
                pending_send_msg: None,
                last_msg: None,
                last_reply: None,
                last_syscall_ret: None,
                last_syscall_ret_unread: false,
                time_slice_used: 0,
                ..self
            }),
    {
        Task {
            state: TaskState::Dead,
            blocked_reason: None,
            pending_syscall: None,
            pending_send_msg: None,
            last_msg: None,
            last_reply: None,
            last_syscall_ret: None,
            last_syscall_ret_unread: false,
            time_slice_used: 0,
            ..self
        }
    }
}

/// The four activities follow each other in a cycle; each has its action.
pub open spec fn spec_next_activity_and_action(current: KernelActivity) -> (
    KernelActivity,
    KernelAction,
) {
    match current {
        KernelActivity::Idle => (KernelActivity::UpdatingTimer, KernelAction::Nothing),
        KernelActivity::UpdatingTimer => (
            KernelActivity::AllocatingFrame,
            KernelAction::UpdateTimer,
        ),
        KernelActivity::AllocatingFrame => (
            KernelActivity::MappingDemoPage,
            KernelAction::AllocateFrame,
        ),
        KernelActivity::MappingDemoPage => (KernelActivity::Idle, KernelAction::MemDemo),
    }
}

/// What to do now, and what comes next.
pub fn next_activity_and_action(current: KernelActivity) -> (r: (KernelActivity, KernelAction))
    ensures
        r == spec_next_activity_and_action(current),
{
    match current {
        KernelActivity::Idle => (KernelActivity::UpdatingTimer, KernelAction::Nothing),
        KernelActivity::UpdatingTimer => (
            KernelActivity::AllocatingFrame,
            KernelAction::UpdateTimer,
        ),
        KernelActivity::AllocatingFrame => (
            KernelActivity::MappingDemoPage,
            KernelAction::AllocateFrame,
        ),
        KernelActivity::MappingDemoPage => (KernelActivity::Idle, KernelAction::MemDemo),
    }
}

/// From the start on, the four actions come in this order: nothing, the timer, a frame, the
/// memory demo.
pub proof fn law_actions_from_idle()
    ensures
        ({
            let (b, x) = spec_next_activity_and_action(KernelActivity::Idle);
            let (c, y) = spec_next_activity_and_action(b);
            let (d, z) = spec_next_activity_and_action(c);
            let (e, w) = spec_next_activity_and_action(d);
            &&& seq![x, y, z, w] == seq![
                KernelAction::Nothing,
                KernelAction::UpdateTimer,
                KernelAction::AllocateFrame,
                KernelAction::MemDemo,
            ]
            &&& e == KernelActivity::Idle
        }),
{
}

/// After four steps an activity comes round again, and each action was due once.
pub proof fn law_activities_cycle(a: KernelActivity)
    ensures
        ({
            let (b, x) = spec_next_activity_and_action(a);
            let (c, y) = spec_next_activity_and_action(b);
            let (d, z) = spec_next_activity_and_action(c);
            let (e, w) = spec_next_activity_and_action(d);
            &&& e == a
            &&& seq![x, y, z, w].no_duplicates()
        }),
{
}

} // verus!
