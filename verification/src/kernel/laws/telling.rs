//! What the kernel tells of its own doings is true: traces, events and lines name those that
//! they are about.

use vstd::prelude::*;

use crate::arch::virt_layout::USER_SPACE_BASE;
use crate::kernel::ipc::{api_line, no_endpoint_line};
use crate::kernel::kill::unmapped_lines;
use crate::kernel::laws::programs::says;
use crate::kernel::lines::{tells, warns};
use crate::kernel::model::KernelView;
use crate::kernel::syscall::{PageRequest, Syscall};
use crate::kernel::tick::MailboxOutcome;
use crate::kernel::sched::queued_line;
use crate::kernel::trace::{path_line, syscall_kind_line, IpcPathEvent, IpcSyscallKind};
use crate::kernel::types::{
    BlockedReason, Effect, EndpointId, FailStopReason, LogEvent, LogLine, Task, TaskId, TaskState,
    MAX_ENDPOINTS, MAX_TASKS,
};
use crate::mem::addr::VirtPage;
use crate::mem::address_space::AddressSpaceKind;

verus! {

proof fn lemma_says(m: KernelView, n: KernelView, i: int)
    requires
        m.effects.len() <= i < n.effects.len(),
    ensures
        n.effects[i] matches Effect::Say { line: LogLine::Value { key, value } } ==> says(
            m,
            n,
            key,
            value,
        ),
{
}

/// A call that passes messages is traced as it is made, where such calls are traced: by whom,
/// where, and with which word. Otherwise it is not traced.
pub proof fn law_call_is_traced_as_made(
    m: KernelView,
    kind: IpcSyscallKind,
    ep: EndpointId,
    msg: Option<u64>,
)
    ensures
        ({
            let n = m.trace_syscall(kind, ep, msg);
            let task = m.tasks[m.current as int].id;
            &&& m.features.ipc_trace_syscall || m.features.ipc_trace_paths ==> n.effects
                == m.effects.push(Effect::IpcSyscall { kind, task, ep, msg })
            &&& !m.features.ipc_trace_syscall && !m.features.ipc_trace_paths ==> n == m
        }),
{
}

/// Blocking a task is logged as such, and a sleeper is logged as queued too.
pub proof fn law_block_is_logged(m: KernelView, idx: usize, reason: BlockedReason)
    requires
        m.wf(),
        idx < MAX_TASKS,
        m.state(idx) != TaskState::Dead,
        m.state(idx) != TaskState::Blocked,
        m.waiting.len() < MAX_TASKS,
        !m.waiting.contains(idx),
    ensures
        ({
            let n = m.block(idx, reason);
            let id = m.tasks[idx as int].id;
            let k = n.events.len() as int;
            let change = LogEvent::TaskStateChanged(id, TaskState::Blocked);
            &&& n.state(idx) == TaskState::Blocked
            &&& n.tasks[idx as int].blocked_reason == Some(reason)
            &&& n.tasks[idx as int].time_slice_used == 0
            &&& reason == BlockedReason::Sleep ==> k >= 2 && n.events[k - 2] == change
                && n.events[k - 1] == LogEvent::WaitQueued(id) && n.waiting.last() == idx
            &&& reason != BlockedReason::Sleep ==> k >= 1 && n.events[k - 1] == change
        }),
{
}

/// Waking a blocked task is logged as such.
pub proof fn law_wake_is_logged(m: KernelView, idx: usize)
    requires
        m.wf(),
        idx < MAX_TASKS,
        m.state(idx) == TaskState::Blocked,
    ensures
        ({
            let n = m.wake(idx);
            &&& n.state(idx) == TaskState::Ready
            &&& n.tasks[idx as int].blocked_reason is None
            &&& n.tasks[idx as int].time_slice_used == 0
            &&& n.events.last() == LogEvent::TaskStateChanged(
                m.tasks[idx as int].id,
                TaskState::Ready,
            )
        }),
{
}

/// Queueing a task up to run is logged, with who it is.
pub proof fn law_queueing_is_logged(m: KernelView, idx: usize)
    requires
        m.wf(),
        idx < MAX_TASKS,
        m.state(idx) == TaskState::Ready,
        !m.ready.contains(idx),
        m.ready.len() < MAX_TASKS,
    ensures
        m.enqueue_ready(idx).ready == m.ready.push(idx),
        m.enqueue_ready(idx).events.last() == LogEvent::ReadyQueued(m.tasks[idx as int].id),
{
}

/// The end of a time slice is logged with who used it up, and how much it was.
pub proof fn law_end_of_slice_is_logged(m: KernelView)
    requires
        m.wf(),
        m.state(m.current) == TaskState::Running,
        m.tasks[m.current as int].time_slice_used < u64::MAX,
        m.tasks[m.current as int].time_slice_used + 1 >= m.quantum,
        m.ready.len() == 0,
    ensures
        ({
            let n = m.update_time_slice(m.current);
            let t = m.tasks[m.current as int];
            let used = (t.time_slice_used + 1) as u64;
            &&& n.events.last() == LogEvent::QuantumExpired(t.id, used)
            &&& says(m, n, "time_slice_used", used)
            &&& n.tasks[m.current as int].time_slice_used == 0
            &&& n.current == m.current
        }),
{
    lemma_says(m, m.update_time_slice(m.current), m.effects.len() as int);
}

/// Whoever is refused is named in what is put out, and so is the endpoint.
pub proof fn law_refusal_names_the_caller(
    m: KernelView,
    msg: &'static str,
    api: &'static str,
    ep: EndpointId,
)
    ensures
        says(m, m.say_refused(msg, api, ep), "task_id", m.tasks[m.current as int].id.0),
        says(m, m.say_refused(msg, api, ep), "ep_id", ep.0 as u64),
{
    let n = m.say_refused(msg, api, ep);
    lemma_says(m, n, m.effects.len() + 2int);
    lemma_says(m, n, m.effects.len() + 3int);
}

/// Whoever is sent on because of a dead partner is named, and so is the partner.
pub proof fn law_release_names_both(m: KernelView, waiter: TaskId, dead: TaskId)
    ensures
        says(m, m.say_released(waiter, dead), "waiter_task_id", waiter.0),
        says(m, m.say_released(waiter, dead), "dead_partner_task_id", dead.0),
{
    let n = m.say_released(waiter, dead);
    lemma_says(m, n, m.effects.len() + 1int);
    lemma_says(m, n, m.effects.len() + 2int);
}

/// What is put out of taking out the mappings of an address space gives their numbers: all of
/// them before, those for user space, and what is left.
pub proof fn law_cleanup_gives_the_numbers(m: KernelView, as_idx: usize)
    requires
        m.wf(),
        as_idx < MAX_TASKS,
        m.spaces[as_idx as int].kind == AddressSpaceKind::User,
        m.spaces[as_idx as int].root_page_frame is Some,
    ensures
        ({
            let s = m.spaces[as_idx as int];
            let n = m.drop_user_mappings(as_idx);
            let left = n.spaces[as_idx as int].mappings().len() as u64;
            &&& says(m, n, "as_idx", as_idx as u64)
            &&& says(m, n, "root_page_frame_index", s.root_page_frame->0.number)
            &&& says(
                m,
                n,
                "cleanup_user_mappings: before clear mapping_count",
                s.mappings().len() as u64,
            )
            &&& says(m, n, "cleanup_user_mappings: after clear mapping_count", left)
            &&& says(
                m,
                n,
                "cleanup_user_mappings: arch_unmap_applied",
                s.user_pages().len() as u64,
            )
        }),
{
    let s = m.spaces[as_idx as int];
    let n = m.drop_user_mappings(as_idx);
    let k = m.effects.len() as int;
    let p = s.user_pages().len() as int;
    lemma_says(m, n, k + 1);
    lemma_says(m, n, k + 2);
    lemma_says(m, n, k + 3);
    lemma_says(m, n, k + 5);
    lemma_says(m, n, k + 6 + p);
}

/// What is said after a page was to be taken out names the address that is looked up, and
/// where it failed the page and its address space.
pub proof fn law_unmapped_page_is_told(page: VirtPage, as_idx: usize, shown: bool, ok: bool)
    requires
        USER_SPACE_BASE + page.number * 4096 <= u64::MAX,
    ensures
        ({
            let l = unmapped_lines(page, as_idx, shown, ok);
            &&& warns(l) <==> !ok
            &&& !ok ==> tells(l, "as_idx", as_idx as int) && tells(
                l,
                "virt_page_index",
                page.number as int,
            )
            &&& ok && shown ==> tells(l, "virt_addr", USER_SPACE_BASE + page.number * 4096)
            &&& ok && !shown ==> l.len() == 0
        }),
{
    let l = unmapped_lines(page, as_idx, shown, ok);
    if !ok {
        assert(l[0] is Error && l[1] is Value && l[2] is Value);
    } else if shown {
        assert(l[1] is Value);
    }
}

/// Every entry of the ready queue is put out before one is taken: which task, under which id,
/// and with which priority.
pub proof fn law_ready_queue_is_put_out(m: KernelView, j: int)
    requires
        m.wf(),
        0 <= j < m.ready.len(),
        m.ready[j] < MAX_TASKS,
    ensures
        ({
            let n = m.show_ready_queue();
            let t = m.tasks[m.ready[j] as int];
            &&& says(m, n, "rq_len", m.ready.len() as u64)
            &&& says(m, n, "rq[pos].task_index", m.ready[j] as u64)
            &&& says(m, n, "rq[pos].task_id", t.id.0)
            &&& says(m, n, "rq[pos].prio", t.priority as u64)
        }),
{
    let k = m.info("sched: dump ready_queue before dequeue").value("rq_len", m.ready.len() as u64);
    lemma_shown_entry(k, m.ready.len() as int, j);
    let n = m.show_ready_queue();
    lemma_shown_extends(k, m.ready.len() as int);
    lemma_says_more(m, k, n);
    lemma_says(m, n, m.effects.len() + 1int);
}

proof fn lemma_says_more(m: KernelView, k: KernelView, n: KernelView)
    requires
        m.effects.len() <= k.effects.len() <= n.effects.len(),
    ensures
        forall|key: &'static str, v: u64| #[trigger] says(k, n, key, v) ==> says(m, n, key, v),
{
    assert forall|key: &'static str, v: u64| #[trigger] says(k, n, key, v) implies says(
        m,
        n,
        key,
        v,
    ) by {
        let i = choose|i: int|
            k.effects.len() <= i < n.effects.len() && #[trigger] n.effects[i] == (Effect::Say {
                line: LogLine::Value { key, value: v },
            });
        assert(n.effects[i] == (Effect::Say { line: LogLine::Value { key, value: v } }));
    }
}

proof fn lemma_shown_extends(m: KernelView, n: int)
    requires
        0 <= n,
    ensures
        m.show_ready(n).effects.len() >= m.effects.len(),
        forall|i: int|
            0 <= i < m.effects.len() ==> #[trigger] m.show_ready(n).effects[i] == m.effects[i],
    decreases n,
{
    if n > 0 {
        lemma_shown_extends(m, n - 1);
    }
}

proof fn lemma_shown_entry(m: KernelView, n: int, j: int)
    requires
        0 <= j < n <= m.ready.len(),
        m.ready[j] < MAX_TASKS,
    ensures
        ({
            let r = m.show_ready(n);
            let t = m.tasks[m.ready[j] as int];
            &&& says(m, r, "rq[pos].task_index", m.ready[j] as u64)
            &&& says(m, r, "rq[pos].task_id", t.id.0)
            &&& says(m, r, "rq[pos].prio", t.priority as u64)
        }),
    decreases n,
{
    let b = m.show_ready(n - 1);
    let r = m.show_ready(n);
    let k = b.effects.len() as int;
    lemma_shown_extends(m, n - 1);
    if j == n - 1 {
        lemma_says(m, r, k);
        lemma_says(m, r, k + 1);
        lemma_says(m, r, k + 3);
    } else {
        lemma_shown_entry(m, n - 1, j);
        let t = m.tasks[m.ready[j] as int];
        lemma_says_on(m, b, r, "rq[pos].task_index", m.ready[j] as u64);
        lemma_says_on(m, b, r, "rq[pos].task_id", t.id.0);
        lemma_says_on(m, b, r, "rq[pos].prio", t.priority as u64);
    }
}

proof fn lemma_says_on(m: KernelView, b: KernelView, r: KernelView, key: &'static str, v: u64)
    requires
        says(m, b, key, v),
        b.effects.len() <= r.effects.len(),
        forall|i: int| 0 <= i < b.effects.len() ==> #[trigger] r.effects[i] == b.effects[i],
    ensures
        says(m, r, key, v),
{
    let i = choose|i: int|
        m.effects.len() <= i < b.effects.len() && #[trigger] b.effects[i] == (Effect::Say {
            line: LogLine::Value { key, value: v },
        });
    assert(r.effects[i] == (Effect::Say { line: LogLine::Value { key, value: v } }));
}

/// Through the mailbox a program can have the kernel tick, and ask for the tick count: asking
/// changes nothing, and after one tick the answer is one more.
pub proof fn law_mailbox_ticks_and_counts(m: KernelView, a0: u64, a1: u64, a2: u64)
    ensures
        m.mailbox(30, a0, a1, a2).0 == m.tick().0,
        m.mailbox(30, a0, a1, a2).1 == (MailboxOutcome::Tick { outcome: m.tick().1 }),
        m.mailbox(2, a0, a1, a2) == (m, MailboxOutcome::Ret { value: m.tick_count }),
{
}

/// What stands in the log at the start of a system call is who makes it.
pub proof fn law_pending_call_is_made_once(m: KernelView, sc: Syscall)
    requires
        m.wf(),
        m.state(m.current) != TaskState::Dead,
        m.tasks[m.current as int].pending_syscall == Some(sc),
    ensures
        ({
            let t = m.tasks[m.current as int];
            let p = m.put_task(
                m.current as int,
                Task { pending_syscall: None, ..t },
            );
            &&& m.pending_syscall() == p.log(LogEvent::SyscallIssued { task: t.id }).syscall(sc)
            &&& p.pending_syscall().0 == p && p.pending_syscall().1 == Ok::<_, FailStopReason>(
                None::<PageRequest>,
            )
        }),
{
    reveal(KernelView::pending_syscall);
}

/// The name of a state.
pub open spec fn state_name(state: TaskState) -> Seq<char> {
    match state {
        TaskState::Ready => "Ready"@,
        TaskState::Running => "Running"@,
        TaskState::Blocked => "Blocked"@,
        TaskState::Dead => "Dead"@,
    }
}

/// Wherever the state of a task is put out, its own name is.
#[verifier::rlimit(40)]
pub proof fn law_state_goes_by_its_name(m: KernelView, i: int)
    ensures
        queued_line(m.tasks[i].state)@ == "rq[pos].state = "@ + state_name(m.tasks[i].state),
        m.task_dump(i)[3] is Info,
        m.task_dump(i)[3]->Info_msg@ == "state = "@ + state_name(m.tasks[i].state),
{
    reveal_strlit("Ready");
    reveal_strlit("Running");
    reveal_strlit("Blocked");
    reveal_strlit("Dead");
    reveal_strlit("rq[pos].state = ");
    reveal_strlit("rq[pos].state = Ready");
    reveal_strlit("rq[pos].state = Running");
    reveal_strlit("rq[pos].state = Blocked");
    reveal_strlit("rq[pos].state = Dead");
    reveal_strlit("state = ");
    reveal_strlit("state = Ready");
    reveal_strlit("state = Running");
    reveal_strlit("state = Blocked");
    reveal_strlit("state = Dead");
    assert(queued_line(m.tasks[i].state)@ =~= "rq[pos].state = "@ + state_name(m.tasks[i].state));
    assert(m.task_dump(i)[3]->Info_msg@ =~= "state = "@ + state_name(m.tasks[i].state));
}

/// The name of a call that passes messages.
pub open spec fn call_name(kind: IpcSyscallKind) -> Seq<char> {
    match kind {
        IpcSyscallKind::Recv => "ipc_recv"@,
        IpcSyscallKind::Send => "ipc_send"@,
        IpcSyscallKind::Reply => "ipc_reply"@,
    }
}

/// Wherever a call that passes messages is put out, its own name is.
#[verifier::rlimit(40)]
pub proof fn law_call_goes_by_its_name(kind: IpcSyscallKind)
    ensures
        api_line(kind)@ == "api="@ + call_name(kind),
        no_endpoint_line(kind)@ == call_name(kind) + ": ep out of range"@,
        syscall_kind_line(kind) is Info,
        syscall_kind_line(kind)->Info_msg@ == "ipc_trace kind="@ + call_name(kind),
{
    reveal_strlit("ipc_recv");
    reveal_strlit("ipc_send");
    reveal_strlit("ipc_reply");
    reveal_strlit("api=");
    reveal_strlit("api=ipc_recv");
    reveal_strlit("api=ipc_send");
    reveal_strlit("api=ipc_reply");
    reveal_strlit(": ep out of range");
    reveal_strlit("ipc_recv: ep out of range");
    reveal_strlit("ipc_send: ep out of range");
    reveal_strlit("ipc_reply: ep out of range");
    reveal_strlit("ipc_trace kind=");
    reveal_strlit("ipc_trace kind=ipc_recv");
    reveal_strlit("ipc_trace kind=ipc_send");
    reveal_strlit("ipc_trace kind=ipc_reply");
    assert(api_line(kind)@ =~= "api="@ + call_name(kind));
    assert(no_endpoint_line(kind)@ =~= call_name(kind) + ": ep out of range"@);
    assert(syscall_kind_line(kind)->Info_msg@ =~= "ipc_trace kind="@ + call_name(kind));
}

/// The name of a path: what was done, and how it went.
pub open spec fn path_name(event: IpcPathEvent) -> (Seq<char>, Seq<char>) {
    match event {
        IpcPathEvent::SendFast => ("send"@, "fast"@),
        IpcPathEvent::SendSlow => ("send"@, "slow"@),
        IpcPathEvent::RecvFast => ("recv"@, "fast"@),
        IpcPathEvent::RecvSlow => ("recv"@, "slow"@),
        IpcPathEvent::ReplyDelivered => ("reply"@, "delivered"@),
        IpcPathEvent::ReplyNoWaiter => ("reply"@, "no_waiter"@),
    }
}

/// The line for a path says what was done, and how it went.
#[verifier::rlimit(40)]
pub proof fn law_path_goes_by_its_name(event: IpcPathEvent)
    ensures
        path_line(event) is Info,
        path_line(event)->Info_msg@ == "ipc_trace_paths "@ + path_name(event).0 + "="@
            + path_name(event).1,
{
    reveal_strlit("ipc_trace_paths ");
    reveal_strlit("send");
    reveal_strlit("recv");
    reveal_strlit("reply");
    reveal_strlit("=");
    reveal_strlit("fast");
    reveal_strlit("slow");
    reveal_strlit("delivered");
    reveal_strlit("no_waiter");
    reveal_strlit("ipc_trace_paths send=fast");
    reveal_strlit("ipc_trace_paths send=slow");
    reveal_strlit("ipc_trace_paths recv=fast");
    reveal_strlit("ipc_trace_paths recv=slow");
    reveal_strlit("ipc_trace_paths reply=delivered");
    reveal_strlit("ipc_trace_paths reply=no_waiter");
    assert(path_line(event)->Info_msg@ =~= "ipc_trace_paths "@ + path_name(event).0 + "="@
        + path_name(event).1);
}

/// A kernel task that makes a call to pass messages is ignored: nothing happens but that it is
/// named in what is put out, with the endpoint.
pub proof fn law_kernel_task_passes_no_messages(m: KernelView, sc: Syscall)
    requires
        m.wf(),
        m.space_of(m.current).kind == AddressSpaceKind::Kernel,
        sc is IpcRecv || sc is IpcSend || sc is IpcReply,
    ensures
        ({
            let (n, r) = m.syscall(sc);
            let ep = match sc {
                Syscall::IpcRecv { ep } => ep,
                Syscall::IpcSend { ep, .. } => ep,
                Syscall::IpcReply { ep, .. } => ep,
                _ => EndpointId(0),
            };
            &&& r is Ok && r->Ok_0 is None
            &&& n == KernelView { effects: n.effects, ..m }
            &&& says(m, n, "task_id", m.tasks[m.current as int].id.0)
            &&& says(m, n, "ep_id", ep.0 as u64)
        }),
{
    reveal(KernelView::syscall);
    let n = m.syscall(sc).0;
    lemma_says(m, n, m.effects.len() + 1int);
    lemma_says(m, n, m.effects.len() + 2int);
}

/// A call at an endpoint that does not exist, or by a dead task, changes nothing but what is
/// put out.
pub proof fn law_call_nowhere_does_nothing(m: KernelView, ep: EndpointId, msg: u64)
    requires
        m.wf(),
        ep.0 >= MAX_ENDPOINTS || m.state(m.current) == TaskState::Dead,
    ensures
        m.ipc_recv(ep) == (KernelView { effects: m.ipc_recv(ep).effects, ..m }),
        m.ipc_send(ep, msg) == (KernelView { effects: m.ipc_send(ep, msg).effects, ..m }),
        m.ipc_reply(ep, msg) == (KernelView { effects: m.ipc_reply(ep, msg).effects, ..m }),
{
    reveal(KernelView::ipc_recv);
    reveal(KernelView::ipc_send);
    reveal(KernelView::ipc_reply);
}

} // verus!
