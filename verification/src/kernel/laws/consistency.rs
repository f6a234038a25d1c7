//! A consistent kernel: every task is where its state says it is, and nowhere else.

use vstd::prelude::*;

use crate::kernel::endpoint::EndpointView;
use crate::kernel::invariants::has_id;
use crate::kernel::lines::lemma_no_lines;
use crate::kernel::model::KernelView;
use crate::kernel::syscall::Syscall;
use crate::kernel::types::{
    AddressSpaceId, BlockedReason, EndpointId, LogLine, TaskId, TaskState, MAX_ENDPOINTS,
    MAX_TASKS, TASK0_INDEX,
};
use crate::mem::address_space::{slot_used, slot_user, AddressSpaceKind, AddressSpaceView};
use crate::mem::paging::PageFlags;
use crate::seqs::{
    equal_to, first_such, lemma_filter_from, lemma_filter_none, lemma_first_such,
    lemma_first_such_is, lemma_swap_remove,
};

verus! {

/// The pages of the user slot.
pub const USER_PAGES: u64 = 0x800_0000;

/// The index of a task that runs in user space.
pub open spec fn is_user(idx: usize) -> bool {
    idx == 1 || idx == 2
}

/// The other user task.
pub open spec fn other_user(idx: usize) -> usize {
    if idx == 1 {
        2
    } else {
        1
    }
}

/// Every user page of an address space lies in the user slot.
pub open spec fn in_user_slot(s: AddressSpaceView) -> bool {
    forall|j: int|
        0 <= j < s.slots.len() && slot_user()(#[trigger] s.slots[j]) ==> s.slots[j]->0.page.number
            < USER_PAGES
}

/// No call to map a page outside the user slot.
pub open spec fn calm(sc: Option<Syscall>) -> bool {
    sc matches Some(Syscall::PageMap { page, .. }) ==> page.number < USER_PAGES
}

/// A user task that is dead in the one kernel is dead in the other, in the same state to
/// the last word.
pub open spec fn dead_kept(m: KernelView, n: KernelView) -> bool {
    &&& m.state(1) == TaskState::Dead ==> n.tasks[1] == m.tasks[1]
    &&& m.state(2) == TaskState::Dead ==> n.tasks[2] == m.tasks[2]
}

/// What only the kernel's own doings change is the same in both kernels, and so are the
/// dead.
pub open spec fn kernel_kept(m: KernelView, n: KernelView) -> bool {
    &&& dead_kept(m, n)
    &&& n.features == m.features
    &&& n.spaces[0] == m.spaces[0]
    &&& n.mem_demo_mapped[0] == m.mem_demo_mapped[0]
    &&& n.should_halt == m.should_halt
}

impl KernelView {
    pub open spec fn blocked_on(self, idx: usize, reason: BlockedReason) -> bool {
        is_user(idx) && self.state(idx) == TaskState::Blocked
            && self.tasks[idx as int].blocked_reason == Some(reason)
    }

    /// A user task that waits at an endpoint for some reply.
    pub open spec fn blocked_for_reply(self, idx: usize, e: int) -> bool {
        &&& is_user(idx)
        &&& self.state(idx) == TaskState::Blocked
        &&& self.tasks[idx as int].blocked_reason matches Some(BlockedReason::IpcReply { ep, .. })
        &&& ep.0 == e
    }

    /// What no step of the kernel changes: who is who, and where everybody lives.
    pub open spec fn shape_ok(self) -> bool {
        &&& self.wf()
        &&& forall|i: int|
            0 <= i < MAX_TASKS ==> (#[trigger] self.tasks[i]).id == TaskId((i + 1) as u64)
                && self.tasks[i].address_space_id == AddressSpaceId(i as usize)
        &&& self.spaces[0].kind == AddressSpaceKind::Kernel
        &&& self.spaces[1].kind == AddressSpaceKind::User
        &&& self.spaces[2].kind == AddressSpaceKind::User
        &&& self.spaces[1].root_page_frame is Some
        &&& self.spaces[2].root_page_frame is Some
        &&& self.endpoints[0].id == EndpointId(0)
        &&& self.endpoints[1].id == EndpointId(1)
    }

    /// The ready queue holds the user tasks that are ready, each once.
    pub open spec fn ready_ok(self) -> bool {
        &&& self.ready.no_duplicates()
        &&& forall|i: usize| #[trigger]
            self.ready.contains(i) <==> is_user(i) && self.state(i) == TaskState::Ready
    }

    /// The queue of sleepers holds the user tasks that sleep, each once.
    pub open spec fn waiting_ok(self) -> bool {
        &&& self.waiting.no_duplicates()
        &&& forall|i: usize| #[trigger]
            self.waiting.contains(i) <==> self.blocked_on(i, BlockedReason::Sleep)
    }

    /// An endpoint holds the user tasks that wait there, each once, and for what they wait;
    /// nobody if it is closed.
    pub open spec fn endpoint_ok(self, e: int) -> bool {
        let ep = EndpointId(e as usize);
        let end = self.endpoints[e];
        &&& forall|i: usize|
            (end.recv_waiter == Some(i)) <==> #[trigger] self.blocked_on(
                i,
                BlockedReason::IpcRecv { ep },
            )
        &&& end.send_queue.no_duplicates()
        &&& forall|i: usize| #[trigger]
            end.send_queue.contains(i) <==> self.blocked_on(i, BlockedReason::IpcSend { ep })
        &&& end.reply_queue.no_duplicates()
        &&& forall|i: usize| #[trigger]
            end.reply_queue.contains(i) <==> self.blocked_for_reply(i, e)
        &&& end.is_closed ==> end.recv_waiter is None && end.send_queue.len() == 0
            && end.reply_queue.len() == 0
    }

    /// The kernel task runs or could run; it waits for nothing and asks for nothing.
    pub open spec fn kernel_task_ok(self) -> bool {
        let t = self.tasks[0];
        &&& t.state == TaskState::Running || t.state == TaskState::Ready
        &&& t.blocked_reason is None
        &&& t.pending_syscall is None
        &&& self.current == TASK0_INDEX ==> t.state == TaskState::Running
    }

    /// A user task has a reason to be blocked exactly when it is blocked. It waits only at
    /// endpoints that exist, to send only with a message, and for the reply only of the
    /// other task. It runs only as the current task. Dead, it has nothing left.
    pub open spec fn user_task_ok(self, idx: usize) -> bool {
        let t = self.tasks[idx as int];
        &&& calm(t.pending_syscall)
        &&& in_user_slot(self.spaces[idx as int])
        &&& match t.state {
            TaskState::Ready => t.blocked_reason is None,
            TaskState::Running => t.blocked_reason is None && self.current == idx,
            TaskState::Blocked => match t.blocked_reason {
                None => false,
                Some(BlockedReason::Sleep) => true,
                Some(BlockedReason::IpcRecv { ep }) => ep.0 < MAX_ENDPOINTS,
                Some(BlockedReason::IpcSend { ep }) => ep.0 < MAX_ENDPOINTS
                    && t.pending_send_msg is Some,
                Some(BlockedReason::IpcReply { partner, ep }) => ep.0 < MAX_ENDPOINTS && partner
                    == self.tasks[other_user(idx) as int].id,
            },
            TaskState::Dead => t == t.made_dead() && !self.spaces[idx as int].has_user_mapping(),
        }
    }

    /// A task that waits for a reply waits for one who is alive.
    pub open spec fn partner_alive(self, idx: usize) -> bool {
        self.state(idx) == TaskState::Blocked && self.tasks[idx as int].blocked_reason is Some
            && self.tasks[idx as int].blocked_reason->0 is IpcReply ==> self.state(
            other_user(idx),
        ) != TaskState::Dead
    }

    /// Everything is in its place, though somebody may wait for a reply in vain.
    pub open spec fn loosely_placed(self) -> bool {
        &&& self.shape_ok()
        &&& self.waiting_ok()
        &&& self.ready_ok()
        &&& self.endpoint_ok(0)
        &&& self.endpoint_ok(1)
        &&& self.kernel_task_ok()
        &&& self.user_task_ok(1)
        &&& self.user_task_ok(2)
    }

    /// Everything is in its place, though the current task may not be able to run.
    pub open spec fn placed(self) -> bool {
        self.loosely_placed() && self.partner_alive(1) && self.partner_alive(2)
    }

    /// Everything is in its place, and the current task runs.
    pub open spec fn consistent(self) -> bool {
        self.placed() && self.state(self.current) == TaskState::Running
    }
}

/// The endpoint at which a blocked task waits.
pub open spec fn endpoint_of(reason: BlockedReason) -> Option<EndpointId> {
    match reason {
        BlockedReason::Sleep => None,
        BlockedReason::IpcRecv { ep } => Some(ep),
        BlockedReason::IpcSend { ep } => Some(ep),
        BlockedReason::IpcReply { ep, .. } => Some(ep),
    }
}

impl KernelView {
    /// What a task waits for at an endpoint, if it waits there.
    pub open spec fn waits_at(self, idx: usize, e: int) -> Option<BlockedReason> {
        match self.tasks[idx as int].blocked_reason {
            Some(r) => if self.state(idx) == TaskState::Blocked && endpoint_of(r) == Some(
                EndpointId(e as usize),
            ) {
                Some(r)
            } else {
                None
            },
            None => None,
        }
    }
}

/// An endpoint stays in order while it stays the same, and so does what the tasks wait for
/// there.
pub proof fn lemma_same_endpoint(m: KernelView, n: KernelView, e: int)
    requires
        e == 0 || e == 1,
        m.endpoint_ok(e),
        n.endpoints[e] == m.endpoints[e],
        m.waits_at(1, e) == n.waits_at(1, e),
        m.waits_at(2, e) == n.waits_at(2, e),
    ensures
        n.endpoint_ok(e),
{
    let ep = EndpointId(e as usize);
    assert forall|i: usize|
        (n.endpoints[e].recv_waiter == Some(i)) <==> #[trigger] n.blocked_on(
            i,
            BlockedReason::IpcRecv { ep },
        ) by {
        assert(m.blocked_on(i, BlockedReason::IpcRecv { ep }) == n.blocked_on(
            i,
            BlockedReason::IpcRecv { ep },
        ));
    }
}

/// Two states of an endpoint differ only in what they say of the task `x`.
pub open spec fn differ_only_for(a: EndpointView, b: EndpointView, x: usize) -> bool {
    &&& forall|i: usize|
        #![trigger a.send_queue.contains(i)]
        #![trigger b.send_queue.contains(i)]
        i != x ==> (a.send_queue.contains(i) <==> b.send_queue.contains(i))
    &&& forall|i: usize|
        #![trigger a.reply_queue.contains(i)]
        #![trigger b.reply_queue.contains(i)]
        i != x ==> (a.reply_queue.contains(i) <==> b.reply_queue.contains(i))
    &&& a.recv_waiter == b.recv_waiter || (a.recv_waiter is None && b.recv_waiter == Some(x)) || (
    b.recv_waiter is None && a.recv_waiter == Some(x))
}

/// An endpoint stays in order when one task moves and the endpoint follows it.
pub proof fn lemma_moved_task(m: KernelView, n: KernelView, e: int, x: usize)
    requires
        e == 0 || e == 1,
        is_user(x),
        m.endpoint_ok(e),
        n.endpoints[e].is_closed ==> n.endpoints[e].recv_waiter is None
            && n.endpoints[e].send_queue.len() == 0 && n.endpoints[e].reply_queue.len() == 0,
        m.waits_at(other_user(x), e) == n.waits_at(other_user(x), e),
        differ_only_for(m.endpoints[e], n.endpoints[e], x),
        n.endpoints[e].send_queue.no_duplicates(),
        n.endpoints[e].reply_queue.no_duplicates(),
        (n.endpoints[e].recv_waiter == Some(x)) <==> n.blocked_on(
            x,
            BlockedReason::IpcRecv { ep: EndpointId(e as usize) },
        ),
        n.endpoints[e].send_queue.contains(x) <==> n.blocked_on(
            x,
            BlockedReason::IpcSend { ep: EndpointId(e as usize) },
        ),
        n.endpoints[e].reply_queue.contains(x) <==> n.blocked_for_reply(x, e),
    ensures
        n.endpoint_ok(e),
{
    let ep = EndpointId(e as usize);
    let a = m.endpoints[e];
    let b = n.endpoints[e];
    assert forall|i: usize|
        (b.recv_waiter == Some(i)) <==> #[trigger] n.blocked_on(
            i,
            BlockedReason::IpcRecv { ep },
        ) by {
        assert((a.recv_waiter == Some(i)) <==> m.blocked_on(i, BlockedReason::IpcRecv { ep }));
    }
    assert forall|i: usize| #[trigger]
        b.send_queue.contains(i) <==> n.blocked_on(i, BlockedReason::IpcSend { ep }) by {
        assert(a.send_queue.contains(i) <==> m.blocked_on(i, BlockedReason::IpcSend { ep }));
    }
    assert forall|i: usize| #[trigger]
        b.reply_queue.contains(i) <==> n.blocked_for_reply(i, e) by {
        assert(a.reply_queue.contains(i) <==> m.blocked_for_reply(i, e));
    }
}

/// The ready queue stays in order when one task moves and the queue follows it.
pub proof fn lemma_moved_ready(m: KernelView, n: KernelView, x: usize)
    requires
        is_user(x),
        m.ready_ok(),
        n.ready.no_duplicates(),
        n.state(other_user(x)) == m.state(other_user(x)),
        forall|i: usize|
            #![trigger m.ready.contains(i)]
            #![trigger n.ready.contains(i)]
            i != x ==> (m.ready.contains(i) <==> n.ready.contains(i)),
        n.ready.contains(x) <==> n.state(x) == TaskState::Ready,
    ensures
        n.ready_ok(),
{
    assert forall|i: usize| #[trigger]
        n.ready.contains(i) <==> is_user(i) && n.state(i) == TaskState::Ready by {
        assert(m.ready.contains(i) <==> is_user(i) && m.state(i) == TaskState::Ready);
    }
}

/// A task leaves the queue of sleepers, and nobody else does.
pub proof fn lemma_dequeued(m: KernelView, idx: usize)
    requires
        m.waiting.no_duplicates(),
    ensures
        ({
            let n = m.dequeue_wait(idx);
            &&& n == (KernelView { waiting: n.waiting, events: n.events, ..m })
            &&& n.waiting.no_duplicates()
            &&& n.waiting.len() <= m.waiting.len()
            &&& forall|i: usize| #[trigger] n.waiting.contains(i) ==> m.waiting.contains(i)
            &&& forall|i: usize| #[trigger]
                m.waiting.contains(i) && i != idx ==> n.waiting.contains(i)
            &&& idx < MAX_TASKS ==> !n.waiting.contains(idx)
        }),
{
    if idx < MAX_TASKS {
        lemma_first_such(m.waiting, equal_to(idx));
        match first_such(m.waiting, equal_to(idx)) {
            Some(pos) => lemma_swap_remove(m.waiting, pos),
            None => {
                if m.waiting.contains(idx) {
                    let k = choose|k: int| 0 <= k < m.waiting.len() && m.waiting[k] == idx;
                    assert(!equal_to(idx)(m.waiting[k]));
                }
            },
        }
    }
}

proof fn lemma_id_is_index(m: KernelView, i: int)
    requires
        m.shape_ok(),
        0 <= i < MAX_TASKS,
    ensures
        m.task_with_id(m.tasks[i].id) == Some(i),
{
    lemma_first_such_is(m.tasks, has_id(m.tasks[i].id), i);
}

proof fn lemma_endpoint_has_no_violations(m: KernelView, e: int)
    requires
        m.consistent(),
        e == 0 || e == 1,
    ensures
        m.endpoint_lines(e).len() == 0,
{
    let end = m.endpoints[e];
    lemma_id_is_index(m, 1);
    lemma_id_is_index(m, 2);
    assert(m.endpoint_ok(e));
    assert(m.closed_lines(e).len() == 0);
    assert(m.receiver_lines(e).len() == 0) by {
        if let Some(i) = end.recv_waiter {
            assert(m.blocked_on(i, BlockedReason::IpcRecv { ep: end.id }));
        }
    }
    assert forall|pos: int| 0 <= pos < end.send_queue.len() implies (#[trigger] m.sender_lines_at(
        e,
    )(pos)).len() == 0 by {
        assert(end.send_queue.contains(end.send_queue[pos]));
    }
    lemma_no_lines(end.send_queue.len() as int, m.sender_lines_at(e));
    assert forall|pos: int| 0 <= pos < end.reply_queue.len() implies (
    #[trigger] m.reply_waiter_lines_at(e)(pos)).len() == 0 by {
        assert(end.reply_queue.contains(end.reply_queue[pos]));
    }
    lemma_no_lines(end.reply_queue.len() as int, m.reply_waiter_lines_at(e));
}

proof fn lemma_space_has_no_violations(m: KernelView, i: int)
    requires
        m.consistent(),
        i == 1 || i == 2,
    ensures
        m.user_mapping_lines(i).len() == 0,
        !m.spaces[i].has_user_mapping() ==> m.spaces[i].user_pages().len() == 0,
{
    let s = m.spaces[i];
    let used = s.slots.filter(slot_used());
    lemma_filter_from(s.slots, slot_used());
    assert forall|j: int| 0 <= j < s.mappings().len() implies (#[trigger] m.mapping_lines_at(i)(
        j,
    )).len() == 0 by {
        assert(s.slots.contains(used[j]));
        let k = choose|k: int| 0 <= k < s.slots.len() && s.slots[k] == used[j];
        assert(s.mappings()[j] == s.slots[k]->0);
        if s.mappings()[j].flags.spec_contains(PageFlags::user()) {
            assert(slot_user()(s.slots[k]));
        }
    }
    lemma_no_lines(s.mappings().len() as int, m.mapping_lines_at(i));
    if !s.has_user_mapping() {
        assert forall|j: int| 0 <= j < s.slots.len() implies !slot_user()(
            #[trigger] s.slots[j],
        ) by {}
        lemma_filter_none(s.slots, slot_user());
    }
}

/// The self-check has nothing to say about a consistent kernel.
pub proof fn law_consistent_kernel_has_no_violations(m: KernelView)
    requires
        m.consistent(),
    ensures
        m.violations() == Seq::<LogLine>::empty(),
{
    reveal(KernelView::violations);
    lemma_id_is_index(m, 1);
    lemma_id_is_index(m, 2);
    lemma_endpoint_has_no_violations(m, 0);
    lemma_endpoint_has_no_violations(m, 1);
    lemma_space_has_no_violations(m, 1);
    lemma_space_has_no_violations(m, 2);
    assert(m.kernel_space_lines().len() == 0);
    assert(m.user_space_lines(1).len() == 0);
    assert(m.user_space_lines(2).len() == 0);
    assert forall|i: int| 0 <= i < MAX_TASKS implies (#[trigger] m.task_state_lines_at()(i)).len()
        == 0 by {
        assert(i == 0 || i == 1 || i == 2);
    }
    lemma_no_lines(MAX_TASKS as int, m.task_state_lines_at());
    assert forall|i: int| 0 <= i < MAX_ENDPOINTS implies (#[trigger] m.endpoint_lines_at()(
        i,
    )).len() == 0 by {
        assert(i == 0 || i == 1);
    }
    lemma_no_lines(MAX_ENDPOINTS as int, m.endpoint_lines_at());
    assert forall|i: int| 0 <= i < MAX_TASKS implies (#[trigger] m.dead_task_lines_at()(i)).len()
        == 0 by {
        assert(i == 0 || i == 1 || i == 2);
        assert(m.ready.contains(i as usize) ==> m.state(i as usize) == TaskState::Ready);
    }
    lemma_no_lines(MAX_TASKS as int, m.dead_task_lines_at());
    assert forall|pos: int| 0 <= pos < m.waiting.len() implies (#[trigger] m.waiting_lines_at()(
        pos,
    )).len() == 0 by {
        assert(m.waiting.contains(m.waiting[pos]));
    }
    lemma_no_lines(m.waiting.len() as int, m.waiting_lines_at());
    assert forall|i: int| 0 <= i < MAX_TASKS implies (#[trigger] m.sleeper_lines_at()(i)).len()
        == 0 by {
        assert(i == 0 || i == 1 || i == 2);
    }
    lemma_no_lines(MAX_TASKS as int, m.sleeper_lines_at());
    assert forall|i: int| 0 <= i < MAX_TASKS implies (#[trigger] m.blocked_task_lines_at()(
        i,
    )).len() == 0 by {
        lemma_blocked_task_has_no_violations(m, i);
    }
    lemma_no_lines(MAX_TASKS as int, m.blocked_task_lines_at());
    assert(m.violations() =~= Seq::empty());
}

proof fn lemma_blocked_task_has_no_violations(m: KernelView, i: int)
    requires
        m.consistent(),
        0 <= i < MAX_TASKS,
    ensures
        m.blocked_task_lines(i).len() == 0,
{
    lemma_id_is_index(m, 1);
    lemma_id_is_index(m, 2);
    let idx = i as usize;
    assert(i == 0 || i == 1 || i == 2);
    if i != 0 && m.tasks[i].state == TaskState::Blocked {
        match m.tasks[i].blocked_reason {
            Some(BlockedReason::IpcRecv { ep }) => {
                assert(m.endpoint_ok(ep.0 as int));
                assert(m.blocked_on(idx, BlockedReason::IpcRecv { ep }));
            },
            Some(BlockedReason::IpcSend { ep }) => {
                assert(m.endpoint_ok(ep.0 as int));
                assert(m.endpoints[ep.0 as int].send_queue.contains(idx));
            },
            Some(BlockedReason::IpcReply { partner, ep }) => {
                assert(m.endpoint_ok(ep.0 as int));
                assert(m.endpoints[ep.0 as int].reply_queue.contains(idx));
            },
            _ => {},
        }
    }
}

} // verus!
