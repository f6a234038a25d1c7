//! The self-check is exact: it is silent exactly where all that it looks after is in order,
//! and what it reports names who is to blame.

use vstd::prelude::*;

use crate::arch::virt_layout::USER_SPACE_SIZE;
use crate::kernel::invariants::has_id;
use crate::kernel::lines::{lines_for, tells};
use crate::kernel::model::KernelView;
use crate::kernel::types::{
    BlockedReason, EndpointId, LogLine, TaskId, TaskState, MAX_ENDPOINTS, MAX_TASKS,
};
use crate::mem::address_space::{
    slot_used, slot_user, AddressSpaceKind, AddressSpaceView, Mapping,
};
use crate::mem::paging::PageFlags;
use crate::seqs::{lemma_filter_from, lemma_first_such};

verus! {

proof fn lemma_silent(n: int, f: spec_fn(int) -> Seq<LogLine>)
    ensures
        lines_for(n, f).len() == 0 <==> forall|i: int| 0 <= i < n ==> (#[trigger] f(i)).len() == 0,
    decreases n,
{
    if n > 0 {
        lemma_silent(n - 1, f);
        if forall|i: int| 0 <= i < n ==> (#[trigger] f(i)).len() == 0 {
            assert(f(n - 1).len() == 0);
        } else if lines_for(n, f).len() == 0 {
            assert(f(n - 1).len() == 0);
        }
    }
}

/// The address spaces are what they should be: the first is the kernel's, the others are for
/// users, each has a root, and what is mapped for user space lies in its slot.
pub open spec fn spaces_sound(m: KernelView) -> bool {
    &&& m.spaces[0].kind == AddressSpaceKind::Kernel
    &&& m.spaces[1].kind == AddressSpaceKind::User
    &&& m.spaces[2].kind == AddressSpaceKind::User
    &&& m.spaces[0].root_page_frame is Some
    &&& m.spaces[1].root_page_frame is Some
    &&& m.spaces[2].root_page_frame is Some
    &&& pages_sound(m.spaces[1])
    &&& pages_sound(m.spaces[2])
}

pub open spec fn pages_sound(s: AddressSpaceView) -> bool {
    forall|j: int|
        0 <= j < s.slots.len() && (#[trigger] s.slots[j]) is Some
            && s.slots[j]->0.flags.spec_contains(PageFlags::user()) ==> s.slots[j]->0.page.number
            * 4096 < USER_SPACE_SIZE
}

/// A task is blocked exactly if it has a reason to be, and a dead one has nothing left and
/// stands in no queue.
pub open spec fn task_sound(m: KernelView, i: int) -> bool {
    let t = m.tasks[i];
    let s = m.spaces[t.address_space_id.0 as int];
    &&& t.state == TaskState::Blocked <==> t.blocked_reason is Some
    &&& t.state == TaskState::Dead ==> {
        &&& t.last_msg is None && t.last_reply is None
        &&& t.pending_send_msg is None && t.pending_syscall is None
        &&& !m.ready.contains(i as usize) && !m.waiting.contains(i as usize)
        &&& s.kind == AddressSpaceKind::User ==> forall|j: int|
            0 <= j < s.slots.len() && (#[trigger] s.slots[j]) is Some
                ==> !s.slots[j]->0.flags.spec_contains(PageFlags::user())
    }
}

/// The partner that somebody waits for is dead.
pub open spec fn gone(m: KernelView, id: TaskId) -> bool {
    exists|j: int|
        0 <= j < m.tasks.len() && (#[trigger] m.tasks[j]).id == id && m.tasks[j].state
            == TaskState::Dead && forall|l: int| 0 <= l < j ==> (#[trigger] m.tasks[l]).id != id
}

/// A blocked task stands where its reason says that it waits, and does not sleep otherwise.
pub open spec fn place_sound(m: KernelView, i: int) -> bool {
    let t = m.tasks[i];
    let asleep = m.waiting.contains(i as usize);
    t.state == TaskState::Blocked ==> match t.blocked_reason {
        None => false,
        Some(BlockedReason::Sleep) => asleep,
        Some(BlockedReason::IpcRecv { ep }) => {
            &&& ep.0 < MAX_ENDPOINTS
            &&& m.endpoints[ep.0 as int].recv_waiter == Some(i as usize)
            &&& !asleep
        },
        Some(BlockedReason::IpcSend { ep }) => {
            &&& ep.0 < MAX_ENDPOINTS
            &&& m.endpoints[ep.0 as int].send_queue.contains(i as usize)
            &&& !asleep
        },
        Some(BlockedReason::IpcReply { partner, ep }) => {
            &&& ep.0 < MAX_ENDPOINTS
            &&& m.endpoints[ep.0 as int].reply_queue.contains(i as usize)
            &&& !gone(m, partner)
            &&& !asleep
        },
    }
}

/// Whoever is noted as asleep is a sleeper.
pub open spec fn sleeper_sound(m: KernelView, idx: usize) -> bool {
    &&& idx < MAX_TASKS
    &&& m.state(idx) == TaskState::Blocked
    &&& m.tasks[idx as int].blocked_reason == Some(BlockedReason::Sleep)
}

/// Whoever is noted to wait at an endpoint is no kernel task, and is blocked for this reason.
pub open spec fn waiter_sound(m: KernelView, idx: usize, reason: BlockedReason) -> bool {
    &&& idx < MAX_TASKS
    &&& m.space_of(idx).kind == AddressSpaceKind::User
    &&& m.state(idx) == TaskState::Blocked
    &&& m.tasks[idx as int].blocked_reason == Some(reason)
}

/// The same for one who waits for a reply, of somebody who is not dead.
pub open spec fn reply_waiter_sound(m: KernelView, idx: usize, ep: EndpointId) -> bool {
    &&& idx < MAX_TASKS
    &&& m.space_of(idx).kind == AddressSpaceKind::User
    &&& m.state(idx) == TaskState::Blocked
    &&& m.tasks[idx as int].blocked_reason matches Some(
        BlockedReason::IpcReply { partner, ep: at },
    ) && at == ep && !gone(m, partner)
}

/// Whoever is noted at an endpoint waits there for just that, and nobody is noted at one that
/// is closed.
pub open spec fn endpoint_sound(m: KernelView, i: int) -> bool {
    let e = m.endpoints[i];
    &&& e.is_closed ==> e.recv_waiter is None && e.send_queue.len() == 0 && e.reply_queue.len()
        == 0
    &&& e.recv_waiter matches Some(idx) ==> waiter_sound(
        m,
        idx,
        BlockedReason::IpcRecv { ep: e.id },
    )
    &&& forall|pos: int|
        0 <= pos < e.send_queue.len() ==> waiter_sound(
            m,
            #[trigger] e.send_queue[pos],
            BlockedReason::IpcSend { ep: e.id },
        )
    &&& forall|pos: int|
        0 <= pos < e.reply_queue.len() ==> reply_waiter_sound(
            m,
            #[trigger] e.reply_queue[pos],
            e.id,
        )
}

/// All that the self-check looks after is in order.
pub open spec fn sound(m: KernelView) -> bool {
    &&& spaces_sound(m)
    &&& forall|i: int| 0 <= i < MAX_TASKS ==> #[trigger] task_sound(m, i)
    &&& m.state(m.current) == TaskState::Running
    &&& forall|i: int| 0 <= i < MAX_ENDPOINTS ==> #[trigger] endpoint_sound(m, i)
    &&& forall|pos: int|
        0 <= pos < m.waiting.len() ==> sleeper_sound(m, #[trigger] m.waiting[pos])
    &&& forall|i: int| 0 <= i < MAX_TASKS ==> #[trigger] place_sound(m, i)
}

proof fn lemma_gone(m: KernelView, id: TaskId)
    ensures
        m.is_dead_id(id) <==> gone(m, id),
{
    lemma_first_such(m.tasks, has_id(id));
    if gone(m, id) {
        let j = choose|j: int|
            0 <= j < m.tasks.len() && (#[trigger] m.tasks[j]).id == id && m.tasks[j].state
                == TaskState::Dead && forall|l: int|
                0 <= l < j ==> (#[trigger] m.tasks[l]).id != id;
        assert(has_id(id)(m.tasks[j]));
    }
    if m.is_dead_id(id) {
        let j = m.task_with_id(id)->0;
        assert(has_id(id)(m.tasks[j]));
        assert forall|l: int| 0 <= l < j implies (#[trigger] m.tasks[l]).id != id by {
            assert(!has_id(id)(m.tasks[l]));
        }
    }
}

#[verifier::rlimit(40)]
proof fn lemma_pages(m: KernelView, i: int)
    requires
        m.wf(),
        i == 1 || i == 2,
        m.spaces[i].kind == AddressSpaceKind::User,
    ensures
        m.user_mapping_lines(i).len() == 0 <==> pages_sound(m.spaces[i]),
{
    let s = m.spaces[i];
    let f = s.slots.filter(slot_used());
    let g = m.mapping_lines_at(i);
    lemma_silent(s.mappings().len() as int, g);
    lemma_filter_from(s.slots, slot_used());
    if pages_sound(s) {
        assert forall|j: int| 0 <= j < s.mappings().len() implies (#[trigger] g(j)).len() == 0 by {
            assert(s.slots.contains(f[j]));
            let k = choose|k: int| 0 <= k < s.slots.len() && s.slots[k] == f[j];
            assert(s.slots[k] is Some);
        }
    }
    if m.user_mapping_lines(i).len() == 0 {
        assert forall|j: int|
            0 <= j < s.slots.len() && (#[trigger] s.slots[j]) is Some
                && s.slots[j]->0.flags.spec_contains(PageFlags::user()) implies (
        s.slots[j]->0.page.number * 4096 < USER_SPACE_SIZE) by {
            assert(s.slots.contains(s.slots[j]));
            assert(f.contains(s.slots[j]));
            let k = choose|k: int| 0 <= k < f.len() && f[k] == s.slots[j];
            assert(g(k).len() == 0);
        }
    }
}

#[verifier::rlimit(40)]
proof fn lemma_receiver(m: KernelView, i: int)
    requires
        m.wf(),
        0 <= i < MAX_ENDPOINTS,
    ensures
        m.receiver_lines(i).len() == 0 <==> (m.endpoints[i].recv_waiter matches Some(idx)
            ==> waiter_sound(m, idx, BlockedReason::IpcRecv { ep: m.endpoints[i].id })),
{
}

#[verifier::rlimit(40)]
proof fn lemma_sender(m: KernelView, i: int, pos: int)
    requires
        m.wf(),
        0 <= i < MAX_ENDPOINTS,
        0 <= pos < m.endpoints[i].send_queue.len(),
    ensures
        m.sender_lines(i, pos).len() == 0 <==> waiter_sound(
            m,
            m.endpoints[i].send_queue[pos],
            BlockedReason::IpcSend { ep: m.endpoints[i].id },
        ),
{
}

#[verifier::rlimit(40)]
proof fn lemma_reply_waiter(m: KernelView, i: int, pos: int)
    requires
        m.wf(),
        0 <= i < MAX_ENDPOINTS,
        0 <= pos < m.endpoints[i].reply_queue.len(),
    ensures
        m.reply_waiter_lines(i, pos).len() == 0 <==> reply_waiter_sound(
            m,
            m.endpoints[i].reply_queue[pos],
            m.endpoints[i].id,
        ),
{
    assert forall|id: TaskId| #[trigger] m.is_dead_id(id) <==> gone(m, id) by {
        lemma_gone(m, id);
    }
}

#[verifier::rlimit(40)]
proof fn lemma_endpoint(m: KernelView, i: int)
    requires
        m.wf(),
        0 <= i < MAX_ENDPOINTS,
    ensures
        m.endpoint_lines(i).len() == 0 <==> endpoint_sound(m, i),
{
    let e = m.endpoints[i];
    let f = m.sender_lines_at(i);
    let g = m.reply_waiter_lines_at(i);
    lemma_silent(e.send_queue.len() as int, f);
    lemma_silent(e.reply_queue.len() as int, g);
    lemma_receiver(m, i);
    assert forall|pos: int| 0 <= pos < e.send_queue.len() implies ((#[trigger] f(pos)).len() == 0
        <==> waiter_sound(m, e.send_queue[pos], BlockedReason::IpcSend { ep: e.id })) by {
        lemma_sender(m, i, pos);
    }
    assert forall|pos: int| 0 <= pos < e.reply_queue.len() implies ((#[trigger] g(pos)).len() == 0
        <==> reply_waiter_sound(m, e.reply_queue[pos], e.id)) by {
        lemma_reply_waiter(m, i, pos);
    }
    if m.endpoint_lines(i).len() == 0 {
        assert forall|pos: int| 0 <= pos < e.send_queue.len() implies waiter_sound(
            m,
            #[trigger] e.send_queue[pos],
            BlockedReason::IpcSend { ep: e.id },
        ) by {
            assert(f(pos).len() == 0);
        }
        assert forall|pos: int| 0 <= pos < e.reply_queue.len() implies reply_waiter_sound(
            m,
            #[trigger] e.reply_queue[pos],
            e.id,
        ) by {
            assert(g(pos).len() == 0);
        }
    }
}

proof fn lemma_user_pages_empty(s: AddressSpaceView)
    ensures
        s.user_pages().len() == 0 <==> forall|j: int|
            0 <= j < s.slots.len() && (#[trigger] s.slots[j]) is Some
                ==> !s.slots[j]->0.flags.spec_contains(PageFlags::user()),
{
    let f = s.slots.filter(slot_user());
    lemma_filter_from(s.slots, slot_user());
    if s.user_pages().len() > 0 {
        assert(slot_user()(f[0]) && s.slots.contains(f[0]));
        let k = choose|k: int| 0 <= k < s.slots.len() && s.slots[k] == f[0];
        assert(s.slots[k] is Some);
    } else {
        assert forall|j: int| 0 <= j < s.slots.len() && (#[trigger] s.slots[j]) is Some implies
            !s.slots[j]->0.flags.spec_contains(PageFlags::user()) by {
            if s.slots[j]->0.flags.spec_contains(PageFlags::user()) {
                assert(s.slots.contains(s.slots[j]));
                assert(f.contains(s.slots[j]));
            }
        }
    }
}

#[verifier::rlimit(40)]
proof fn lemma_task(m: KernelView, i: int)
    requires
        m.wf(),
        0 <= i < MAX_TASKS,
    ensures
        m.task_state_lines(i).len() == 0 && m.dead_task_lines(i).len() == 0 <==> task_sound(m, i),
{
    lemma_user_pages_empty(m.spaces[m.tasks[i].address_space_id.0 as int]);
}

#[verifier::rlimit(40)]
proof fn lemma_place(m: KernelView, i: int)
    requires
        m.wf(),
        0 <= i < MAX_TASKS,
    ensures
        m.sleeper_lines(i).len() == 0 && m.blocked_task_lines(i).len() == 0 <==> place_sound(m, i),
{
    assert forall|id: TaskId| #[trigger] m.is_dead_id(id) <==> gone(m, id) by {
        lemma_gone(m, id);
    }
}

proof fn lemma_waiting(m: KernelView, pos: int)
    requires
        m.wf(),
        0 <= pos < m.waiting.len(),
    ensures
        m.waiting_lines(pos).len() == 0 <==> sleeper_sound(m, m.waiting[pos]),
{
}

/// The self-check has nothing to say exactly where all that it looks after is in order.
#[verifier::rlimit(40)]
pub proof fn law_self_check_is_exact(m: KernelView)
    requires
        m.wf(),
    ensures
        m.violations().len() == 0 <==> sound(m),
{
    reveal(KernelView::violations);
    lemma_silent(MAX_TASKS as int, m.task_state_lines_at());
    lemma_silent(MAX_ENDPOINTS as int, m.endpoint_lines_at());
    lemma_silent(MAX_TASKS as int, m.dead_task_lines_at());
    lemma_silent(m.waiting.len() as int, m.waiting_lines_at());
    lemma_silent(MAX_TASKS as int, m.sleeper_lines_at());
    lemma_silent(MAX_TASKS as int, m.blocked_task_lines_at());
    if m.spaces[1].kind == AddressSpaceKind::User {
        lemma_pages(m, 1);
    }
    if m.spaces[2].kind == AddressSpaceKind::User {
        lemma_pages(m, 2);
    }
    if m.violations().len() == 0 {
        assert forall|i: int| 0 <= i < MAX_TASKS implies #[trigger] task_sound(m, i) by {
            lemma_task(m, i);
            assert(m.task_state_lines_at()(i).len() == 0);
            assert(m.dead_task_lines_at()(i).len() == 0);
        }
        assert forall|i: int| 0 <= i < MAX_TASKS implies #[trigger] place_sound(m, i) by {
            lemma_place(m, i);
            assert(m.sleeper_lines_at()(i).len() == 0);
            assert(m.blocked_task_lines_at()(i).len() == 0);
        }
        assert forall|i: int| 0 <= i < MAX_ENDPOINTS implies #[trigger] endpoint_sound(m, i) by {
            lemma_endpoint(m, i);
            assert(m.endpoint_lines_at()(i).len() == 0);
        }
        assert forall|pos: int| 0 <= pos < m.waiting.len() implies sleeper_sound(
            m,
            #[trigger] m.waiting[pos],
        ) by {
            lemma_waiting(m, pos);
            assert(m.waiting_lines_at()(pos).len() == 0);
        }
    }
    if sound(m) {
        lemma_sound_is_silent(m);
    }
}

#[verifier::rlimit(40)]
proof fn lemma_sound_is_silent(m: KernelView)
    requires
        m.wf(),
        sound(m),
    ensures
        forall|i: int|
            0 <= i < MAX_TASKS ==> (#[trigger] m.task_state_lines_at()(i)).len() == 0,
        forall|i: int| 0 <= i < MAX_TASKS ==> (#[trigger] m.dead_task_lines_at()(i)).len() == 0,
        forall|i: int| 0 <= i < MAX_TASKS ==> (#[trigger] m.sleeper_lines_at()(i)).len() == 0,
        forall|i: int|
            0 <= i < MAX_TASKS ==> (#[trigger] m.blocked_task_lines_at()(i)).len() == 0,
        forall|i: int| 0 <= i < MAX_ENDPOINTS ==> (#[trigger] m.endpoint_lines_at()(i)).len() == 0,
        forall|pos: int|
            0 <= pos < m.waiting.len() ==> (#[trigger] m.waiting_lines_at()(pos)).len() == 0,
{
    assert forall|i: int| 0 <= i < MAX_TASKS implies (#[trigger] m.task_state_lines_at()(i)).len()
        == 0 by {
        assert(task_sound(m, i));
        lemma_task(m, i);
    }
    assert forall|i: int| 0 <= i < MAX_TASKS implies (#[trigger] m.dead_task_lines_at()(i)).len()
        == 0 by {
        assert(task_sound(m, i));
        lemma_task(m, i);
    }
    assert forall|i: int| 0 <= i < MAX_TASKS implies (#[trigger] m.sleeper_lines_at()(i)).len()
        == 0 by {
        assert(place_sound(m, i));
        lemma_place(m, i);
    }
    assert forall|i: int| 0 <= i < MAX_TASKS implies (#[trigger] m.blocked_task_lines_at()(
        i,
    )).len() == 0 by {
        assert(place_sound(m, i));
        lemma_place(m, i);
    }
    assert forall|i: int| 0 <= i < MAX_ENDPOINTS implies (#[trigger] m.endpoint_lines_at()(
        i,
    )).len() == 0 by {
        assert(endpoint_sound(m, i));
        lemma_endpoint(m, i);
    }
    assert forall|pos: int| 0 <= pos < m.waiting.len() implies (#[trigger] m.waiting_lines_at()(
        pos,
    )).len() == 0 by {
        lemma_waiting(m, pos);
    }
}

/// What is reported of a task names it.
#[verifier::rlimit(40)]
pub proof fn law_report_names_the_task(m: KernelView, i: int)
    requires
        m.wf(),
        0 <= i < MAX_TASKS,
    ensures
        ({
            let id = m.tasks[i].id.0 as int;
            let a = m.task_state_lines(i);
            let b = m.dead_task_lines(i);
            let c = m.sleeper_lines(i);
            let d = m.blocked_task_lines(i);
            &&& a.len() > 0 ==> tells(a, "task_id", id) && tells(a, "task_index", i)
            &&& b.len() > 0 ==> tells(b, "task_id", id) && tells(b, "task_index", i)
            &&& c.len() > 0 ==> tells(c, "task_id", id)
            &&& d.len() > 0 ==> tells(d, "task_id", id) || tells(d, "waiter_task_id", id)
        }),
{
    let a = m.task_state_lines(i);
    let b = m.dead_task_lines(i);
    let c = m.sleeper_lines(i);
    let d = m.blocked_task_lines(i);
    if a.len() > 0 {
        assert(a[1] is Value && a[2] is Value);
    }
    if b.len() > 0 {
        assert(b[1] is Value && b[2] is Value);
    }
    if c.len() > 0 {
        assert(c[1] is Value);
    }
    if d.len() > 0 {
        assert(d[1] is Value);
    }
}

/// What is reported of one who is noted to receive at an endpoint names the task.
#[verifier::rlimit(40)]
pub proof fn law_report_names_the_receiver(m: KernelView, i: int)
    requires
        m.wf(),
        0 <= i < MAX_ENDPOINTS,
        m.endpoints[i].recv_waiter is Some,
        m.endpoints[i].recv_waiter->0 < MAX_TASKS,
    ensures
        ({
            let l = m.receiver_lines(i);
            let id = m.tasks[m.endpoints[i].recv_waiter->0 as int].id.0 as int;
            l.len() > 0 ==> tells(l, "task_id", id)
        }),
{
    let l = m.receiver_lines(i);
    if l.len() > 0 {
        assert(l.len() > 1);
        assert(l[1] is Value);
    }
}

/// What is reported of one who is noted to send at an endpoint names the task.
#[verifier::rlimit(40)]
pub proof fn law_report_names_the_sender(m: KernelView, i: int, pos: int)
    requires
        m.wf(),
        0 <= i < MAX_ENDPOINTS,
        0 <= pos < m.endpoints[i].send_queue.len(),
        m.endpoints[i].send_queue[pos] < MAX_TASKS,
    ensures
        ({
            let l = m.sender_lines(i, pos);
            let id = m.tasks[m.endpoints[i].send_queue[pos] as int].id.0 as int;
            l.len() > 0 ==> tells(l, "task_id", id)
        }),
{
    let l = m.sender_lines(i, pos);
    if l.len() > 0 {
        assert(l.len() > 1);
        assert(l[1] is Value);
    }
}

/// What is reported of one who is noted to wait for a reply names the task.
#[verifier::rlimit(40)]
pub proof fn law_report_names_the_reply_waiter(m: KernelView, i: int, pos: int)
    requires
        m.wf(),
        0 <= i < MAX_ENDPOINTS,
        0 <= pos < m.endpoints[i].reply_queue.len(),
        m.endpoints[i].reply_queue[pos] < MAX_TASKS,
    ensures
        ({
            let l = m.reply_waiter_lines(i, pos);
            let id = m.tasks[m.endpoints[i].reply_queue[pos] as int].id.0 as int;
            l.len() > 0 ==> tells(l, "task_id", id) || tells(l, "waiter_task_id", id)
        }),
{
    let l = m.reply_waiter_lines(i, pos);
    if l.len() > 0 {
        assert(l.len() > 1);
        assert(l[1] is Value);
    }
}

/// What is reported of one who is noted to sleep names the task.
pub proof fn law_report_names_the_sleeper(m: KernelView, pos: int)
    requires
        m.wf(),
        0 <= pos < m.waiting.len(),
        m.waiting[pos] < MAX_TASKS,
    ensures
        ({
            let l = m.waiting_lines(pos);
            let id = m.tasks[m.waiting[pos] as int].id.0 as int;
            l.len() > 0 ==> tells(l, "task_id", id)
        }),
{
    let l = m.waiting_lines(pos);
    if l.len() > 0 {
        assert(l.len() > 1);
        assert(l[1] is Value);
    }
}

/// What is reported of a page of user space names its address space and the page.
pub proof fn law_report_names_the_page(as_idx: int, mp: Mapping)
    requires
        0 <= as_idx < MAX_TASKS,
    ensures
        ({
            let l = KernelView::mapping_lines(as_idx, mp);
            l.len() > 0 ==> tells(l, "as_idx", as_idx) && tells(
                l,
                "virt_page_index",
                mp.page.number as int,
            )
        }),
{
    let l = KernelView::mapping_lines(as_idx, mp);
    if l.len() > 0 {
        assert(l[1] is Value && l[2] is Value);
    }
}

} // verus!
