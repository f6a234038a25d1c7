//! The pages of a task that dies leave its page table, every one of them and no other.

use vstd::prelude::*;

use crate::kernel::kill::SHOWN_UNMAPS;
use crate::kernel::laws::consistency::{is_user, other_user};
use crate::kernel::laws::death::{
    after_death, lemma_after_death, lemma_bury, lemma_close, lemma_close_all, lemma_close_is,
    lemma_release, lemma_release_is, placed_without, released_at, shut,
};
use crate::kernel::laws::messages::lemma_same_places;
use crate::kernel::laws::scheduling::law_schedule_makes_consistent;
use crate::kernel::laws::switching::{
    law_next_task_runs_in_its_own_space, lemma_chain, only_says, only_switches,
};
use crate::kernel::model::KernelView;
use crate::kernel::types::{
    Effect, EndpointId, KernelCounters, LogEvent, TaskId, TaskKillReason, TaskState, MAX_TASKS,
};
use crate::mem::addr::VirtPage;
use crate::mem::address_space::{slot_user, AddressSpaceKind, AddressSpaceView, Mapping};
use crate::mem::paging::PageFlags;
use crate::seqs::{lemma_filter_from, lemma_filter_pairs};

verus! {

/// The page is mapped for user space.
pub open spec fn has_user_page(s: AddressSpaceView, page: VirtPage) -> bool {
    exists|i: int|
        0 <= i < s.slots.len() && (#[trigger] s.slots[i]) is Some && s.slots[i]->0.page == page
            && s.slots[i]->0.flags.spec_contains(PageFlags::user())
}

/// Between `a` and `b` the machine was told to take the pages that are mapped for user space
/// out of the page table with the address space's root: each of them once, and no other page.
pub open spec fn taken_out(
    a: Seq<Effect>,
    b: Seq<Effect>,
    s: AddressSpaceView,
    as_idx: usize,
) -> bool {
    &&& a.is_prefix_of(b)
    &&& forall|page: VirtPage| #[trigger]
        has_user_page(s, page) ==> exists|i: int|
            a.len() <= i < b.len() && (#[trigger] b[i]) is UnmapInRoot && b[i]->page == page
    &&& forall|i: int|
        a.len() <= i < b.len() && (#[trigger] b[i]) is UnmapInRoot ==> has_user_page(s, b[i]->page)
            && Some(b[i]->UnmapInRoot_root) == s.root_page_frame && b[i]->as_idx == as_idx
    &&& forall|i: int, j: int|
        a.len() <= i < j < b.len() && (#[trigger] b[i]) is UnmapInRoot && (#[trigger] b[j])
            is UnmapInRoot ==> b[i]->page != b[j]->page
}

/// The first four pages that are taken out are looked up after that, and no others.
pub open spec fn four_are_looked_up(a: Seq<Effect>, b: Seq<Effect>) -> bool {
    exists|first: int| #[trigger] looked_up_from(a, b, first)
}

/// The pages are taken out one right after the other from position `first` on, and the first
/// four are looked up.
pub open spec fn looked_up_from(a: Seq<Effect>, b: Seq<Effect>, first: int) -> bool {
    forall|i: int|
        a.len() <= i < b.len() && (#[trigger] b[i]) is UnmapInRoot ==> first <= i && (b[i]->shown
            <==> i < first + 4) && (i > first ==> b[i - 1] is UnmapInRoot)
}

/// The pages mapped for user space, without a repetition.
#[verifier::rlimit(40)]
proof fn lemma_user_pages(s: AddressSpaceView)
    requires
        s.wf(),
    ensures
        s.user_pages().no_duplicates(),
        forall|page: VirtPage|
            #![trigger s.user_pages().contains(page)]
            #![trigger has_user_page(s, page)]
            s.user_pages().contains(page) <==> has_user_page(s, page),
{
    let f = s.slots.filter(slot_user());
    let pages = s.user_pages();
    let apart = |x: Option<Mapping>, y: Option<Mapping>| x->0.page != y->0.page;
    lemma_filter_from(s.slots, slot_user());
    lemma_filter_pairs(s.slots, slot_user(), apart);
    assert forall|a: int, b: int| 0 <= a < pages.len() && 0 <= b < pages.len() && a != b implies
        pages[a] != pages[b] by {
        if a < b {
            assert(apart(f[a], f[b]));
        } else {
            assert(apart(f[b], f[a]));
        }
    }
    assert forall|page: VirtPage| s.user_pages().contains(page) <==> has_user_page(s, page) by {
        if pages.contains(page) {
            let a = choose|a: int| 0 <= a < pages.len() && pages[a] == page;
            assert(slot_user()(f[a]) && s.slots.contains(f[a]));
            let i = choose|i: int| 0 <= i < s.slots.len() && s.slots[i] == f[a];
            assert(s.slots[i] is Some);
        }
        if has_user_page(s, page) {
            let i = choose|i: int|
                0 <= i < s.slots.len() && (#[trigger] s.slots[i]) is Some && s.slots[i]->0.page
                    == page && s.slots[i]->0.flags.spec_contains(PageFlags::user());
            assert(s.slots.contains(s.slots[i]));
            assert(f.contains(s.slots[i]));
            let a = choose|a: int| 0 <= a < f.len() && f[a] == s.slots[i];
            assert(pages[a] == page);
        }
    }
}

/// When the user mappings of an address space go, the machine is told to take every one of
/// their pages out of its page table, and only them; the first few are looked up after that.
#[verifier::rlimit(40)]
pub proof fn law_user_pages_are_taken_out(m: KernelView, as_idx: usize)
    requires
        m.wf(),
        as_idx < MAX_TASKS,
        m.spaces[as_idx as int].kind == AddressSpaceKind::User,
        m.spaces[as_idx as int].root_page_frame is Some,
    ensures
        taken_out(
            m.effects,
            m.drop_user_mappings(as_idx).effects,
            m.spaces[as_idx as int],
            as_idx,
        ),
        four_are_looked_up(m.effects, m.drop_user_mappings(as_idx).effects),
{
    let s = m.spaces[as_idx as int];
    let pages = s.user_pages();
    let n = m.drop_user_mappings(as_idx);
    let k = m.effects.len() + 6;
    lemma_user_pages(s);
    assert(m.effects.is_prefix_of(n.effects));
    assert(n.effects.len() == k + pages.len() + 3);
    assert forall|i: int| m.effects.len() <= i < n.effects.len() implies (#[trigger] n.effects[i]
        is UnmapInRoot <==> k <= i < k + pages.len()) by {}
    assert forall|i: int| k <= i < k + pages.len() implies (#[trigger] n.effects[i])
        == (Effect::UnmapInRoot {
        page: pages[i - k],
        root: s.root_page_frame->0,
        as_idx,
        shown: i - k < SHOWN_UNMAPS,
    }) by {}
    assert(looked_up_from(m.effects, n.effects, k as int));
    assert forall|page: VirtPage| #[trigger] has_user_page(s, page) implies exists|i: int|
        m.effects.len() <= i < n.effects.len() && (#[trigger] n.effects[i]) is UnmapInRoot
            && n.effects[i]->page == page by {
        let a = choose|a: int| 0 <= a < pages.len() && pages[a] == page;
        assert(n.effects[k + a]->page == page);
    }
}

#[verifier::rlimit(40)]
proof fn lemma_bury_takes_out(m: KernelView, k: usize)
    requires
        m.placed(),
        is_user(k),
    ensures
        taken_out(m.effects, m.bury(k).effects, m.space_of(k), k),
{
    reveal(KernelView::bury);
    law_user_pages_are_taken_out(m, k);
    assert(m.bury(k).effects == m.drop_user_mappings(k).effects);
}

#[verifier::rlimit(40)]
proof fn lemma_close_says(m: KernelView, k: usize, e: int)
    requires
        placed_without(m, k),
        e == 0 || e == 1,
    ensures
        only_says(m.effects, m.close_endpoint(EndpointId(e as usize)).effects),
{
    if m.endpoints[e].is_closed {
        reveal(KernelView::close_endpoint);
        assert(m.effects.is_prefix_of(m.effects));
    } else {
        lemma_close_is(m, k, e);
    }
}

#[verifier::rlimit(40)]
proof fn lemma_close_all_says(m: KernelView, k: usize)
    requires
        placed_without(m, k),
    ensures
        only_says(m.effects, m.close_endpoints_of(m.tasks[k as int].id).effects),
{
    let id = m.tasks[k as int].id;
    let f = if m.endpoints[0].owner == Some(id) {
        m.close_endpoint(m.endpoints[0].id)
    } else {
        m
    };
    assert(only_says(m.effects, m.effects));
    if m.endpoints[0].owner == Some(id) {
        lemma_close(m, k, 0);
        lemma_close_says(m, k, 0);
    }
    if m.endpoints[1].owner == Some(id) {
        lemma_close_says(f, k, 1);
        lemma_chain(m.effects, f.effects, m.close_endpoints_of(id).effects);
    }
}

#[verifier::rlimit(40)]
proof fn lemma_release_says(m: KernelView, k: usize)
    requires
        placed_without(m, k),
    ensures
        only_says(m.effects, m.release_reply_waiters(m.tasks[k as int].id).effects),
{
    lemma_release_is(m, k);
    assert(only_says(m.effects, m.effects));
}

/// Orders that take nothing out of a page table may follow.
proof fn lemma_still_taken_out(
    a: Seq<Effect>,
    b: Seq<Effect>,
    c: Seq<Effect>,
    s: AddressSpaceView,
    as_idx: usize,
)
    requires
        taken_out(a, b, s, as_idx),
        only_says(b, c) || only_switches(b, c),
    ensures
        taken_out(a, c, s, as_idx),
{
    assert forall|i: int| 0 <= i < b.len() implies b[i] == c[i] by {
        assert(c[i] == c.subrange(0, b.len() as int)[i]);
    }
    assert forall|i: int| 0 <= i < a.len() implies a[i] == c[i] by {
        assert(b[i] == b.subrange(0, a.len() as int)[i]);
    }
    assert(a.is_prefix_of(c));
    assert forall|page: VirtPage| #[trigger] has_user_page(s, page) implies exists|i: int|
        a.len() <= i < c.len() && (#[trigger] c[i]) is UnmapInRoot && c[i]->page == page by {
        let i = choose|i: int|
            a.len() <= i < b.len() && (#[trigger] b[i]) is UnmapInRoot && b[i]->page == page;
        assert(c[i] == b[i]);
    }
}

#[verifier::rlimit(40)]
proof fn lemma_death_takes_out(m: KernelView, k: usize, reason: TaskKillReason)
    requires
        m.placed(),
        is_user(k),
    ensures
        taken_out(m.effects, after_death(m, k, reason).effects, m.space_of(k), k),
{
    let id = m.tasks[k as int].id;
    let c = m.count_kill(reason);
    lemma_same_places(m, c);
    let b = c.bury(k);
    lemma_bury(c, k);
    lemma_bury_takes_out(c, k);
    lemma_close_all(b, k);
    lemma_close_all_says(b, k);
    let g = b.close_endpoints_of(id);
    lemma_still_taken_out(m.effects, b.effects, g.effects, m.space_of(k), k);
    lemma_release_says(g, k);
    let r = g.release_reply_waiters(id);
    lemma_still_taken_out(m.effects, g.effects, r.effects, m.space_of(k), k);
}

/// When a user task is killed, the machine is told to take every page that it had mapped for
/// user space out of its own page table, each of them once, and no other page of any page
/// table.
#[verifier::rlimit(40)]
pub proof fn law_kill_takes_the_user_pages_out(m: KernelView, k: usize, reason: TaskKillReason)
    requires
        m.consistent(),
        is_user(k),
    ensures
        taken_out(
            m.effects,
            m.kill(k, reason).effects,
            m.spaces[m.tasks[k as int].address_space_id.0 as int],
            k,
        ),
{
    reveal(KernelView::kill);
    lemma_after_death(m, k, reason);
    lemma_death_takes_out(m, k, reason);
    let n = after_death(m, k, reason);
    if k == m.current {
        law_next_task_runs_in_its_own_space(n);
        lemma_still_taken_out(
            m.effects,
            n.effects,
            m.kill(k, reason).effects,
            m.space_of(k),
            k,
        );
    }
}

/// The two kernels have the same mappings, frames and counters.
spec fn only_moved(m: KernelView, n: KernelView) -> bool {
    &&& n.spaces == m.spaces
    &&& n.frames == m.frames
    &&& n.mem_demo_frame == m.mem_demo_frame
    &&& n.mem_demo_mapped == m.mem_demo_mapped
    &&& n.mem_demo_stage == m.mem_demo_stage
    &&& n.counters == m.counters
}

#[verifier::rlimit(40)]
proof fn lemma_sending_on_only_moves(m: KernelView, o: usize, e: int, drop: bool, dead: TaskId)
    ensures
        only_moved(m, shut(m, e)),
        only_moved(m, shut(m, e).rescue_at_close(o, drop)),
        only_moved(m, released_at(m, o, e, dead)),
{
}

#[verifier::rlimit(40)]
proof fn lemma_close_only_moves(m: KernelView, k: usize, e: int)
    requires
        placed_without(m, k),
        e == 0 || e == 1,
    ensures
        only_moved(m, m.close_endpoint(EndpointId(e as usize))),
{
    if m.endpoints[e].is_closed {
        reveal(KernelView::close_endpoint);
    } else {
        lemma_close_is(m, k, e);
        let o = other_user(k);
        lemma_sending_on_only_moves(m, o, e, m.waits_at(o, e)->0 is IpcSend, m.tasks[0].id);
    }
}

#[verifier::rlimit(40)]
proof fn lemma_close_all_only_moves(m: KernelView, k: usize)
    requires
        placed_without(m, k),
    ensures
        only_moved(m, m.close_endpoints_of(m.tasks[k as int].id)),
{
    let id = m.tasks[k as int].id;
    let f = if m.endpoints[0].owner == Some(id) {
        m.close_endpoint(m.endpoints[0].id)
    } else {
        m
    };
    if m.endpoints[0].owner == Some(id) {
        lemma_close(m, k, 0);
        lemma_close_only_moves(m, k, 0);
    }
    if m.endpoints[1].owner == Some(id) {
        lemma_close_only_moves(f, k, 1);
    }
}

/// Nothing is left of the user task `k` that was killed, and nothing of anybody else was
/// touched: its address space has lost its user mappings and nothing more, its memory demo
/// begins anew without a frame, and it has no word left. A kill is counted if it was for a
/// page fault.
pub open spec fn nothing_left(
    m: KernelView,
    n: KernelView,
    k: usize,
    reason: TaskKillReason,
) -> bool {
    let s = m.spaces[k as int];
    let r = n.spaces[k as int];
    let t = n.tasks[k as int];
    &&& r.kind == s.kind && r.root_page_frame == s.root_page_frame && r.slots.len()
        == s.slots.len()
    &&& forall|j: int|
        0 <= j < s.slots.len() ==> #[trigger] r.slots[j] == if s.slots[j] is Some
            && s.slots[j]->0.flags.spec_contains(PageFlags::user()) {
            None
        } else {
            s.slots[j]
        }
    &&& n.mem_demo_frame[k as int] is None && !n.mem_demo_mapped[k as int]
        && n.mem_demo_stage[k as int] == 0
    &&& forall|i: int|
        #![trigger n.spaces[i]]
        0 <= i < MAX_TASKS && i != k ==> n.spaces[i] == m.spaces[i] && n.mem_demo_frame[i]
            == m.mem_demo_frame[i] && n.mem_demo_mapped[i] == m.mem_demo_mapped[i]
            && n.mem_demo_stage[i] == m.mem_demo_stage[i]
    &&& t.id == m.tasks[k as int].id && t.last_msg is None && t.last_reply is None
        && t.pending_send_msg is None && t.pending_syscall is None && t.last_syscall_ret is None
        && t.blocked_reason is None
    &&& n.frames == m.frames
    &&& n.counters == KernelCounters {
        task_killed_user_pf: if reason is UserPageFault {
            (m.counters.task_killed_user_pf + 1) as u64
        } else {
            m.counters.task_killed_user_pf
        },
        sched_switches: n.counters.sched_switches,
        ..m.counters
    }
}

#[verifier::rlimit(40)]
proof fn lemma_bury_leaves_nothing(m: KernelView, k: usize, reason: TaskKillReason)
    requires
        m.placed(),
        is_user(k),
    ensures
        nothing_left(m, m.count_kill(reason).bury(k), k, reason),
{
    reveal(KernelView::bury);
    let b = m.count_kill(reason).bury(k);
    assert(b.tasks[k as int] == m.tasks[k as int].made_dead());
    assert(b.spaces == m.spaces.update(k as int, m.spaces[k as int].without_user_mappings()));
}

/// Saying something and moving others around leaves the same behind.
proof fn lemma_still_nothing_left(
    m: KernelView,
    b: KernelView,
    n: KernelView,
    k: usize,
    reason: TaskKillReason,
)
    requires
        nothing_left(m, b, k, reason),
        n.tasks[k as int] == b.tasks[k as int],
        n.spaces == b.spaces,
        n.frames == b.frames,
        n.mem_demo_frame == b.mem_demo_frame,
        n.mem_demo_mapped == b.mem_demo_mapped,
        n.mem_demo_stage == b.mem_demo_stage,
        n.counters == (KernelCounters {
            sched_switches: n.counters.sched_switches,
            ..b.counters
        }),
    ensures
        nothing_left(m, n, k, reason),
{
}

#[verifier::rlimit(40)]
proof fn lemma_death_leaves_nothing(m: KernelView, k: usize, reason: TaskKillReason)
    requires
        m.placed(),
        is_user(k),
    ensures
        nothing_left(m, after_death(m, k, reason), k, reason),
{
    let id = m.tasks[k as int].id;
    let c = m.count_kill(reason);
    lemma_same_places(m, c);
    let b = c.bury(k);
    lemma_bury(c, k);
    lemma_bury_leaves_nothing(m, k, reason);
    lemma_close_all(b, k);
    lemma_close_all_only_moves(b, k);
    let g = b.close_endpoints_of(id);
    lemma_still_nothing_left(m, b, g, k, reason);
    lemma_release(g, k);
    lemma_release_is(g, k);
    let r = g.release_reply_waiters(id);
    lemma_sending_on_only_moves(g, other_user(k), 0, false, id);
    lemma_sending_on_only_moves(g, other_user(k), 1, false, id);
    lemma_still_nothing_left(m, g, r, k, reason);
}

/// Whoever is killed leaves nothing behind, and takes nothing of anybody else's along. The
/// log tells who was killed and why, and then that the task is dead.
#[verifier::rlimit(40)]
pub proof fn law_kill_leaves_nothing_of_the_task(m: KernelView, k: usize, reason: TaskKillReason)
    requires
        m.consistent(),
        is_user(k),
    ensures
        nothing_left(m, m.kill(k, reason), k, reason),
        k != m.current ==> ({
            let n = m.kill(k, reason);
            let id = m.tasks[k as int].id;
            let last = n.events.len() - 1;
            &&& n.current == m.current
            &&& last >= 1
            &&& n.events[last - 1] == LogEvent::TaskKilled { task: id, reason }
            &&& n.events[last] == LogEvent::TaskStateChanged(id, TaskState::Dead)
        }),
{
    reveal(KernelView::kill);
    lemma_after_death(m, k, reason);
    lemma_death_leaves_nothing(m, k, reason);
    let n = after_death(m, k, reason);
    if k == m.current {
        law_schedule_makes_consistent(n);
        law_next_task_runs_in_its_own_space(n);
        lemma_still_nothing_left(m, n, n.schedule(), k, reason);
    }
}

} // verus!
