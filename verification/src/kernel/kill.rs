//! The end of a task: it leaves every queue, its user mappings go, its endpoints close,
//! and whoever waits for it is sent on.

use vstd::prelude::*;

use crate::arch::paging::PageFaultInfo;
use crate::arch::virt_layout::USER_SPACE_BASE;
use crate::kernel::endpoint::EndpointView;
use crate::kernel::ipc::IPC_ERR_DEAD_PARTNER;
use crate::kernel::lines::{error, info, lines_if, push_error, push_info, push_value, value};
use crate::kernel::model::KernelView;
use crate::kernel::state::KernelState;
use crate::kernel::types::{
    BlockedReason, DemoProgress, Effect, EndpointId, KernelCounters, LogEvent, LogLine, Task,
    TaskId, TaskKillReason, TaskState, MAX_ENDPOINTS, MAX_TASKS,
};
use crate::mem::addr::{PhysFrame, VirtPage};
use crate::mem::address_space::{AddressSpaceKind, AddressSpaceView};
use crate::seqs::{other_than, swap_remove};

verus! {

broadcast use crate::mem::address_space::lemma_view;

/// What is said where the kernel task had the page fault.
pub const KERNEL_FAULT_LINE: &'static str =
    "KERNEL CONTEXT PAGE FAULT (during guarded user access) => treat as user fault and kill";

/// What is said where the mappings of a task cannot be taken out.
pub const NO_ROOT_LINE: &'static str = "cleanup_user_mappings: user root_page_frame is None";

/// How many pages of a dead task are looked up after they were taken out.
pub const SHOWN_UNMAPS: usize = 4;

/// Taking pages out of a page table, one after the other. The first few are looked up.
pub open spec fn unmaps(pages: Seq<VirtPage>, root: PhysFrame, as_idx: usize) -> Seq<Effect> {
    Seq::new(
        pages.len(),
        |i: int|
            Effect::UnmapInRoot { page: pages[i], root, as_idx, shown: i < SHOWN_UNMAPS },
    )
}

/// What is said after a page of a dead task was to be taken out of its page table.
pub open spec fn unmapped_lines(page: VirtPage, as_idx: usize, shown: bool, ok: bool) -> Seq<
    LogLine,
> {
    if !ok {
        seq![
            error("cleanup_user_mappings: arch unmap failed; abort (fail-stop)"),
            value("as_idx", as_idx as u64),
            value("virt_page_index", page.number),
        ]
    } else {
        lines_if(
            shown,
            seq![
                info("cleanup_user_mappings: debug_translate_after_unmap"),
                value("virt_addr", (USER_SPACE_BASE + page.number * 4096) as u64),
            ],
        )
    }
}

/// Says what came of taking a page of a dead task out of its page table. Gives the address
/// that is to be looked up, if it is.
pub fn show_unmapped(
    page: &VirtPage,
    as_idx: usize,
    shown: bool,
    ok: bool,
    out: &mut Vec<LogLine>,
) -> (addr: Option<u64>)
    requires
        USER_SPACE_BASE + page.number * 4096 <= u64::MAX,
    ensures
        final(out)@ == old(out)@ + unmapped_lines(*page, as_idx, shown, ok),
        addr == (if ok && shown {
            Some((USER_SPACE_BASE + page.number * 4096) as u64)
        } else {
            None
        }),
{
    let mut addr: Option<u64> = None;
    if !ok {
        push_error(out, "cleanup_user_mappings: arch unmap failed; abort (fail-stop)");
        push_value(out, "as_idx", as_idx as u64);
        push_value(out, "virt_page_index", page.number);
    } else if shown {
        let virt_addr: u64 = USER_SPACE_BASE + page.start_address().0;
        push_info(out, "cleanup_user_mappings: debug_translate_after_unmap");
        push_value(out, "virt_addr", virt_addr);
        addr = Some(virt_addr);
    }
    assert(out@ =~= old(out)@ + unmapped_lines(*page, as_idx, shown, ok));
    addr
}

impl KernelView {
    /// No endpoint knows the task any more.
    pub open spec fn forget_waiter(self, idx: usize) -> KernelView {
        self.put_endpoint(0, self.endpoints[0].without_task(idx)).put_endpoint(
            1,
            self.endpoints[1].without_task(idx),
        )
    }

    /// A task index that stands for a task blocked on a reply of `partner` at `ep`.
    pub open spec fn blocked_on_reply(self, idx: usize, ep: EndpointId, partner: TaskId) -> bool {
        idx < MAX_TASKS && self.state(idx) == TaskState::Blocked
            && self.tasks[idx as int].blocked_reason == Some(
            BlockedReason::IpcReply { partner, ep },
        )
    }

    /// It is said that a task that waited for a reply of a dead one is sent on.
    pub open spec fn say_released(self, waiter: TaskId, dead: TaskId) -> KernelView {
        self.error("ipc: reply waiter rescued due to DEAD partner").value(
            "waiter_task_id",
            waiter.0,
        ).value("dead_partner_task_id", dead.0)
    }

    /// From position `pos` of the reply queue of endpoint `i` on, whoever waits for a reply
    /// of the dead task leaves the queue and gets an error; `woken` collects them.
    pub open spec fn release_from(
        self,
        i: int,
        pos: int,
        dead: TaskId,
        woken: Seq<usize>,
    ) -> (KernelView, Seq<usize>)
        decreases self.endpoints[i].reply_queue.len() - pos,
    {
        if i < 0 || i >= self.endpoints.len() || pos < 0 || pos
            >= self.endpoints[i].reply_queue.len() {
            (self, woken)
        } else {
            let e = self.endpoints[i];
            let w = e.reply_queue[pos];
            if self.blocked_on_reply(w, e.id, dead) {
                self.put_endpoint(
                    i,
                    EndpointView { reply_queue: swap_remove(e.reply_queue, pos), ..e },
                ).put_task(
                    w as int,
                    Task {
                        blocked_reason: None,
                        last_reply: Some(IPC_ERR_DEAD_PARTNER),
                        ..self.tasks[w as int]
                    },
                ).say_released(self.tasks[w as int].id, dead).release_from(
                    i,
                    pos,
                    dead,
                    if woken.len() < MAX_TASKS {
                        woken.push(w)
                    } else {
                        woken
                    },
                )
            } else {
                self.release_from(i, pos + 1, dead, woken)
            }
        }
    }

    /// Wakes tasks, the first one first.
    pub open spec fn wake_all(self, list: Seq<usize>) -> KernelView
        decreases list.len(),
    {
        if list.len() == 0 {
            self
        } else {
            self.wake_all(list.drop_last()).wake(list.last())
        }
    }

    /// Nobody waits for a reply of the dead task any more.
    #[verifier::opaque]
    pub open spec fn release_reply_waiters(self, dead: TaskId) -> KernelView {
        let (m, woken) = self.release_from(0, 0, dead, Seq::empty());
        let (n, all) = m.release_from(1, 0, dead, woken);
        n.wake_all(all)
    }

    /// A user address space has a root. Without one its mappings cannot be taken out of the
    /// page table.
    pub open spec fn is_rooted(self, as_idx: usize) -> bool {
        as_idx < MAX_TASKS && self.spaces[as_idx as int].kind == AddressSpaceKind::User
            ==> self.spaces[as_idx as int].root_page_frame is Some
    }

    /// A task whose mappings can be taken out of the page table.
    pub open spec fn can_be_killed(self, idx: usize) -> bool {
        idx < MAX_TASKS ==> self.is_rooted(self.tasks[idx as int].address_space_id.0)
    }

    /// The user mappings of an address space go, from the kernel's record and from the page
    /// table.
    pub open spec fn drop_user_mappings(self, as_idx: usize) -> KernelView {
        if as_idx >= MAX_TASKS || self.spaces[as_idx as int].kind != AddressSpaceKind::User {
            self
        } else {
            let s = self.spaces[as_idx as int];
            let pages = s.user_pages();
            let left = s.without_user_mappings().mappings().len();
            let m = self.say_cleanup(as_idx, s).put_space(
                as_idx as int,
                s.without_user_mappings(),
            ).value("cleanup_user_mappings: after clear mapping_count", left as u64);
            KernelView {
                effects: m.effects + unmaps(pages, s.root_page_frame->0, as_idx),
                ..m
            }.value("cleanup_user_mappings: arch_unmap_applied", pages.len() as u64).value(
                "cleanup_user_mappings: after unmap mapping_count",
                left as u64,
            ).info("cleanup_user_mappings: done")
        }
    }

    /// What is said before the user mappings of an address space go.
    pub open spec fn say_cleanup(self, as_idx: usize, s: AddressSpaceView) -> KernelView {
        self.info("cleanup_user_mappings: start").value("as_idx", as_idx as u64).value(
            "root_page_frame_index",
            s.root_page_frame->0.number,
        ).value(
            "cleanup_user_mappings: before clear mapping_count",
            s.mappings().len() as u64,
        ).value("cleanup_user_mappings: collected_user_pages", s.user_pages().len() as u64)
    }

    /// The endpoints of a task close.
    pub open spec fn close_endpoints_of(self, owner: TaskId) -> KernelView {
        let m = if self.endpoints[0].owner == Some(owner) {
            self.close_endpoint(self.endpoints[0].id)
        } else {
            self
        };
        if self.endpoints[1].owner == Some(owner) {
            m.close_endpoint(self.endpoints[1].id)
        } else {
            m
        }
    }

    /// The task is dead, out of every queue, with nothing left of it.
    #[verifier::opaque]
    pub open spec fn bury(self, idx: usize) -> KernelView {
        let m = KernelView {
            ready: self.ready.filter(other_than(idx)),
            ..self
        }.dequeue_wait(idx).forget_waiter(idx).put_task(
            idx as int,
            self.tasks[idx as int].made_dead(),
        );
        KernelView {
            mem_demo_stage: m.mem_demo_stage.update(idx as int, 0),
            mem_demo_mapped: m.mem_demo_mapped.update(idx as int, false),
            mem_demo_frame: m.mem_demo_frame.update(idx as int, None),
            demo: DemoProgress { early_sent_by_task0: false, ..m.demo },
            ..m
        }.drop_user_mappings(self.tasks[idx as int].address_space_id.0)
    }

    /// Kills by page fault are counted.
    pub open spec fn count_kill(self, reason: TaskKillReason) -> KernelView {
        match reason {
            TaskKillReason::UserPageFault { .. } => self.put_counters(
                KernelCounters {
                    task_killed_user_pf: (self.counters.task_killed_user_pf + 1) as u64,
                    ..self.counters
                },
            ),
            TaskKillReason::DemoInjected { .. } => self,
        }
    }

    /// A task is killed. Closing its endpoints comes before releasing those that wait for
    /// its reply. If it was the current task, another one runs.
    #[verifier::opaque]
    pub open spec fn kill(self, idx: usize, reason: TaskKillReason) -> KernelView {
        let m = self.count_kill(reason);
        if idx >= MAX_TASKS {
            m
        } else {
            let id = self.tasks[idx as int].id;
            let k = m.bury(idx).close_endpoints_of(id).release_reply_waiters(id).log(
                LogEvent::TaskKilled { task: id, reason },
            ).log(LogEvent::TaskStateChanged(id, TaskState::Dead));
            if idx == self.current {
                k.schedule()
            } else {
                k
            }
        }
    }

    /// What is said of a page fault of the current task in user memory.
    pub open spec fn say_user_fault(self, pf: PageFaultInfo) -> KernelView {
        self.error(
            match self.space_of(self.current).kind {
                AddressSpaceKind::User => "USER PAGE FAULT => kill current task",
                AddressSpaceKind::Kernel => KERNEL_FAULT_LINE,
            },
        ).value("task_id", self.tasks[self.current as int].id.0).value("addr", pf.addr).value(
            "err",
            pf.err,
        ).value("rip", pf.rip)
    }

    /// A page fault of the current task in user memory: fatal only where the demo wants it.
    pub open spec fn user_page_fault(self, pf: PageFaultInfo) -> KernelView {
        let m = self.say_user_fault(pf);
        if self.features.pf_demo {
            m.kill(
                self.current,
                TaskKillReason::UserPageFault { addr: pf.addr, err: pf.err, rip: pf.rip },
            )
        } else {
            m.error("USER PAGE FAULT (demo): ignored (pf_demo feature disables this)").value(
                "task_id",
                self.tasks[self.current as int].id.0,
            )
        }
    }
}

impl KernelState {
    /// Makes every endpoint forget a task.
    pub fn remove_task_from_endpoints(&mut self, idx: usize)
        requires
            old(self).wf(),
        ensures
            final(self).wf(),
            final(self)@ == old(self)@.forget_waiter(idx),
            final(self)@.room() == old(self)@.room(),
    {
        let mut e = self.endpoint(0);
        e.remove_task(idx);
        self.put_endpoint(0, e);
        let mut e = self.endpoint(1);
        e.remove_task(idx);
        self.put_endpoint(1, e);
    }

    fn is_blocked_on_reply(&self, idx: usize, ep: EndpointId, partner: TaskId) -> (r: bool)
        requires
            self.wf(),
        ensures
            r == self@.blocked_on_reply(idx, ep, partner),
    {
        if idx >= MAX_TASKS {
            return false;
        }
        let t = self.task(idx);
        if t.state != TaskState::Blocked {
            return false;
        }
        match t.blocked_reason {
            Some(BlockedReason::IpcReply { partner: of, ep: at }) => at == ep && of == partner,
            _ => false,
        }
    }

    fn release_reply_waiters_at(&mut self, i: usize, dead: TaskId, woken: &mut Vec<usize>)
        requires
            old(self).wf(),
            i < MAX_ENDPOINTS,
        ensures
            final(self).wf(),
            (final(self)@, final(woken)@) == old(self)@.release_from(
                i as int,
                0,
                dead,
                old(woken)@,
            ),
            final(self)@.room() >= old(self)@.room(),
    {
        let mut pos: usize = 0;
        let mut more = true;
        while more
            invariant
                self.wf(),
                i < MAX_ENDPOINTS,
                pos <= self@.endpoints[i as int].reply_queue.len(),
                self@.release_from(i as int, pos as int, dead, woken@) == old(self)@.release_from(
                    i as int,
                    0,
                    dead,
                    old(woken)@,
                ),
                !more ==> pos == self@.endpoints[i as int].reply_queue.len(),
                self@.room() >= old(self)@.room(),
            decreases
                    self@.endpoints[i as int].reply_queue.len() - pos,
                    (if more {
                        1int
                    } else {
                        0int
                    }),
        {
            let mut e = self.endpoint(i);
            if pos < e.rq_len {
                let w: usize = e.reply_queue[pos];
                assert(w == e@.reply_queue[pos as int]);
                if self.is_blocked_on_reply(w, e.id, dead) {
                    let _ = e.remove_reply_waiter_at(pos);
                    self.put_endpoint(i, e);
                    let t = self.task(w);
                    self.put_task(
                        w,
                        Task {
                            blocked_reason: None,
                            last_reply: Some(IPC_ERR_DEAD_PARTNER),
                            ..t
                        },
                    );
                    self.error("ipc: reply waiter rescued due to DEAD partner");
                    self.value("waiter_task_id", t.id.0);
                    self.value("dead_partner_task_id", dead.0);
                    if woken.len() < MAX_TASKS {
                        woken.push(w);
                    }
                } else {
                    pos += 1;
                }
            } else {
                more = false;
            }
        }
    }

    /// Sends on whoever waits for a reply of a dead task.
    pub fn resolve_ipc_reply_waiters_for_dead_partner(&mut self, dead: TaskId)
        requires
            old(self).wf(),
        ensures
            final(self).wf(),
            final(self)@ == old(self)@.release_reply_waiters(dead),
            final(self)@.room() >= old(self)@.room(),
    {
        proof {
            reveal(KernelView::release_reply_waiters);
        }
        let mut woken: Vec<usize> = Vec::new();
        self.release_reply_waiters_at(0, dead, &mut woken);
        self.release_reply_waiters_at(1, dead, &mut woken);
        let ghost m = self@;
        let mut i: usize = 0;
        assert(woken@.take(0) =~= Seq::empty());
        while i < woken.len()
            invariant
                self.wf(),
                i <= woken.len(),
                self@ == m.wake_all(woken@.take(i as int)),
                self@.room() >= old(self)@.room(),
            decreases woken.len() - i,
        {
            assert(woken@.take(i + 1).drop_last() =~= woken@.take(i as int));
            self.wake_task_to_ready(woken[i]);
            i += 1;
        }
        assert(woken@.take(i as int) =~= woken@);
    }

    /// Whether a task can be killed.
    pub fn can_be_killed(&self, idx: usize) -> (r: bool)
        requires
            self.wf(),
        ensures
            r == self@.can_be_killed(idx),
    {
        if idx >= MAX_TASKS {
            return true;
        }
        let as_idx: usize = self.task(idx).address_space_id.0;
        self.space(as_idx).kind != AddressSpaceKind::User || self.space(
            as_idx,
        ).root_page_frame.is_some()
    }

    /// Drops the user mappings of an address space.
    pub fn cleanup_user_mappings_of_address_space(&mut self, as_idx: usize)
        requires
            old(self).wf(),
            old(self)@.is_rooted(as_idx),
        ensures
            final(self).wf(),
            final(self)@ == old(self)@.drop_user_mappings(as_idx),
            final(self)@.room() == old(self)@.room(),
    {
        if as_idx >= MAX_TASKS {
            return;
        }
        if self.space(as_idx).kind != AddressSpaceKind::User {
            return;
        }
        let root = self.space(as_idx).root_page_frame.unwrap();
        let before: usize = self.space(as_idx).mapping_count();
        let pages = self.space(as_idx).for_each_user_mapping_page();
        self.info("cleanup_user_mappings: start");
        self.value("as_idx", as_idx as u64);
        self.value("root_page_frame_index", root.number);
        self.value("cleanup_user_mappings: before clear mapping_count", before as u64);
        self.value("cleanup_user_mappings: collected_user_pages", pages.len() as u64);
        self.clear_user_mappings_of(as_idx);
        let after: usize = self.space(as_idx).mapping_count();
        self.value("cleanup_user_mappings: after clear mapping_count", after as u64);
        let ghost m = self@;
        let mut i: usize = 0;
        assert(m.effects + unmaps(pages@.take(0), root, as_idx) =~= m.effects);
        while i < pages.len()
            invariant
                self.wf(),
                i <= pages.len(),
                self@ == (KernelView {
                    effects: m.effects + unmaps(pages@.take(i as int), root, as_idx),
                    ..m
                }),
                self@.room() == old(self)@.room(),
            decreases pages.len() - i,
        {
            let page = pages[i];
            self.emit(Effect::UnmapInRoot { page, root, as_idx, shown: i < SHOWN_UNMAPS });
            assert(unmaps(pages@.take(i + 1), root, as_idx) =~= unmaps(
                pages@.take(i as int),
                root,
                as_idx,
            ).push(Effect::UnmapInRoot { page, root, as_idx, shown: i < SHOWN_UNMAPS }));
            assert(self@.effects =~= m.effects + unmaps(pages@.take(i + 1), root, as_idx));
            i += 1;
        }
        assert(pages@.take(i as int) =~= pages@);
        self.value("cleanup_user_mappings: arch_unmap_applied", pages.len() as u64);
        self.value("cleanup_user_mappings: after unmap mapping_count", after as u64);
        self.info("cleanup_user_mappings: done");
    }

    fn close_endpoints_of(&mut self, owner: TaskId)
        requires
            old(self).wf(),
        ensures
            final(self).wf(),
            final(self)@ == old(self)@.close_endpoints_of(owner),
            final(self)@.room() >= old(self)@.room(),
    {
        let first = self.endpoint(0);
        let second = self.endpoint(1);
        if let Some(id) = first.owner {
            if id == owner {
                self.close_endpoint_and_rescue_waiters(first.id);
            }
        }
        if let Some(id) = second.owner {
            if id == owner {
                self.close_endpoint_and_rescue_waiters(second.id);
            }
        }
    }

    fn bury(&mut self, idx: usize)
        requires
            old(self).wf(),
            idx < MAX_TASKS,
            old(self)@.can_be_killed(idx),
        ensures
            final(self).wf(),
            final(self)@ == old(self)@.bury(idx),
            final(self)@.room() >= old(self)@.room(),
    {
        proof {
            reveal(KernelView::bury);
        }
        let t = self.task(idx);
        let _ = self.remove_from_ready_queue(idx);
        let _ = self.remove_from_wait_queue(idx);
        self.remove_task_from_endpoints(idx);
        self.put_task(idx, t.made_dead());
        self.set_mem_demo_stage(idx, 0);
        self.set_mem_demo_mapped(idx, false);
        self.set_mem_demo_frame(idx, None);
        let d = self.demo();
        self.put_demo(DemoProgress { early_sent_by_task0: false, ..d });
        self.cleanup_user_mappings_of_address_space(t.address_space_id.0);
    }

    /// Kills a task.
    pub fn kill_task(&mut self, idx: usize, reason: TaskKillReason)
        requires
            old(self).wf(),
            old(self)@.can_be_killed(idx),
            old(self)@.room() >= 2,
        ensures
            final(self).wf(),
            final(self)@ == old(self)@.kill(idx, reason),
            final(self)@.room() >= old(self)@.room() - 2,
    {
        proof {
            reveal(KernelView::kill);
        }
        match reason {
            TaskKillReason::UserPageFault { .. } => {
                let c = self.counters();
                self.put_counters(
                    KernelCounters { task_killed_user_pf: c.task_killed_user_pf + 1, ..c },
                );
            },
            TaskKillReason::DemoInjected { .. } => {},
        }
        if idx >= MAX_TASKS {
            return;
        }
        let dead_id = self.task(idx).id;
        let was_current = idx == self.current_task();
        self.bury(idx);
        self.close_endpoints_of(dead_id);
        self.resolve_ipc_reply_waiters_for_dead_partner(dead_id);
        self.push_event(LogEvent::TaskKilled { task: dead_id, reason });
        self.push_event(LogEvent::TaskStateChanged(dead_id, TaskState::Dead));
        if was_current {
            self.schedule_next_task();
        }
    }

    /// Says that the current task had a page fault in user memory.
    pub(crate) fn say_user_fault(&mut self, pf: PageFaultInfo)
        requires
            old(self).wf(),
        ensures
            final(self).wf(),
            final(self)@ == old(self)@.say_user_fault(pf),
            final(self)@.room() == old(self)@.room(),
    {
        let t = self.task(self.current_task());
        match self.space(t.address_space_id.0).kind {
            AddressSpaceKind::User => self.error("USER PAGE FAULT => kill current task"),
            AddressSpaceKind::Kernel => self.error(KERNEL_FAULT_LINE),
        }
        self.value("task_id", t.id.0);
        self.value("addr", pf.addr);
        self.value("err", pf.err);
        self.value("rip", pf.rip);
    }

    /// Deals with a page fault that the current task caused in user memory.
    pub fn kill_current_task_due_to_user_pf(&mut self, pf: PageFaultInfo)
        requires
            old(self).wf(),
            old(self)@.features.pf_demo ==> old(self)@.can_be_killed(old(self)@.current),
            old(self)@.room() >= 2,
        ensures
            final(self).wf(),
            final(self)@ == old(self)@.user_page_fault(pf),
            final(self)@.room() >= old(self)@.room() - 2,
    {
        let idx: usize = self.current_task();
        let id = self.task(idx).id;
        self.say_user_fault(pf);
        if self.features().pf_demo {
            self.kill_task(
                idx,
                TaskKillReason::UserPageFault { addr: pf.addr, err: pf.err, rip: pf.rip },
            );
        } else {
            self.error("USER PAGE FAULT (demo): ignored (pf_demo feature disables this)");
            self.value("task_id", id.0);
        }
    }
}

} // verus!
