//! Faults in page operations. They show in the result of a system call; nothing breaks.

use vstd::prelude::*;

use crate::kernel::mem_demo::{demo_page_for_task, spec_demo_page, spec_user_flags, user_flags};
use crate::kernel::model::KernelView;
use crate::kernel::state::KernelState;
use crate::kernel::syscall::Syscall;
use crate::kernel::types::{InjectionState, Task, TaskState, TASK0_INDEX, TASK1_INDEX};

verus! {

impl KernelView {
    /// The current task makes a system call in its next step.
    pub open spec fn issue(self, sc: Syscall) -> KernelView {
        self.put_task(
            self.current as int,
            Task { pending_syscall: Some(sc), ..self.tasks[self.current as int] },
        )
    }

    /// The second task maps its demo page twice, at two turns of the memory demo. The flag
    /// tells whether the memory demo is to be skipped.
    pub open spec fn inject_double_map(self) -> (KernelView, bool) {
        let idx = self.current;
        if idx == TASK0_INDEX {
            (self, false)
        } else if self.state(idx) == TaskState::Dead {
            (self, true)
        } else if idx != TASK1_INDEX {
            (self, false)
        } else if self.tasks[idx as int].pending_syscall is Some {
            (self, true)
        } else if self.injected.double_map_stage >= 2 {
            (self, false)
        } else {
            (
                KernelView {
                    injected: InjectionState {
                        double_map_stage: if self.injected.double_map_stage == 0 {
                            1
                        } else {
                            2
                        },
                        ..self.injected
                    },
                    ..self
                }.info(
                    if self.injected.double_map_stage == 0 {
                        "evil_double_map: PageMap #1"
                    } else {
                        "evil_double_map: PageMap #2 (expect AlreadyMapped)"
                    },
                ).issue(
                    Syscall::PageMap { page: spec_demo_page(idx), flags: spec_user_flags() },
                ),
                true,
            )
        }
    }

    /// The second task unmaps its demo page once, mapped or not. The flag tells whether the
    /// memory demo is to be skipped.
    pub open spec fn inject_unmap(self) -> (KernelView, bool) {
        let idx = self.current;
        if idx == TASK0_INDEX {
            (self, false)
        } else if self.state(idx) == TaskState::Dead {
            (self, true)
        } else if idx != TASK1_INDEX {
            (self, false)
        } else if self.tasks[idx as int].pending_syscall is Some {
            (self, true)
        } else if self.injected.unmap_fired {
            (self, false)
        } else {
            (
                KernelView {
                    injected: InjectionState { unmap_fired: true, ..self.injected },
                    ..self
                }.info("evil_unmap_not_mapped: PageUnmap (expect NotMapped)").issue(
                    Syscall::PageUnmap { page: spec_demo_page(idx) },
                ),
                true,
            )
        }
    }

    /// The fault that is switched on, if one is.
    pub open spec fn inject_mem_fault(self) -> (KernelView, bool) {
        if self.features.evil_double_map {
            self.inject_double_map()
        } else if self.features.evil_unmap_not_mapped {
            self.inject_unmap()
        } else {
            (self, false)
        }
    }
}

/// Tries to inject a fault; tells whether the memory demo is to be skipped.
pub fn on_mem_demo(ks: &mut KernelState) -> (skip: bool)
    requires
        old(ks).wf(),
    ensures
        final(ks).wf(),
        (final(ks)@, skip) == old(ks)@.inject_mem_fault(),
        final(ks)@.room() >= old(ks)@.room(),
{
    let f = ks.features();
    if f.evil_double_map {
        return evil_double_map(ks);
    }
    if f.evil_unmap_not_mapped {
        return evil_unmap_not_mapped(ks);
    }
    false
}

fn evil_double_map(ks: &mut KernelState) -> (skip: bool)
    requires
        old(ks).wf(),
    ensures
        final(ks).wf(),
        (final(ks)@, skip) == old(ks)@.inject_double_map(),
        final(ks)@.room() >= old(ks)@.room(),
{
    let idx: usize = ks.current_task();
    let t = ks.task(idx);
    if idx == TASK0_INDEX {
        return false;
    }
    if t.state == TaskState::Dead {
        return true;
    }
    if idx != TASK1_INDEX {
        return false;
    }
    if t.pending_syscall.is_some() {
        return true;
    }
    let i = ks.injected();
    if i.double_map_stage >= 2 {
        return false;
    }
    let next: u8 = if i.double_map_stage == 0 {
        ks.info("evil_double_map: PageMap #1");
        1
    } else {
        ks.info("evil_double_map: PageMap #2 (expect AlreadyMapped)");
        2
    };
    let sc = Syscall::PageMap { page: demo_page_for_task(idx), flags: user_flags() };
    ks.put_task(idx, Task { pending_syscall: Some(sc), ..t });
    ks.put_injected(InjectionState { double_map_stage: next, ..i });
    true
}

fn evil_unmap_not_mapped(ks: &mut KernelState) -> (skip: bool)
    requires
        old(ks).wf(),
    ensures
        final(ks).wf(),
        (final(ks)@, skip) == old(ks)@.inject_unmap(),
        final(ks)@.room() >= old(ks)@.room(),
{
    let idx: usize = ks.current_task();
    let t = ks.task(idx);
    if idx == TASK0_INDEX {
        return false;
    }
    if t.state == TaskState::Dead {
        return true;
    }
    if idx != TASK1_INDEX {
        return false;
    }
    if t.pending_syscall.is_some() {
        return true;
    }
    let i = ks.injected();
    if i.unmap_fired {
        return false;
    }
    ks.info("evil_unmap_not_mapped: PageUnmap (expect NotMapped)");
    let sc = Syscall::PageUnmap { page: demo_page_for_task(idx) };
    ks.put_injected(InjectionState { unmap_fired: true, ..i });
    ks.put_task(idx, Task { pending_syscall: Some(sc), ..t });
    true
}

} // verus!
