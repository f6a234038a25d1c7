//! Faults that are injected on purpose, kept apart from the kernel proper.

use vstd::prelude::*;

use crate::kernel::state::KernelState;
use crate::kernel::types::{EndpointId, FailStopReason, TaskId, MAX_TASKS};

pub mod ipc_faults;
pub mod mem_faults;

verus! {

/// Sets up what a demo needs before the kernel starts.
pub fn on_kernel_state_init(ks: &mut KernelState)
    requires
        old(ks).wf(),
    ensures
        final(ks).wf(),
        final(ks)@ == old(ks)@.set_up_demo(),
        final(ks)@.room() == old(ks)@.room(),
{
    ipc_faults::on_kernel_state_init(ks);
}

/// Tries to inject a fault where the memory demo would run; tells whether the memory demo
/// is to be skipped.
pub fn on_mem_demo(ks: &mut KernelState) -> (skip: bool)
    requires
        old(ks).wf(),
    ensures
        final(ks).wf(),
        (final(ks)@, skip) == old(ks)@.inject_mem_fault(),
        final(ks)@.room() >= old(ks)@.room(),
{
    mem_faults::on_mem_demo(ks)
}

/// Tries to inject a fault right after a task has asked to receive.
pub fn on_after_ipc_recv(
    ks: &mut KernelState,
    task_index: usize,
    tid: TaskId,
    ep: EndpointId,
) -> (r: Result<(), FailStopReason>)
    requires
        old(ks).wf(),
        task_index < MAX_TASKS,
        old(ks)@.room() >= 2,
    ensures
        final(ks).wf(),
        (final(ks)@, r) == old(ks)@.inject_dead_partner(task_index, tid, ep),
        final(ks)@.room() >= old(ks)@.room() - 2,
{
    ipc_faults::on_after_ipc_recv(ks, task_index, tid, ep)
}

} // verus!
