//! Faults in message passing.

use vstd::prelude::*;

use crate::kernel::endpoint::EndpointView;
use crate::kernel::kill::NO_ROOT_LINE;
use crate::kernel::model::KernelView;
use crate::kernel::state::KernelState;
use crate::kernel::types::{
    EndpointId, FailStopReason, InjectionState, TaskId, TaskKillReason, MAX_TASKS,
};

verus! {

/// The code of a kill by `dead_partner_test`.
pub const DEAD_PARTNER_CODE: u64 = 0xD34D_0001;

impl KernelView {
    /// The third task owns the first endpoint, if the demo wants it.
    pub open spec fn set_up_demo(self) -> KernelView {
        if self.features.endpoint_close_test {
            self.put_endpoint(
                0,
                EndpointView { owner: Some(TaskId(3)), ..self.endpoints[0] },
            )
        } else {
            self
        }
    }

    /// The third task dies once, after it has asked to receive, if the demo wants it. It is
    /// a fail-stop if its mappings cannot be taken out of the page table.
    pub open spec fn inject_dead_partner(self, task_index: usize, tid: TaskId, ep: EndpointId) -> (
        KernelView,
        Result<(), FailStopReason>,
    ) {
        if self.features.dead_partner_test && tid == TaskId(3)
            && !self.injected.dead_partner_fired {
            let m = self.error(
                "dead_partner_test: kill receiver (DemoInjected) right after IpcRecv",
            ).value("killed_task_id", tid.0).value("ep_id", ep.0 as u64).value(
                "demo_code",
                DEAD_PARTNER_CODE,
            );
            if self.can_be_killed(task_index) {
                (
                    KernelView {
                        injected: InjectionState { dead_partner_fired: true, ..self.injected },
                        ..m
                    }.kill(task_index, TaskKillReason::DemoInjected { code: DEAD_PARTNER_CODE }),
                    Ok(()),
                )
            } else {
                (
                    m.error(NO_ROOT_LINE),
                    Err(FailStopReason::UserRootMissing),
                )
            }
        } else {
            (self, Ok(()))
        }
    }
}

/// Gives the first endpoint an owner, if the demo wants it.
pub fn on_kernel_state_init(ks: &mut KernelState)
    requires
        old(ks).wf(),
    ensures
        final(ks).wf(),
        final(ks)@ == old(ks)@.set_up_demo(),
        final(ks)@.room() == old(ks)@.room(),
{
    if ks.features().endpoint_close_test {
        let mut e = ks.endpoint(0);
        e.owner = Some(TaskId(3));
        ks.put_endpoint(0, e);
    }
}

/// Kills the receiver once, if the demo wants it.
pub fn on_after_ipc_recv(
    ks: &mut KernelState,
    task_index: usize,
    tid: TaskId,
    ep: EndpointId,
) -> (r: Result<(), FailStopReason>)
    requires
        old(ks).wf(),
        task_index < MAX_TASKS,
        old(ks)@.room() >= 2,
    ensures
        final(ks).wf(),
        (final(ks)@, r) == old(ks)@.inject_dead_partner(task_index, tid, ep),
        final(ks)@.room() >= old(ks)@.room() - 2,
{
    let i = ks.injected();
    if ks.features().dead_partner_test && tid.0 == 3 && !i.dead_partner_fired {
        ks.error("dead_partner_test: kill receiver (DemoInjected) right after IpcRecv");
        ks.value("killed_task_id", tid.0);
        ks.value("ep_id", ep.0 as u64);
        ks.value("demo_code", DEAD_PARTNER_CODE);
        if !ks.can_be_killed(task_index) {
            ks.error(NO_ROOT_LINE);
            return Err(FailStopReason::UserRootMissing);
        }
        ks.put_injected(InjectionState { dead_partner_fired: true, ..i });
        ks.kill_task(task_index, TaskKillReason::DemoInjected { code: DEAD_PARTNER_CODE });
    }
    Ok(())
}

} // verus!
