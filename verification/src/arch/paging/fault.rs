//! The page-fault guard. Around an access to user memory the kernel sets an address to
//! go on at; a fault inside the guarded stretch is recorded, ends the stretch and comes
//! back to the kernel as an error.

use vstd::prelude::*;

use crate::arch::virt_layout::{
    has_high_alias, kernel_high_alias_of_low, pml4_index, spec_high_alias,
    KERNEL_ALIAS_MAX_COPY_COUNT,
};

verus! {

#[derive(Clone, Copy, Debug, PartialEq, Eq, Structural)]
pub struct PageFaultInfo {
    pub addr: u64,
    pub err: u64,
    pub rip: u64,
    pub rsp: u64,
    pub is_user_fault: bool,
}

/// The state of the guard. The flags are words, 0 or not: assembler code sets `active`
/// and `recover_rip`.
#[derive(Clone, Copy, Debug, PartialEq, Eq, Structural)]
pub struct PageFaultGuard {
    pub active: u64,
    pub recover_rip: u64,
    pub hit: u64,
    pub last_valid: u64,
    pub last: PageFaultInfo,
}

/// What is reported of a fault that nothing was recorded of.
#[verifier::allow_in_spec]
pub fn unrecorded_fault() -> PageFaultInfo
    returns
        (PageFaultInfo { addr: 0, err: 0, rip: 0, rsp: 0, is_user_fault: true }),
{
    PageFaultInfo { addr: 0, err: 0, rip: 0, rsp: 0, is_user_fault: true }
}

impl PageFaultGuard {
    /// No stretch is guarded, and no fault was recorded.
    #[verifier::allow_in_spec]
    pub fn new() -> PageFaultGuard
        returns
            (PageFaultGuard {
                active: 0,
                recover_rip: 0,
                hit: 0,
                last_valid: 0,
                last: PageFaultInfo { addr: 0, err: 0, rip: 0, rsp: 0, is_user_fault: false },
            }),
    {
        PageFaultGuard {
            active: 0,
            recover_rip: 0,
            hit: 0,
            last_valid: 0,
            last: PageFaultInfo { addr: 0, err: 0, rip: 0, rsp: 0, is_user_fault: false },
        }
    }

    pub open spec fn recorded(self, info: PageFaultInfo) -> PageFaultGuard {
        PageFaultGuard { last_valid: 1, last: info, ..self }
    }

    pub open spec fn forgotten(self) -> PageFaultGuard {
        PageFaultGuard { last_valid: 0, ..self }
    }

    /// Whether a fault now would end a guarded stretch.
    pub open spec fn guards(self) -> bool {
        self.active != 0 && self.recover_rip != 0
    }

    pub open spec fn fixed_up(self) -> PageFaultGuard {
        if self.guards() {
            PageFaultGuard { hit: 1, active: 0, ..self }
        } else {
            self
        }
    }

    pub open spec fn cleared(self) -> PageFaultGuard {
        PageFaultGuard { hit: 0, last_valid: 0, ..self }
    }

    pub open spec fn armed(self, recover_rip: u64) -> PageFaultGuard {
        PageFaultGuard { active: 1, recover_rip, ..self }
    }

    pub open spec fn disarmed(self) -> PageFaultGuard {
        PageFaultGuard { active: 0, ..self }
    }

    /// What the access comes to: the value that was read back, or the fault.
    pub open spec fn outcome(self, read_back: u64) -> Result<u64, PageFaultInfo> {
        if self.hit == 0 {
            Ok(read_back)
        } else if self.last_valid != 0 {
            Err(self.last)
        } else {
            Err(unrecorded_fault())
        }
    }
}

/// Keeps what is known of a fault.
pub fn record_page_fault(guard: &mut PageFaultGuard, info: PageFaultInfo)
    ensures
        *final(guard) == old(guard).recorded(info),
{
    guard.last = info;
    guard.last_valid = 1;
}

/// Takes what was recorded of the last fault; it can be taken once.
pub fn take_last_page_fault(guard: &mut PageFaultGuard) -> (r: Option<PageFaultInfo>)
    ensures
        r == (if old(guard).last_valid == 0 {
            None
        } else {
            Some(old(guard).last)
        }),
        *final(guard) == old(guard).forgotten(),
{
    if guard.last_valid == 0 {
        return None;
    }
    guard.last_valid = 0;
    Some(guard.last)
}

/// Ends a guarded stretch on a fault: gives the address to go on at. Outside such a
/// stretch there is none, and nothing changes.
pub fn pf_guard_try_fixup(guard: &mut PageFaultGuard) -> (r: Option<u64>)
    ensures
        r == (if old(guard).guards() {
            Some(old(guard).recover_rip)
        } else {
            None
        }),
        *final(guard) == old(guard).fixed_up(),
{
    if guard.active == 0 {
        return None;
    }
    let rip: u64 = guard.recover_rip;
    if rip == 0 {
        return None;
    }
    guard.hit = 1;
    guard.active = 0;
    Some(rip)
}

/// Makes the guard ready for an access.
pub fn clear_guard(guard: &mut PageFaultGuard)
    ensures
        *final(guard) == old(guard).cleared(),
{
    guard.last_valid = 0;
    guard.hit = 0;
}

/// Starts the guarded stretch; a fault in it goes on at `recover_rip`.
pub fn arm_guard(guard: &mut PageFaultGuard, recover_rip: u64)
    ensures
        *final(guard) == old(guard).armed(recover_rip),
{
    guard.recover_rip = recover_rip;
    guard.active = 1;
}

/// Ends the guarded stretch after the access.
pub fn disarm_guard(guard: &mut PageFaultGuard)
    ensures
        *final(guard) == old(guard).disarmed(),
{
    guard.active = 0;
}

/// What a guarded write and read of a word of user memory comes to, once the machine has
/// carried it out.
pub fn guarded_user_rw_u64(guard: &mut PageFaultGuard, read_back: u64) -> (r: Result<
    u64,
    PageFaultInfo,
>)
    ensures
        r == old(guard).outcome(read_back),
        *final(guard) == (if old(guard).hit == 0 {
            *old(guard)
        } else {
            old(guard).forgotten()
        }),
{
    if guard.hit != 0 {
        match take_last_page_fault(guard) {
            Some(info) => {
                return Err(info);
            },
            None => {
                return Err(unrecorded_fault());
            },
        }
    }
    Ok(read_back)
}

/// Where the guard is reached from every address space: through the high alias if it
/// lies in the first slots.
pub open spec fn spec_guard_addr(addr: u64) -> int {
    if has_high_alias(addr) {
        spec_high_alias(addr)
    } else {
        addr as int
    }
}

/// The address under which a word of the guard is reached from every address space.
pub fn guard_addr(addr: u64) -> (r: u64)
    ensures
        r == spec_guard_addr(addr),
{
    if pml4_index(addr) < KERNEL_ALIAS_MAX_COPY_COUNT {
        kernel_high_alias_of_low(addr)
    } else {
        addr
    }
}

/// A fault inside a guarded stretch goes on at the set address, and the access comes to
/// an error that holds what was recorded, whatever was read. A second fault is not caught.
pub proof fn law_guarded_fault_comes_back(
    guard: PageFaultGuard,
    recover_rip: u64,
    info: PageFaultInfo,
    read_back: u64,
)
    requires
        recover_rip != 0,
    ensures
        ({
            let at_fault = guard.cleared().armed(recover_rip).recorded(info);
            let after = at_fault.fixed_up();
            &&& at_fault.guards()
            &&& at_fault.recover_rip == recover_rip
            &&& after.outcome(read_back) == Err::<u64, PageFaultInfo>(info)
            &&& !after.guards()
            &&& !after.recorded(info).guards()
        }),
{
}

/// An access without a fault gives what was read, and leaves no stretch guarded.
pub proof fn law_guarded_access_without_fault(
    guard: PageFaultGuard,
    recover_rip: u64,
    read_back: u64,
)
    ensures
        ({
            let after = guard.cleared().armed(recover_rip).disarmed();
            &&& after.outcome(read_back) == Ok::<u64, PageFaultInfo>(read_back)
            &&& !after.guards()
        }),
{
}

/// What was recorded can be taken once.
pub proof fn law_fault_is_taken_once(guard: PageFaultGuard, info: PageFaultInfo)
    ensures
        guard.recorded(info).last_valid != 0,
        guard.recorded(info).last == info,
        guard.recorded(info).forgotten().last_valid == 0,
{
}

} // verus!
