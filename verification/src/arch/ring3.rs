//! The way into user code: what the processor pops when it leaves the kernel.

use vstd::prelude::*;

verus! {

/// The flags for user code: the bit that is always set, and no interrupts.
pub const USER_RFLAGS: u64 = 0x2;

/// What `iretq` pops, in the order in which it is pushed.
#[derive(Clone, Copy, Debug, PartialEq, Eq, Structural)]
pub struct IretFrame {
    pub ss: u64,
    pub rsp: u64,
    pub rflags: u64,
    pub cs: u64,
    pub rip: u64,
}

/// The frame that enters user code with these registers.
pub fn user_iret_frame(user_rip: u64, user_rsp: u64, user_cs: u16, user_ss: u16) -> (f: IretFrame)
    ensures
        f == (IretFrame {
            ss: user_ss as u64,
            rsp: user_rsp,
            rflags: USER_RFLAGS,
            cs: user_cs as u64,
            rip: user_rip,
        }),
{
    IretFrame {
        ss: user_ss as u64,
        rsp: user_rsp,
        rflags: USER_RFLAGS,
        cs: user_cs as u64,
        rip: user_rip,
    }
}

/// A selector for user code: the lowest privilege is asked for.
pub fn user_selector(selector: u16) -> (r: u16)
    ensures
        r == selector - selector % 4 + 3,
{
    assert(selector | 3 == selector - selector % 4 + 3) by (bit_vector);
    selector | 3
}

} // verus!
