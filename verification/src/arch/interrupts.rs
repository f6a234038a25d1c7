//! Exceptions and the call gate of user code: what is decided when they come, and what is
//! said of them on the emergency output.

use vstd::prelude::*;
use vstd::string::StringSliceAdditionalSpecFns;

use crate::arch::paging::fault::{
    pf_guard_try_fixup, record_page_fault, PageFaultGuard, PageFaultInfo,
};
use crate::logging::numbers::{hex, write_hex_u64};
use crate::logging::serial::write_str;
use crate::mem::addr::{PhysFrame, PAGE_SIZE};

verus! {

/// How often the value of a taken reply is shown.
pub const DBG_SYS31_LIMIT: u64 = 64;

/// The call that takes the reply.
pub const SYS_TAKE_REPLY: u64 = 31;

/// Where user code leaves the words of a call, and where it finds the answer: below its
/// stack pointer.
#[derive(Clone, Copy, Debug, PartialEq, Eq, Structural)]
pub struct MailboxSlots {
    pub echo: u64,
    pub sysno: u64,
    pub a0: u64,
    pub a1: u64,
    pub a2: u64,
    pub ret: u64,
}

/// The address `off` bytes below the stack pointer; addresses wrap.
pub open spec fn below(user_rsp: u64, off: int) -> u64 {
    ((user_rsp - off) % 0x1_0000_0000_0000_0000) as u64
}

/// The words of a call of user code with this stack pointer.
pub fn mailbox_slots(user_rsp: u64) -> (s: MailboxSlots)
    ensures
        s == (MailboxSlots {
            echo: below(user_rsp, 8),
            sysno: below(user_rsp, 16),
            a0: below(user_rsp, 24),
            a1: below(user_rsp, 32),
            a2: below(user_rsp, 40),
            ret: below(user_rsp, 48),
        }),
{
    MailboxSlots {
        echo: user_rsp.wrapping_sub(8),
        sysno: user_rsp.wrapping_sub(16),
        a0: user_rsp.wrapping_sub(24),
        a1: user_rsp.wrapping_sub(32),
        a2: user_rsp.wrapping_sub(40),
        ret: user_rsp.wrapping_sub(48),
    }
}

/// The addresses of the user root and of the kernel root that the call gate goes by, 0
/// while they are not known.
#[derive(Clone, Copy, Debug, PartialEq, Eq, Structural)]
pub struct DemoRoots {
    pub user_phys: u64,
    pub kernel_phys: u64,
}

impl DemoRoots {
    pub fn new() -> (r: DemoRoots)
        ensures
            r == (DemoRoots { user_phys: 0, kernel_phys: 0 }),
    {
        DemoRoots { user_phys: 0, kernel_phys: 0 }
    }

    pub open spec fn known(self) -> bool {
        self.user_phys != 0 && self.kernel_phys != 0
    }
}

/// The roots to go by: those that are known, else those that are registered, which are
/// known from then on.
pub fn cache_demo_roots_if_needed(
    cache: &mut DemoRoots,
    registered: Option<(PhysFrame, PhysFrame)>,
) -> (r: Option<(PhysFrame, PhysFrame)>)
    requires
        registered matches Some(roots) ==> roots.0.addressable() && roots.1.addressable(),
    ensures
        r == (if old(cache).known() {
            Some(
                (
                    PhysFrame { number: old(cache).user_phys / 4096 },
                    PhysFrame { number: old(cache).kernel_phys / 4096 },
                ),
            )
        } else {
            registered
        }),
        *final(cache) == (match registered {
            Some(roots) if !old(cache).known() => DemoRoots {
                user_phys: (roots.0.number * 4096) as u64,
                kernel_phys: (roots.1.number * 4096) as u64,
            },
            _ => *old(cache),
        }),
{
    if cache.user_phys != 0 && cache.kernel_phys != 0 {
        return Some(
            (
                PhysFrame::from_index(cache.user_phys / PAGE_SIZE),
                PhysFrame::from_index(cache.kernel_phys / PAGE_SIZE),
            ),
        );
    }
    match registered {
        Some(roots) => {
            cache.user_phys = roots.0.start_address().0;
            cache.kernel_phys = roots.1.start_address().0;
            Some(roots)
        },
        None => None,
    }
}

/// Once two roots were given, they are given again, whatever is registered then; frame 0
/// holds no root.
pub proof fn law_demo_roots_stay(user: PhysFrame, kernel: PhysFrame)
    requires
        user.addressable(),
        kernel.addressable(),
        user.number != 0,
        kernel.number != 0,
    ensures
        ({
            let cache = DemoRoots {
                user_phys: (user.number * 4096) as u64,
                kernel_phys: (kernel.number * 4096) as u64,
            };
            &&& cache.known()
            &&& PhysFrame { number: cache.user_phys / 4096 } == user
            &&& PhysFrame { number: cache.kernel_phys / 4096 } == kernel
        }),
{
}

/// What the demo of a call answers: the sum of the words of call 1, and 0 to the others.
pub open spec fn demo_answer(sysno: u64, a0: u64, a1: u64, a2: u64) -> u64 {
    if sysno == 1 {
        ((a0 + a1 + a2) % 0x1_0000_0000_0000_0000) as u64
    } else {
        0
    }
}

/// What the demo of a call answers.
pub fn ring3_demo_answer(sysno: u64, a0: u64, a1: u64, a2: u64) -> (ret: u64)
    ensures
        ret == demo_answer(sysno, a0, a1, a2),
{
    if sysno == 1 {
        a0.wrapping_add(a1).wrapping_add(a2)
    } else {
        0
    }
}

/// What the demo does at a call: it answers the first one, shows at the second one what
/// user code made of the answer, and stops at the third one.
#[derive(Clone, Copy, Debug, PartialEq, Eq, Structural)]
pub enum DemoStep {
    Answer,
    ShowEcho,
    Stop,
}

/// What the demo does at call number `n`, from 1 on.
pub fn ring3_demo_step(n: u64) -> (s: DemoStep)
    ensures
        s == (if n == 1 {
            DemoStep::Answer
        } else if n == 2 {
            DemoStep::ShowEcho
        } else {
            DemoStep::Stop
        }),
{
    if n == 1 {
        DemoStep::Answer
    } else if n == 2 {
        DemoStep::ShowEcho
    } else {
        DemoStep::Stop
    }
}

/// A name and a number.
pub open spec fn labelled(label: &str, v: u64) -> Seq<u8> {
    label.spec_bytes() + hex(v)
}

fn write_labelled(out: &mut Vec<u8>, label: &str, v: u64)
    ensures
        final(out)@ == old(out)@ + labelled(label, v),
{
    write_str(out, label);
    write_hex_u64(out, v);
    assert(out@ =~= old(out)@ + labelled(label, v));
}

pub open spec fn demo_call_text(
    user_rip: u64,
    user_rsp: u64,
    sysno: u64,
    a0: u64,
    a1: u64,
    a2: u64,
) -> Seq<u8> {
    "[INT80] syscall enter\n".spec_bytes() + labelled(" rip=", user_rip) + labelled(
        " rsp=",
        user_rsp,
    ) + "\n".spec_bytes() + labelled(" sysno=", sysno) + labelled(" a0=", a0) + labelled(
        " a1=",
        a1,
    ) + labelled(" a2=", a2) + "\n".spec_bytes()
}

/// Shows the first call of the demo.
pub fn show_demo_call(
    out: &mut Vec<u8>,
    user_rip: u64,
    user_rsp: u64,
    sysno: u64,
    a0: u64,
    a1: u64,
    a2: u64,
)
    ensures
        final(out)@ == old(out)@ + demo_call_text(user_rip, user_rsp, sysno, a0, a1, a2),
{
    write_str(out, "[INT80] syscall enter\n");
    write_labelled(out, " rip=", user_rip);
    write_labelled(out, " rsp=", user_rsp);
    write_str(out, "\n");
    write_labelled(out, " sysno=", sysno);
    write_labelled(out, " a0=", a0);
    write_labelled(out, " a1=", a1);
    write_labelled(out, " a2=", a2);
    write_str(out, "\n");
    assert(out@ =~= old(out)@ + demo_call_text(user_rip, user_rsp, sysno, a0, a1, a2));
}

pub open spec fn demo_echo_text(user_rip: u64, user_rsp: u64, echo: u64) -> Seq<u8> {
    "[INT80] verify user_echo\n".spec_bytes() + labelled(" rip=", user_rip) + labelled(
        " rsp=",
        user_rsp,
    ) + "\n".spec_bytes() + labelled(" echo=", echo) + "\n".spec_bytes()
}

/// Shows what user code made of the answer, at the second call of the demo.
pub fn show_demo_echo(out: &mut Vec<u8>, user_rip: u64, user_rsp: u64, echo: u64)
    ensures
        final(out)@ == old(out)@ + demo_echo_text(user_rip, user_rsp, echo),
{
    write_str(out, "[INT80] verify user_echo\n");
    write_labelled(out, " rip=", user_rip);
    write_labelled(out, " rsp=", user_rsp);
    write_str(out, "\n");
    write_labelled(out, " echo=", echo);
    write_str(out, "\n");
    assert(out@ =~= old(out)@ + demo_echo_text(user_rip, user_rsp, echo));
}

pub open spec fn demo_end_text(echo: u64) -> Seq<u8> {
    "[INT80] final\n".spec_bytes() + labelled(" echo=", echo) + "\n".spec_bytes()
        + "[INT80] done -> halt\n".spec_bytes()
}

/// Shows the end of the demo.
pub fn show_demo_end(out: &mut Vec<u8>, echo: u64)
    ensures
        final(out)@ == old(out)@ + demo_end_text(echo),
{
    write_str(out, "[INT80] final\n");
    write_labelled(out, " echo=", echo);
    write_str(out, "\n");
    write_str(out, "[INT80] done -> halt\n");
    assert(out@ =~= old(out)@ + demo_end_text(echo));
}

/// Shows the value of a taken reply, the first times that one is taken. `count` is the
/// number of replies taken so far.
pub fn show_taken_reply(count: &mut u64, sysno: u64, ret: u64, out: &mut Vec<u8>)
    ensures
        *final(count) == (if sysno == SYS_TAKE_REPLY {
            ((*old(count) + 1) % 0x1_0000_0000_0000_0000) as u64
        } else {
            *old(count)
        }),
        final(out)@ == old(out)@ + (if sysno == SYS_TAKE_REPLY && *old(count) < DBG_SYS31_LIMIT {
            labelled("[INT80] sys31 ret=", ret) + "\n".spec_bytes()
        } else {
            Seq::empty()
        }),
{
    if sysno == SYS_TAKE_REPLY {
        let c: u64 = *count;
        *count = c.wrapping_add(1);
        if c < DBG_SYS31_LIMIT {
            write_labelled(out, "[INT80] sys31 ret=", ret);
            write_str(out, "\n");
            assert(out@ =~= old(out)@ + (labelled("[INT80] sys31 ret=", ret) + "\n".spec_bytes()));
            return;
        }
    }
    assert(out@ =~= old(out)@ + Seq::<u8>::empty());
}

/// How a page fault ends.
#[derive(Clone, Copy, Debug, PartialEq, Eq, Structural)]
pub enum FaultStep {
    /// Go on at this address.
    Resume { rip: u64 },
    /// Stop the machine.
    Halt,
}

pub open spec fn page_fault_text(info: PageFaultInfo, guarded: bool) -> Seq<u8> {
    if guarded {
        "[EXC] #PF guarded => fixup\n".spec_bytes()
    } else {
        "[EXC] #PF unguarded\n".spec_bytes() + labelled(" cr2=", info.addr) + labelled(
            " err=",
            info.err,
        ) + labelled(" rip=", info.rip) + labelled(" rsp=", info.rsp) + "\n".spec_bytes()
    }
}

/// Handles a page fault: records it, and goes on where the guard says, if there is one;
/// else the machine stops.
pub fn page_fault_handler(
    guard: &mut PageFaultGuard,
    cr2: u64,
    err: u64,
    rip: u64,
    rsp: u64,
    out: &mut Vec<u8>,
) -> (step: FaultStep)
    ensures
        ({
            let info = PageFaultInfo { addr: cr2, err, rip, rsp, is_user_fault: false };
            let guarded = old(guard).guards();
            &&& *final(guard) == old(guard).recorded(info).fixed_up()
            &&& step == (if guarded {
                FaultStep::Resume { rip: old(guard).recover_rip }
            } else {
                FaultStep::Halt
            })
            &&& final(out)@ == old(out)@ + page_fault_text(info, guarded)
        }),
{
    record_page_fault(guard, PageFaultInfo { addr: cr2, err, rip, rsp, is_user_fault: false });
    match pf_guard_try_fixup(guard) {
        Some(recover_rip) => {
            write_str(out, "[EXC] #PF guarded => fixup\n");
            FaultStep::Resume { rip: recover_rip }
        },
        None => {
            write_str(out, "[EXC] #PF unguarded\n");
            write_labelled(out, " cr2=", cr2);
            write_labelled(out, " err=", err);
            write_labelled(out, " rip=", rip);
            write_labelled(out, " rsp=", rsp);
            write_str(out, "\n");
            assert(out@ =~= old(out)@ + page_fault_text(
                PageFaultInfo { addr: cr2, err, rip, rsp, is_user_fault: false },
                false,
            ));
            FaultStep::Halt
        },
    }
}

/// The exceptions that stop the machine whatever happens.
#[derive(Clone, Copy, Debug, PartialEq, Eq, Structural)]
pub enum FatalFault {
    GeneralProtection,
    DoubleFault,
}

pub open spec fn fatal_fault_text(fault: FatalFault, err: u64, rip: u64, rsp: u64) -> Seq<u8> {
    (match fault {
        FatalFault::GeneralProtection => labelled("[EXC] #GP err=", err),
        FatalFault::DoubleFault => labelled("[EXC] #DF err=", err),
    }) + labelled(" rip=", rip) + labelled(" rsp=", rsp) + "\n".spec_bytes()
}

/// Shows an exception that stops the machine.
pub fn show_fatal_fault(fault: FatalFault, err: u64, rip: u64, rsp: u64, out: &mut Vec<u8>)
    ensures
        final(out)@ == old(out)@ + fatal_fault_text(fault, err, rip, rsp),
{
    match fault {
        FatalFault::GeneralProtection => write_labelled(out, "[EXC] #GP err=", err),
        FatalFault::DoubleFault => write_labelled(out, "[EXC] #DF err=", err),
    }
    write_labelled(out, " rip=", rip);
    write_labelled(out, " rsp=", rsp);
    write_str(out, "\n");
    assert(out@ =~= old(out)@ + fatal_fault_text(fault, err, rip, rsp));
}

pub open spec fn panic_text(again: bool, location: Option<(u32, u32)>) -> Seq<u8> {
    if again {
        "[PANIC] re-entered => halt\n".spec_bytes()
    } else {
        "[PANIC] kernel panic\n".spec_bytes() + match location {
            Some(at) => labelled("[PANIC] location line=", at.0 as u64) + labelled(
                " col=",
                at.1 as u64,
            ) + "\n".spec_bytes(),
            None => "[PANIC] location unknown\n".spec_bytes(),
        }
    }
}

/// Shows a panic, with its line and column; one inside another shows that only.
pub fn show_panic(in_progress: &mut bool, location: Option<(u32, u32)>, out: &mut Vec<u8>)
    ensures
        *final(in_progress),
        final(out)@ == old(out)@ + panic_text(*old(in_progress), location),
{
    if *in_progress {
        write_str(out, "[PANIC] re-entered => halt\n");
        return;
    }
    *in_progress = true;
    write_str(out, "[PANIC] kernel panic\n");
    match location {
        Some(at) => {
            write_labelled(out, "[PANIC] location line=", at.0 as u64);
            write_labelled(out, " col=", at.1 as u64);
            write_str(out, "\n");
        },
        None => {
            write_str(out, "[PANIC] location unknown\n");
        },
    }
    assert(out@ =~= old(out)@ + panic_text(false, location));
}

/// Somewhere in the text the number stands behind the label, in hexadecimal.
pub open spec fn shows(text: Seq<u8>, label: &str, v: u64) -> bool {
    exists|k: int| #[trigger] shows_at(text, k, label.spec_bytes() + hex(v))
}

/// From position `k` on the text is this part.
pub open spec fn shows_at(text: Seq<u8>, k: int, part: Seq<u8>) -> bool {
    &&& 0 <= k
    &&& k + part.len() <= text.len()
    &&& forall|i: int| 0 <= i < part.len() ==> text[k + i] == #[trigger] part[i]
}

/// An unguarded page fault is shown with its address, its error code, and where it happened;
/// any other exception likewise.
#[verifier::rlimit(40)]
pub proof fn law_faults_are_shown(
    info: PageFaultInfo,
    fault: FatalFault,
    err: u64,
    rip: u64,
    rsp: u64,
)
    ensures
        ({
            let t = page_fault_text(info, false);
            &&& shows(t, " cr2=", info.addr)
            &&& shows(t, " err=", info.err)
            &&& shows(t, " rip=", info.rip)
            &&& shows(t, " rsp=", info.rsp)
        }),
        ({
            let t = fatal_fault_text(fault, err, rip, rsp);
            &&& match fault {
                FatalFault::GeneralProtection => shows(t, "[EXC] #GP err=", err),
                FatalFault::DoubleFault => shows(t, "[EXC] #DF err=", err),
            }
            &&& shows(t, " rip=", rip)
            &&& shows(t, " rsp=", rsp)
        }),
{
    let t = page_fault_text(info, false);
    let a = "[EXC] #PF unguarded\n".spec_bytes().len() as int;
    let b = a + labelled(" cr2=", info.addr).len();
    let c = b + labelled(" err=", info.err).len();
    let d = c + labelled(" rip=", info.rip).len();
    assert(shows_at(t, a, " cr2=".spec_bytes() + hex(info.addr)));
    assert(shows_at(t, b, " err=".spec_bytes() + hex(info.err)));
    assert(shows_at(t, c, " rip=".spec_bytes() + hex(info.rip)));
    assert(shows_at(t, d, " rsp=".spec_bytes() + hex(info.rsp)));
    let u = fatal_fault_text(fault, err, rip, rsp);
    let first = match fault {
        FatalFault::GeneralProtection => labelled("[EXC] #GP err=", err),
        FatalFault::DoubleFault => labelled("[EXC] #DF err=", err),
    };
    let e = first.len() as int;
    let f = e + labelled(" rip=", rip).len();
    assert(shows_at(u, 0, first));
    assert(shows_at(u, e, " rip=".spec_bytes() + hex(rip)));
    assert(shows_at(u, f, " rsp=".spec_bytes() + hex(rsp)));
}

/// A call of user code is shown with where it came from, its number and its words, and the
/// echo with what user code made of the answer.
#[verifier::rlimit(40)]
pub proof fn law_calls_are_shown(
    rip: u64,
    rsp: u64,
    sysno: u64,
    a0: u64,
    a1: u64,
    a2: u64,
    echo: u64,
)
    ensures
        ({
            let t = demo_call_text(rip, rsp, sysno, a0, a1, a2);
            &&& shows(t, " rip=", rip)
            &&& shows(t, " rsp=", rsp)
            &&& shows(t, " sysno=", sysno)
            &&& shows(t, " a0=", a0)
            &&& shows(t, " a1=", a1)
            &&& shows(t, " a2=", a2)
        }),
        shows(demo_echo_text(rip, rsp, echo), " rip=", rip),
        shows(demo_echo_text(rip, rsp, echo), " rsp=", rsp),
        shows(demo_echo_text(rip, rsp, echo), " echo=", echo),
        shows(demo_end_text(echo), " echo=", echo),
{
    let t = demo_call_text(rip, rsp, sysno, a0, a1, a2);
    let k0 = "[INT80] syscall enter\n".spec_bytes().len() as int;
    let k1 = k0 + labelled(" rip=", rip).len();
    let k2 = k1 + labelled(" rsp=", rsp).len() + "\n".spec_bytes().len();
    let k3 = k2 + labelled(" sysno=", sysno).len();
    let k4 = k3 + labelled(" a0=", a0).len();
    let k5 = k4 + labelled(" a1=", a1).len();
    assert(shows_at(t, k0, " rip=".spec_bytes() + hex(rip)));
    assert(shows_at(t, k1, " rsp=".spec_bytes() + hex(rsp)));
    assert(shows_at(t, k2, " sysno=".spec_bytes() + hex(sysno)));
    assert(shows_at(t, k3, " a0=".spec_bytes() + hex(a0)));
    assert(shows_at(t, k4, " a1=".spec_bytes() + hex(a1)));
    assert(shows_at(t, k5, " a2=".spec_bytes() + hex(a2)));
    let u = demo_echo_text(rip, rsp, echo);
    let j0 = "[INT80] verify user_echo\n".spec_bytes().len() as int;
    let j1 = j0 + labelled(" rip=", rip).len();
    let j2 = j1 + labelled(" rsp=", rsp).len() + "\n".spec_bytes().len();
    assert(shows_at(u, j0, " rip=".spec_bytes() + hex(rip)));
    assert(shows_at(u, j1, " rsp=".spec_bytes() + hex(rsp)));
    assert(shows_at(u, j2, " echo=".spec_bytes() + hex(echo)));
    let v = demo_end_text(echo);
    let i0 = "[INT80] final\n".spec_bytes().len() as int;
    assert(shows_at(v, i0, " echo=".spec_bytes() + hex(echo)));
}

/// A panic is shown with its line and column.
pub proof fn law_panic_place_is_shown(line: u32, col: u32)
    ensures
        shows(panic_text(false, Some((line, col))), "[PANIC] location line=", line as u64),
        shows(panic_text(false, Some((line, col))), " col=", col as u64),
{
    let t = panic_text(false, Some((line, col)));
    let a = "[PANIC] kernel panic\n".spec_bytes().len() as int;
    let b = a + labelled("[PANIC] location line=", line as u64).len();
    assert(shows_at(t, a, "[PANIC] location line=".spec_bytes() + hex(line as u64)));
    assert(shows_at(t, b, " col=".spec_bytes() + hex(col as u64)));
}

/// The words of a call lie below the stack pointer, eight bytes each and none over another,
/// wherever the stack pointer is.
pub proof fn law_slots_are_apart(user_rsp: u64, x: int, y: int)
    requires
        8 <= x <= 48,
        8 <= y <= 48,
        user_rsp >= 48,
    ensures
        below(user_rsp, x) + x == user_rsp,
        x != y ==> below(user_rsp, x) != below(user_rsp, y),
{
}

/// The demo of a call adds: its answer to call 1 is the sum of the three words, short of a
/// multiple of two to the power of sixty-four.
pub proof fn law_demo_adds(a0: u64, a1: u64, a2: u64)
    ensures
        exists|k: int|
            #![trigger k * 0x1_0000_0000_0000_0000]
            a0 + a1 + a2 == k * 0x1_0000_0000_0000_0000 + demo_answer(1, a0, a1, a2),
{
    let sum = a0 + a1 + a2;
    let k = sum / 0x1_0000_0000_0000_0000;
    assert(sum == k * 0x1_0000_0000_0000_0000 + sum % 0x1_0000_0000_0000_0000);
}

} // verus!
