//! Traces of message passing: the system calls, and the paths that messages take.

use vstd::bytes::{spec_u64_to_le_bytes, u64_to_le_bytes};
use vstd::prelude::*;

use crate::kernel::lines::{info, lines_if, push_info, push_value, tells, value};
use crate::kernel::types::{EndpointId, KernelFeatures, LogLine, TaskId};

verus! {

#[derive(Clone, Copy, Debug, PartialEq, Eq, Structural)]
pub enum IpcSyscallKind {
    Recv,
    Send,
    Reply,
}

#[derive(Clone, Copy, Debug, PartialEq, Eq, Structural)]
pub enum IpcPathEvent {
    SendFast,
    SendSlow,
    RecvFast,
    RecvSlow,
    ReplyDelivered,
    ReplyNoWaiter,
}

/// Where the hash starts.
pub const FNV_OFFSET: u64 = 0xcbf2_9ce4_8422_2325;

/// What each step of the hash multiplies by.
pub const FNV_PRIME: u64 = 0x100_0000_01b3;

/// The FNV-1a hash of some bytes, in 64 bits.
pub open spec fn fnv1a(bytes: Seq<u8>) -> u64
    decreases bytes.len(),
{
    if bytes.len() == 0 {
        FNV_OFFSET
    } else {
        ((fnv1a(bytes.drop_last()) ^ (bytes.last() as u64)) * FNV_PRIME
            % 0x1_0000_0000_0000_0000) as u64
    }
}

/// The hash by which an identifier shows in a trace: that of its eight bytes, lowest
/// first.
pub open spec fn id_hash(id: u64) -> u64 {
    fnv1a(spec_u64_to_le_bytes(id))
}

/// The hash by which an identifier shows in a trace.
pub fn stable_hash64(id: u64) -> (h: u64)
    ensures
        h == id_hash(id),
{
    let bytes: Vec<u8> = u64_to_le_bytes(id);
    let mut h: u64 = FNV_OFFSET;
    let mut i: usize = 0;
    while i < bytes.len()
        invariant
            i <= bytes@.len(),
            h == fnv1a(bytes@.take(i as int)),
        decreases bytes@.len() - i,
    {
        assert(bytes@.take(i + 1).drop_last() =~= bytes@.take(i as int));
        h = (h ^ (bytes[i] as u64)).wrapping_mul(FNV_PRIME);
        i += 1;
    }
    assert(bytes@.take(i as int) =~= bytes@);
    h
}

pub open spec fn syscall_kind_line(kind: IpcSyscallKind) -> LogLine {
    match kind {
        IpcSyscallKind::Recv => info("ipc_trace kind=ipc_recv"),
        IpcSyscallKind::Send => info("ipc_trace kind=ipc_send"),
        IpcSyscallKind::Reply => info("ipc_trace kind=ipc_reply"),
    }
}

/// The trace of a system call for message passing.
pub open spec fn syscall_lines(
    kind: IpcSyscallKind,
    task: TaskId,
    ep: EndpointId,
    msg: Option<u64>,
) -> Seq<LogLine> {
    seq![
        syscall_kind_line(kind),
        value("task_id_hash", id_hash(task.0)),
        value("ep_id_hash", id_hash(ep.0 as u64)),
    ] + match msg {
        Some(m) => seq![value("msg", m)],
        None => Seq::empty(),
    }
}

/// Traces a system call for message passing.
pub fn trace_ipc_syscall(
    kind: IpcSyscallKind,
    task: TaskId,
    ep: EndpointId,
    msg: Option<u64>,
    out: &mut Vec<LogLine>,
)
    ensures
        final(out)@ == old(out)@ + syscall_lines(kind, task, ep, msg),
{
    match kind {
        IpcSyscallKind::Recv => push_info(out, "ipc_trace kind=ipc_recv"),
        IpcSyscallKind::Send => push_info(out, "ipc_trace kind=ipc_send"),
        IpcSyscallKind::Reply => push_info(out, "ipc_trace kind=ipc_reply"),
    }
    push_value(out, "task_id_hash", stable_hash64(task.0));
    push_value(out, "ep_id_hash", stable_hash64(ep.0 as u64));
    match msg {
        Some(m) => push_value(out, "msg", m),
        None => {},
    }
    assert(out@ =~= old(out)@ + syscall_lines(kind, task, ep, msg));
}

/// Traces a call to receive, if such calls are traced.
pub fn trace_ipc_syscall_recv(
    features: &KernelFeatures,
    tid: &TaskId,
    ep: &EndpointId,
    out: &mut Vec<LogLine>,
)
    ensures
        final(out)@ == old(out)@ + lines_if(
            features.traces_syscalls(),
            syscall_lines(IpcSyscallKind::Recv, *tid, *ep, None),
        ),
{
    if features.traces_syscalls() {
        trace_ipc_syscall(IpcSyscallKind::Recv, *tid, *ep, None, out);
    } else {
        assert(out@ =~= old(out)@ + Seq::<LogLine>::empty());
    }
}

/// Traces a call to send, if such calls are traced.
pub fn trace_ipc_syscall_send(
    features: &KernelFeatures,
    tid: &TaskId,
    ep: &EndpointId,
    msg: u64,
    out: &mut Vec<LogLine>,
)
    ensures
        final(out)@ == old(out)@ + lines_if(
            features.traces_syscalls(),
            syscall_lines(IpcSyscallKind::Send, *tid, *ep, Some(msg)),
        ),
{
    if features.traces_syscalls() {
        trace_ipc_syscall(IpcSyscallKind::Send, *tid, *ep, Some(msg), out);
    } else {
        assert(out@ =~= old(out)@ + Seq::<LogLine>::empty());
    }
}

/// Traces a call to reply, if such calls are traced.
pub fn trace_ipc_syscall_reply(
    features: &KernelFeatures,
    tid: &TaskId,
    ep: &EndpointId,
    msg: u64,
    out: &mut Vec<LogLine>,
)
    ensures
        final(out)@ == old(out)@ + lines_if(
            features.traces_syscalls(),
            syscall_lines(IpcSyscallKind::Reply, *tid, *ep, Some(msg)),
        ),
{
    if features.traces_syscalls() {
        trace_ipc_syscall(IpcSyscallKind::Reply, *tid, *ep, Some(msg), out);
    } else {
        assert(out@ =~= old(out)@ + Seq::<LogLine>::empty());
    }
}

/// The line for a path that a message took.
pub open spec fn path_line(event: IpcPathEvent) -> LogLine {
    match event {
        IpcPathEvent::SendFast => info("ipc_trace_paths send=fast"),
        IpcPathEvent::SendSlow => info("ipc_trace_paths send=slow"),
        IpcPathEvent::RecvFast => info("ipc_trace_paths recv=fast"),
        IpcPathEvent::RecvSlow => info("ipc_trace_paths recv=slow"),
        IpcPathEvent::ReplyDelivered => info("ipc_trace_paths reply=delivered"),
        IpcPathEvent::ReplyNoWaiter => info("ipc_trace_paths reply=no_waiter"),
    }
}

/// Traces the path that a message took, in one line, if paths are traced.
pub fn trace_ipc_path(features: &KernelFeatures, ev: IpcPathEvent, out: &mut Vec<LogLine>)
    ensures
        final(out)@ == old(out)@ + lines_if(features.ipc_trace_paths, seq![path_line(ev)]),
{
    if features.ipc_trace_paths {
        match ev {
            IpcPathEvent::SendFast => push_info(out, "ipc_trace_paths send=fast"),
            IpcPathEvent::SendSlow => push_info(out, "ipc_trace_paths send=slow"),
            IpcPathEvent::RecvFast => push_info(out, "ipc_trace_paths recv=fast"),
            IpcPathEvent::RecvSlow => push_info(out, "ipc_trace_paths recv=slow"),
            IpcPathEvent::ReplyDelivered => push_info(out, "ipc_trace_paths reply=delivered"),
            IpcPathEvent::ReplyNoWaiter => push_info(out, "ipc_trace_paths reply=no_waiter"),
        }
    } else {
        assert(out@ =~= old(out)@ + Seq::<LogLine>::empty());
    }
}

/// The trace of a call says what kind it is, who made it, where, and with which word: two
/// traces are the same only if all of these, or the hashes by which they show, are the same.
#[verifier::rlimit(40)]
pub proof fn law_trace_tells_the_call(
    kind: IpcSyscallKind,
    task: TaskId,
    ep: EndpointId,
    msg: Option<u64>,
    other_kind: IpcSyscallKind,
)
    ensures
        ({
            let l = syscall_lines(kind, task, ep, msg);
            &&& tells(l, "task_id_hash", id_hash(task.0) as int)
            &&& tells(l, "ep_id_hash", id_hash(ep.0 as u64) as int)
            &&& msg matches Some(m) ==> tells(l, "msg", m as int)
            &&& msg is None ==> l.len() == 3
        }),
        syscall_kind_line(kind) == syscall_kind_line(other_kind) ==> kind == other_kind,
{
    let l = syscall_lines(kind, task, ep, msg);
    assert(l[1] is Value && l[2] is Value);
    if msg is Some {
        assert(l[3] is Value);
    }
    reveal_strlit("ipc_trace kind=ipc_recv");
    reveal_strlit("ipc_trace kind=ipc_send");
    reveal_strlit("ipc_trace kind=ipc_reply");
    assert("ipc_trace kind=ipc_recv"@[19] == 'r');
    assert("ipc_trace kind=ipc_send"@[19] == 's');
    assert("ipc_trace kind=ipc_reply"@.len() == 24);
}

/// Different paths have different lines.
#[verifier::rlimit(40)]
pub proof fn law_trace_tells_the_path(a: IpcPathEvent, b: IpcPathEvent)
    requires
        path_line(a) == path_line(b),
    ensures
        a == b,
{
    reveal_strlit("ipc_trace_paths send=fast");
    reveal_strlit("ipc_trace_paths send=slow");
    reveal_strlit("ipc_trace_paths recv=fast");
    reveal_strlit("ipc_trace_paths recv=slow");
    reveal_strlit("ipc_trace_paths reply=delivered");
    reveal_strlit("ipc_trace_paths reply=no_waiter");
    let s = path_line(a)->Info_msg@;
    let t = path_line(b)->Info_msg@;
    assert(s[16] == t[16] && s[21] == t[21] && s[22] == t[22]);
}

} // verus!
