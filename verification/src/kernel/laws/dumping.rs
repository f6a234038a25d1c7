//! The dump tells the state: what it shows can be read back from it.

use vstd::prelude::*;

use crate::kernel::dump::{
    blocked_reason_lines, event_lines, mapping_dump_of, optional_lines,
};
use crate::kernel::lines::{info, lines_for, reads, tells, value};
use crate::kernel::model::KernelView;
use crate::kernel::types::{
    BlockedReason, LogEvent, LogLine, TaskKillReason, TaskState, MAX_ENDPOINTS, MAX_TASKS,
};
use crate::mem::address_space::{slot_used, AddressSpaceKind, AddressSpaceView, Mapping};
use crate::mem::paging::MemAction;
use crate::seqs::{lemma_filter_from, lemma_filter_len, lemma_filter_order};

verus! {

/// From position `k` on the lines are those of the block.
pub open spec fn stands_at(lines: Seq<LogLine>, k: int, block: Seq<LogLine>) -> bool {
    &&& 0 <= k
    &&& k + block.len() <= lines.len()
    &&& forall|i: int| 0 <= i < block.len() ==> lines[k + i] == #[trigger] block[i]
}

proof fn lemma_part(n: int, f: spec_fn(int) -> Seq<LogLine>, i: int)
    requires
        0 <= i < n,
    ensures
        stands_at(lines_for(n, f), lines_for(i, f).len() as int, f(i)),
        lines_for(i + 1, f).len() == lines_for(i, f).len() + f(i).len(),
    decreases n,
{
    assert(lines_for(i + 1, f) == lines_for(i, f) + f(i));
    if i < n - 1 {
        lemma_part(n - 1, f, i);
    }
}

/// The parts of the dump, one after the other.
spec fn parts(m: KernelView) -> (int, int, int, int) {
    let tasks = lines_for(m.events.len() as int, m.event_dump_at()).len() + 3int;
    let spaces = tasks + lines_for(MAX_TASKS as int, m.task_dump_at()).len() + 2int;
    let endpoints = spaces + lines_for(MAX_TASKS as int, m.space_dump_at()).len() + 2int;
    let counters = endpoints + lines_for(MAX_ENDPOINTS as int, m.endpoint_dump_at()).len() + 2int;
    (tasks, spaces, endpoints, counters)
}

#[verifier::rlimit(40)]
proof fn lemma_parts(m: KernelView)
    ensures
        stands_at(m.dump(), 1, lines_for(m.events.len() as int, m.event_dump_at())),
        stands_at(m.dump(), parts(m).0, lines_for(MAX_TASKS as int, m.task_dump_at())),
        stands_at(m.dump(), parts(m).1, lines_for(MAX_TASKS as int, m.space_dump_at())),
        stands_at(m.dump(), parts(m).2, lines_for(MAX_ENDPOINTS as int, m.endpoint_dump_at())),
        stands_at(m.dump(), parts(m).3, m.counters_dump()),
        m.dump().len() == parts(m).3 + m.counters_dump().len() + 1,
{
}

proof fn lemma_within(
    lines: Seq<LogLine>,
    k: int,
    block: Seq<LogLine>,
    l: int,
    inner: Seq<LogLine>,
)
    requires
        stands_at(lines, k, block),
        stands_at(block, l, inner),
    ensures
        stands_at(lines, k + l, inner),
{
    assert forall|i: int| 0 <= i < inner.len() implies lines[k + l + i] == #[trigger] inner[i] by {
        assert(lines[k + (l + i)] == block[l + i]);
    }
}

/// At position `k` the four lines of a mapping: its page, the frame that the page is mapped
/// to, and the flags.
pub open spec fn shows_mapping(lines: Seq<LogLine>, k: int, m: Mapping) -> bool {
    &&& 0 <= k && k + 4 <= lines.len()
    &&& lines[k] == LogLine::Info { msg: "MAPPING:" }
    &&& lines[k + 1] == LogLine::Value { key: "virt_page_index", value: m.page.number }
    &&& lines[k + 2] == LogLine::Value { key: "phys_frame_index", value: m.frame.number }
    &&& lines[k + 3] == LogLine::Value { key: "flags_bits", value: m.flags.bits }
}

/// At position `k` the address space of task `i`: whose it is, its kind and its root, and
/// then its mappings, one after the other.
pub open spec fn shows_space(lines: Seq<LogLine>, k: int, m: KernelView, i: int) -> bool {
    let t = m.tasks[i];
    let s = m.spaces[t.address_space_id.0 as int];
    &&& 0 <= k && k + 7 <= lines.len()
    &&& lines[k] == LogLine::Info { msg: "Task AddressSpace:" }
    &&& lines[k + 1] == LogLine::Value { key: "task_index", value: i as u64 }
    &&& lines[k + 2] == LogLine::Value { key: "task_id", value: t.id.0 }
    &&& s.kind == AddressSpaceKind::Kernel ==> lines[k + 3] == LogLine::Info {
        msg: "kind = Kernel",
    }
    &&& s.kind == AddressSpaceKind::User ==> lines[k + 3] == LogLine::Info { msg: "kind = User" }
    &&& s.root_page_frame matches Some(root) ==> lines[k + 4] == LogLine::Value {
        key: "root_page_frame_index",
        value: root.number,
    }
    &&& s.root_page_frame is None ==> lines[k + 4] is Info
    &&& lines[k + 5] == LogLine::Value {
        key: "address_space_id",
        value: t.address_space_id.0 as u64,
    }
    &&& lines[k + 6] is Value && lines[k + 6]->key == "mapping_count" && lines[k + 6]->value
        == s.mappings().len()
    &&& forall|c: int|
        0 <= c < s.mappings().len() ==> shows_mapping(
            lines,
            k + 7 + 4 * c,
            #[trigger] s.mappings()[c],
        )
}

proof fn lemma_mapping_lines(mappings: Seq<Mapping>, c: int)
    requires
        0 <= c,
    ensures
        lines_for(c, mapping_dump_of(mappings)).len() == 4 * c,
    decreases c,
{
    if c > 0 {
        lemma_mapping_lines(mappings, c - 1);
    }
}

proof fn lemma_space_stands(m: KernelView, i: int) -> (k: int)
    requires
        m.wf(),
        0 <= i < MAX_TASKS,
    ensures
        k == parts(m).1 + lines_for(i, m.space_dump_at()).len(),
        stands_at(m.dump(), k, m.space_dump(i)),
{
    let f = m.space_dump_at();
    lemma_parts(m);
    lemma_part(MAX_TASKS as int, f, i);
    lemma_within(
        m.dump(),
        parts(m).1,
        lines_for(MAX_TASKS as int, f),
        lines_for(i, f).len() as int,
        f(i),
    );
    parts(m).1 + lines_for(i, f).len()
}

#[verifier::rlimit(40)]
proof fn lemma_space_shown(m: KernelView, i: int, k: int)
    requires
        m.wf(),
        0 <= i < MAX_TASKS,
        stands_at(m.dump(), k, m.space_dump(i)),
    ensures
        shows_space(m.dump(), k, m, i),
{
    let d = m.dump();
    let b = m.space_dump(i);
    let s = m.spaces[m.tasks[i].address_space_id.0 as int];
    let ms = s.mappings();
    let g = mapping_dump_of(ms);
    lemma_filter_len(s.slots, slot_used());
    assert(d[k] == b[0] && d[k + 1] == b[1] && d[k + 2] == b[2] && d[k + 3] == b[3]);
    assert(d[k + 4] == b[4] && d[k + 5] == b[5] && d[k + 6] == b[6]);
    assert(stands_at(b, 7, lines_for(ms.len() as int, g)));
    lemma_within(d, k, b, 7, lines_for(ms.len() as int, g));
    assert forall|c: int| 0 <= c < ms.len() implies shows_mapping(
        d,
        k + 7 + 4 * c,
        #[trigger] ms[c],
    ) by {
        lemma_part(ms.len() as int, g, c);
        lemma_mapping_lines(ms, c);
        lemma_within(d, k + 7, lines_for(ms.len() as int, g), 4 * c, g(c));
        let l = g(c);
        let o = k + 7 + 4 * c;
        assert(d[o] == l[0] && d[o + 1] == l[1] && d[o + 2] == l[2] && d[o + 3] == l[3]);
    }
}

/// The mappings of every task can be read back from the dump: under the task's name stands
/// how many there are, and the block with the number `c` holds the page, the frame and the
/// flags of the mapping with that number.
pub proof fn law_dump_shows_the_mappings(m: KernelView, i: int)
    requires
        m.wf(),
        0 <= i < MAX_TASKS,
    ensures
        exists|k: int| shows_space(m.dump(), k, m, i),
{
    let k = lemma_space_stands(m, i);
    lemma_space_shown(m, i, k);
}

/// The mappings of an address space are its used slots: every one of them, and no others.
pub proof fn law_mappings_are_the_used_slots(s: AddressSpaceView, mp: Mapping)
    ensures
        s.mappings().contains(mp) <==> s.slots.contains(Some(mp)),
{
    let f = s.slots.filter(slot_used());
    lemma_filter_from(s.slots, slot_used());
    if s.mappings().contains(mp) {
        let c = choose|c: int| 0 <= c < s.mappings().len() && s.mappings()[c] == mp;
        assert(f[c] == Some(mp));
    }
    if s.slots.contains(Some(mp)) {
        assert(f.contains(Some(mp)));
        let c = choose|c: int| 0 <= c < f.len() && f[c] == Some(mp);
        assert(s.mappings()[c] == mp);
    }
}

/// The mappings of an address space come in the order of their slots.
pub proof fn law_mappings_come_in_slot_order(s: AddressSpaceView, x: int, y: int)
    requires
        0 <= x < y < s.slots.len(),
        s.slots[x] is Some,
        s.slots[y] is Some,
    ensures
        exists|c: int, d: int|
            0 <= c < d < s.mappings().len() && #[trigger] s.mappings()[c] == s.slots[x]->0
                && #[trigger] s.mappings()[d] == s.slots[y]->0,
{
    let f = s.slots.filter(slot_used());
    lemma_filter_order(s.slots, slot_used(), x, y);
    let (c, d) = choose|c: int, d: int|
        0 <= c < d < f.len() && #[trigger] f[c] == s.slots[x] && #[trigger] f[d] == s.slots[y];
    assert(s.mappings()[c] == s.slots[x]->0 && s.mappings()[d] == s.slots[y]->0);
}

/// Two kernels with the same log and the same tasks have different dumps as soon as any
/// address space differs in its kind, in its root, or in a mapping.
pub proof fn law_different_mappings_have_different_dumps(a: KernelView, b: KernelView, i: int)
    requires
        a.wf(),
        b.wf(),
        a.events == b.events,
        a.tasks == b.tasks,
        a.dump() == b.dump(),
        0 <= i < MAX_TASKS,
    ensures
        ({
            let s = a.spaces[a.tasks[i].address_space_id.0 as int];
            let t = b.spaces[b.tasks[i].address_space_id.0 as int];
            s.kind == t.kind && s.root_page_frame == t.root_page_frame && s.mappings()
                == t.mappings()
        }),
{
    assert(a.event_dump_at() =~= b.event_dump_at());
    assert(a.task_dump_at() =~= b.task_dump_at());
    lemma_same_spaces(a, b, i);
}

#[verifier::rlimit(40)]
proof fn lemma_same_space(a: KernelView, b: KernelView, i: int, k: int)
    requires
        a.wf(),
        b.wf(),
        a.tasks == b.tasks,
        0 <= i < MAX_TASKS,
        stands_at(a.dump(), k, a.space_dump(i)),
        stands_at(b.dump(), k, b.space_dump(i)),
        a.dump() == b.dump(),
    ensures
        ({
            let s = a.spaces[a.tasks[i].address_space_id.0 as int];
            let t = b.spaces[b.tasks[i].address_space_id.0 as int];
            s.kind == t.kind && s.root_page_frame == t.root_page_frame && s.mappings()
                == t.mappings()
        }),
        a.space_dump(i).len() == b.space_dump(i).len(),
{
    let s = a.spaces[a.tasks[i].address_space_id.0 as int];
    let t = b.spaces[b.tasks[i].address_space_id.0 as int];
    lemma_space_shown(a, i, k);
    lemma_space_shown(b, i, k);
    reveal_strlit("kind = Kernel");
    reveal_strlit("kind = User");
    assert("kind = Kernel"@.len() != "kind = User"@.len());
    assert(s.mappings().len() == t.mappings().len());
    assert forall|c: int| 0 <= c < s.mappings().len() implies s.mappings()[c]
        == t.mappings()[c] by {
        assert(shows_mapping(a.dump(), k + 7 + 4 * c, s.mappings()[c]));
        assert(shows_mapping(b.dump(), k + 7 + 4 * c, t.mappings()[c]));
    }
    assert(s.mappings() =~= t.mappings());
    lemma_mapping_lines(s.mappings(), s.mappings().len() as int);
    lemma_mapping_lines(t.mappings(), s.mappings().len() as int);
}

proof fn lemma_same_spaces(a: KernelView, b: KernelView, i: int)
    requires
        a.wf(),
        b.wf(),
        a.tasks == b.tasks,
        a.dump() == b.dump(),
        parts(a).1 == parts(b).1,
        0 <= i < MAX_TASKS,
    ensures
        ({
            let s = a.spaces[a.tasks[i].address_space_id.0 as int];
            let t = b.spaces[b.tasks[i].address_space_id.0 as int];
            s.kind == t.kind && s.root_page_frame == t.root_page_frame && s.mappings()
                == t.mappings()
        }),
        lines_for(i + 1, a.space_dump_at()).len() == lines_for(i + 1, b.space_dump_at()).len(),
    decreases i,
{
    if i > 0 {
        lemma_same_spaces(a, b, i - 1);
    }
    let k = lemma_space_stands(a, i);
    let l = lemma_space_stands(b, i);
    lemma_same_space(a, b, i, k);
    lemma_part(MAX_TASKS as int, a.space_dump_at(), i);
    lemma_part(MAX_TASKS as int, b.space_dump_at(), i);
}

/// The lines say what a page operation was about.
pub open spec fn tells_action(l: Seq<LogLine>, action: MemAction) -> bool {
    match action {
        MemAction::MapPage { page, frame, flags } => {
            &&& reads(l, "mem_action = Map")
            &&& tells(l, "virt_page_index", page.number as int)
            &&& tells(l, "phys_frame_index", frame.number as int)
            &&& tells(l, "flags_bits", flags.bits as int)
        },
        MemAction::Unmap { page } => {
            &&& reads(l, "mem_action = Unmap")
            &&& tells(l, "virt_page_index", page.number as int)
        },
    }
}

/// The lines say why a task was killed.
pub open spec fn tells_reason(l: Seq<LogLine>, reason: TaskKillReason) -> bool {
    match reason {
        TaskKillReason::UserPageFault { addr, err, rip } => {
            &&& reads(l, "reason = UserPageFault")
            &&& tells(l, "addr", addr as int)
            &&& tells(l, "err", err as int)
            &&& tells(l, "rip", rip as int)
        },
        TaskKillReason::DemoInjected { code } => {
            &&& reads(l, "reason = DemoInjected")
            &&& tells(l, "code", code as int)
        },
    }
}

/// The words for the state that a task has come into.
pub open spec fn state_words(state: TaskState) -> &'static str {
    match state {
        TaskState::Ready => "to READY",
        TaskState::Running => "to RUNNING",
        TaskState::Blocked => "to BLOCKED",
        TaskState::Dead => "to DEAD",
    }
}

/// The lines name everything that the event is about, each under its own name.
pub open spec fn tells_event(l: Seq<LogLine>, ev: LogEvent) -> bool {
    match ev {
        LogEvent::TickStarted(n) => tells(l, "tick", n as int),
        LogEvent::TimerUpdated(n) => tells(l, "time", n as int),
        LogEvent::FrameAllocated => true,
        LogEvent::TaskSwitched(tid) => tells(l, "task", tid.0 as int),
        LogEvent::TaskStateChanged(tid, state) => {
            &&& tells(l, "task", tid.0 as int)
            &&& reads(l, state_words(state))
        },
        LogEvent::ReadyQueued(tid) => tells(l, "task", tid.0 as int),
        LogEvent::ReadyDequeued(tid) => tells(l, "task", tid.0 as int),
        LogEvent::WaitQueued(tid) => tells(l, "task", tid.0 as int),
        LogEvent::WaitDequeued(tid) => tells(l, "task", tid.0 as int),
        LogEvent::RuntimeUpdated(tid, ticks) => {
            &&& tells(l, "task", tid.0 as int)
            &&& tells(l, "runtime", ticks as int)
        },
        LogEvent::QuantumExpired(tid, used) => {
            &&& tells(l, "task", tid.0 as int)
            &&& tells(l, "used_ticks", used as int)
        },
        LogEvent::MemActionApplied { task, address_space, action } => {
            &&& tells(l, "task", task.0 as int)
            &&& tells(l, "address_space_id", address_space.0 as int)
            &&& tells_action(l, action)
        },
        LogEvent::SyscallIssued { task } => tells(l, "task", task.0 as int),
        LogEvent::SyscallHandled { task } => tells(l, "task", task.0 as int),
        LogEvent::IpcRecvCalled { task, ep } => {
            &&& tells(l, "task", task.0 as int)
            &&& tells(l, "ep", ep.0 as int)
        },
        LogEvent::IpcRecvBlocked { task, ep } => {
            &&& tells(l, "task", task.0 as int)
            &&& tells(l, "ep", ep.0 as int)
        },
        LogEvent::IpcSendCalled { task, ep, msg } => {
            &&& tells(l, "task", task.0 as int)
            &&& tells(l, "ep", ep.0 as int)
            &&& tells(l, "msg", msg as int)
        },
        LogEvent::IpcSendBlocked { task, ep } => {
            &&& tells(l, "task", task.0 as int)
            &&& tells(l, "ep", ep.0 as int)
        },
        LogEvent::IpcDelivered { from, to, ep, msg } => {
            &&& tells(l, "from", from.0 as int)
            &&& tells(l, "to", to.0 as int)
            &&& tells(l, "ep", ep.0 as int)
            &&& tells(l, "msg", msg as int)
        },
        LogEvent::IpcReplyCalled { task, ep, to } => {
            &&& tells(l, "task", task.0 as int)
            &&& tells(l, "ep", ep.0 as int)
            &&& tells(l, "to", to.0 as int)
        },
        LogEvent::IpcReplyDelivered { from, to, ep } => {
            &&& tells(l, "from", from.0 as int)
            &&& tells(l, "to", to.0 as int)
            &&& tells(l, "ep", ep.0 as int)
        },
        LogEvent::TaskKilled { task, reason } => {
            &&& tells(l, "task", task.0 as int)
            &&& tells_reason(l, reason)
        },
    }
}

/// What the line says is among the lines.
spec fn tells_line(l: Seq<LogLine>, line: LogLine) -> bool {
    match line {
        LogLine::Value { key, value } => tells(l, key, value as int),
        LogLine::Info { msg } => reads(l, msg),
        LogLine::Error { .. } => true,
    }
}

proof fn lemma_tells(l: Seq<LogLine>, i: int)
    requires
        0 <= i < l.len(),
    ensures
        tells_line(l, l[i]),
{
}

proof fn lemma_tells_first(l: Seq<LogLine>)
    ensures
        l.len() > 0 ==> tells_line(l, l[0]),
        l.len() > 1 ==> tells_line(l, l[1]),
        l.len() > 2 ==> tells_line(l, l[2]),
        l.len() > 3 ==> tells_line(l, l[3]),
        l.len() > 4 ==> tells_line(l, l[4]),
        l.len() > 5 ==> tells_line(l, l[5]),
        l.len() > 6 ==> tells_line(l, l[6]),
{
}

/// Everything that an event is about can be read off its lines.
#[verifier::rlimit(40)]
pub proof fn law_event_lines_tell_the_event(ev: LogEvent)
    ensures
        tells_event(event_lines(ev), ev),
{
    let l = event_lines(ev);
    lemma_tells_first(l);
}

/// The kinds of events, numbered.
pub open spec fn kind(ev: LogEvent) -> int {
    match ev {
        LogEvent::TickStarted(..) => 0,
        LogEvent::TimerUpdated(..) => 1,
        LogEvent::FrameAllocated => 2,
        LogEvent::TaskSwitched(..) => 3,
        LogEvent::TaskStateChanged(..) => 4,
        LogEvent::ReadyQueued(..) => 5,
        LogEvent::ReadyDequeued(..) => 6,
        LogEvent::WaitQueued(..) => 7,
        LogEvent::WaitDequeued(..) => 8,
        LogEvent::RuntimeUpdated(..) => 9,
        LogEvent::QuantumExpired(..) => 10,
        LogEvent::MemActionApplied { .. } => 11,
        LogEvent::SyscallIssued { .. } => 12,
        LogEvent::SyscallHandled { .. } => 13,
        LogEvent::IpcRecvCalled { .. } => 14,
        LogEvent::IpcRecvBlocked { .. } => 15,
        LogEvent::IpcSendCalled { .. } => 16,
        LogEvent::IpcSendBlocked { .. } => 17,
        LogEvent::IpcDelivered { .. } => 18,
        LogEvent::IpcReplyCalled { .. } => 19,
        LogEvent::IpcReplyDelivered { .. } => 20,
        LogEvent::TaskKilled { .. } => 21,
    }
}

/// The number of the kind whose name stands in the heading of an event.
spec fn kind_of_heading(t: Seq<char>) -> int {
    if t.len() == 18 && t[7] == 'T' && t[12] == 't' {
        0
    } else if t.len() == 19 && t[7] == 'T' && t[12] == 'U' {
        1
    } else if t.len() == 21 && t[7] == 'F' && t[12] == 'A' {
        2
    } else if t.len() == 19 && t[7] == 'T' && t[12] == 'w' {
        3
    } else if t.len() == 23 && t[7] == 'T' && t[12] == 't' {
        4
    } else if t.len() == 18 && t[7] == 'R' && t[12] == 'Q' {
        5
    } else if t.len() == 20 && t[7] == 'R' && t[12] == 'D' {
        6
    } else if t.len() == 17 && t[7] == 'W' && t[12] == 'u' {
        7
    } else if t.len() == 19 && t[7] == 'W' && t[12] == 'e' {
        8
    } else if t.len() == 21 && t[7] == 'R' && t[12] == 'm' {
        9
    } else if t.len() == 21 && t[7] == 'Q' && t[12] == 'u' {
        10
    } else if t.len() == 23 && t[7] == 'M' && t[12] == 't' {
        11
    } else if t.len() == 20 && t[7] == 'S' && t[12] == 'l' {
        12
    } else if t.len() == 21 && t[7] == 'S' && t[12] == 'l' {
        13
    } else if t.len() == 20 && t[7] == 'I' && t[12] == 'c' {
        14
    } else if t.len() == 21 && t[7] == 'I' && t[12] == 'c' {
        15
    } else if t.len() == 20 && t[7] == 'I' && t[12] == 'n' {
        16
    } else if t.len() == 21 && t[7] == 'I' && t[12] == 'n' {
        17
    } else if t.len() == 19 && t[7] == 'I' && t[12] == 'l' {
        18
    } else if t.len() == 21 && t[7] == 'I' && t[12] == 'p' {
        19
    } else if t.len() == 24 && t[7] == 'I' && t[12] == 'p' {
        20
    } else if t.len() == 17 && t[7] == 'T' && t[12] == 'i' {
        21
    } else {
        -1
    }
}

#[verifier::rlimit(40)]
proof fn lemma_heading(ev: LogEvent)
    ensures
        event_lines(ev).len() > 0,
        event_lines(ev)[0] is Info,
        kind_of_heading(event_lines(ev)[0]->Info_msg@) == kind(ev),
{
    reveal_strlit("EVENT: TickStarted");
    reveal_strlit("EVENT: TimerUpdated");
    reveal_strlit("EVENT: FrameAllocated");
    reveal_strlit("EVENT: TaskSwitched");
    reveal_strlit("EVENT: TaskStateChanged");
    reveal_strlit("EVENT: ReadyQueued");
    reveal_strlit("EVENT: ReadyDequeued");
    reveal_strlit("EVENT: WaitQueued");
    reveal_strlit("EVENT: WaitDequeued");
    reveal_strlit("EVENT: RuntimeUpdated");
    reveal_strlit("EVENT: QuantumExpired");
    reveal_strlit("EVENT: MemActionApplied");
    reveal_strlit("EVENT: SyscallIssued");
    reveal_strlit("EVENT: SyscallHandled");
    reveal_strlit("EVENT: IpcRecvCalled");
    reveal_strlit("EVENT: IpcRecvBlocked");
    reveal_strlit("EVENT: IpcSendCalled");
    reveal_strlit("EVENT: IpcSendBlocked");
    reveal_strlit("EVENT: IpcDelivered");
    reveal_strlit("EVENT: IpcReplyCalled");
    reveal_strlit("EVENT: IpcReplyDelivered");
    reveal_strlit("EVENT: TaskKilled");
}

/// Events of different kinds look different, and two events look the same only if they are
/// the same event.
pub proof fn law_different_kinds_have_different_headings(a: LogEvent, b: LogEvent)
    requires
        event_lines(a)[0] == event_lines(b)[0],
    ensures
        kind(a) == kind(b),
{
    lemma_heading(a);
    lemma_heading(b);
}

/// Every event of the log stands in the dump, the oldest first, under the heading of the log.
pub proof fn law_dump_shows_the_log(m: KernelView, i: int)
    requires
        0 <= i < m.events.len(),
    ensures
        m.dump()[0] == (LogLine::Info { msg: "=== KernelState Event Log Dump ===" }),
        stands_at(
            m.dump(),
            1int + lines_for(i, m.event_dump_at()).len(),
            event_lines(m.events[i]),
        ),
        lines_for(i + 1, m.event_dump_at()).len() == lines_for(i, m.event_dump_at()).len()
            + event_lines(m.events[i]).len(),
{
    let f = m.event_dump_at();
    lemma_parts(m);
    lemma_part(m.events.len() as int, f, i);
    lemma_within(
        m.dump(),
        1,
        lines_for(m.events.len() as int, f),
        lines_for(i, f).len() as int,
        f(i),
    );
}

/// The dump ends with the counters, each under its own name.
#[verifier::rlimit(40)]
pub proof fn law_dump_shows_the_counters(m: KernelView)
    ensures
        ({
            let d = m.dump();
            let k = d.len() - 8;
            let c = m.counters;
            &&& k >= 0
            &&& d[k] == LogLine::Value { key: "sched_switches", value: c.sched_switches }
            &&& d[k + 1] == LogLine::Value { key: "ipc_send_fast", value: c.ipc_send_fast }
            &&& d[k + 2] == LogLine::Value { key: "ipc_send_slow", value: c.ipc_send_slow }
            &&& d[k + 3] == LogLine::Value { key: "ipc_recv_fast", value: c.ipc_recv_fast }
            &&& d[k + 4] == LogLine::Value { key: "ipc_recv_slow", value: c.ipc_recv_slow }
            &&& d[k + 5] == LogLine::Value {
                key: "ipc_reply_delivered",
                value: c.ipc_reply_delivered,
            }
            &&& d[k + 6] == LogLine::Value {
                key: "task_killed_user_pf",
                value: c.task_killed_user_pf,
            }
        }),
{
    lemma_parts(m);
    let k = parts(m).3;
    let b = m.counters_dump();
    assert(m.dump()[k] == b[0] && m.dump()[k + 1] == b[1] && m.dump()[k + 2] == b[2]);
    assert(m.dump()[k + 3] == b[3] && m.dump()[k + 4] == b[4] && m.dump()[k + 5] == b[5]);
    assert(m.dump()[k + 6] == b[6]);
}

/// The lines have the word under its key, or say that there is none.
pub open spec fn tells_word(
    l: Seq<LogLine>,
    word: Option<u64>,
    key: &'static str,
    missing: &'static str,
) -> bool {
    match word {
        Some(v) => tells(l, key, v as int),
        None => reads(l, missing),
    }
}

/// The lines say why a task is blocked, if it is.
pub open spec fn tells_block(l: Seq<LogLine>, reason: Option<BlockedReason>) -> bool {
    match reason {
        None => reads(l, "blocked_reason = None"),
        Some(BlockedReason::Sleep) => reads(l, "blocked_reason = Sleep"),
        Some(BlockedReason::IpcRecv { ep }) => reads(l, "blocked_reason = IpcRecv") && tells(
            l,
            "blocked_ep",
            ep.0 as int,
        ),
        Some(BlockedReason::IpcSend { ep }) => reads(l, "blocked_reason = IpcSend") && tells(
            l,
            "blocked_ep",
            ep.0 as int,
        ),
        Some(BlockedReason::IpcReply { partner, ep }) => reads(l, "blocked_reason = IpcReply")
            && tells(l, "blocked_ep", ep.0 as int) && tells(
            l,
            "blocked_partner_task_id",
            partner.0 as int,
        ),
    }
}

/// The lines name the task and tell its state, why it is blocked, and its words.
pub open spec fn tells_task(l: Seq<LogLine>, m: KernelView, i: int) -> bool {
    let t = m.tasks[i];
    &&& l.len() >= 5
    &&& l[0] == LogLine::Info { msg: "TASK:" }
    &&& tells(l, "task_index", i)
    &&& tells(l, "task_id", t.id.0 as int)
    &&& tells(l, "address_space_id", t.address_space_id.0 as int)
    &&& l[3] == LogLine::Info {
        msg: match t.state {
            TaskState::Ready => "state = Ready",
            TaskState::Running => "state = Running",
            TaskState::Blocked => "state = Blocked",
            TaskState::Dead => "state = Dead",
        },
    }
    &&& tells_block(l, t.blocked_reason)
    &&& t.pending_syscall is Some ==> reads(l, "pending_syscall = Some")
    &&& t.pending_syscall is None ==> reads(l, "pending_syscall = None")
    &&& tells_word(l, t.pending_send_msg, "pending_send_msg_value", "pending_send_msg = None")
    &&& tells_word(l, t.last_msg, "last_msg_value", "last_msg = None")
    &&& tells_word(l, t.last_reply, "last_reply_value", "last_reply = None")
    &&& tells_word(l, t.last_syscall_ret, "last_syscall_ret_value", "last_syscall_ret = None")
}

/// What a part tells, the whole tells.
#[verifier::rlimit(40)]
proof fn lemma_tells_more(a: Seq<LogLine>, b: Seq<LogLine>)
    ensures
        forall|key: &'static str, n: int| #[trigger] tells(a, key, n) ==> tells(a + b, key, n),
        forall|key: &'static str, n: int| #[trigger] tells(b, key, n) ==> tells(a + b, key, n),
        forall|msg: &'static str| #[trigger] reads(a, msg) ==> reads(a + b, msg),
        forall|msg: &'static str| #[trigger] reads(b, msg) ==> reads(a + b, msg),
{
    let c = a + b;
    assert forall|key: &'static str, n: int| #[trigger] tells(a, key, n) implies tells(
        c,
        key,
        n,
    ) by {
        let i = choose|i: int|
            0 <= i < a.len() && (#[trigger] a[i]) is Value && a[i]->key == key && a[i]->value == n;
        assert(c[i] == a[i]);
    }
    assert forall|key: &'static str, n: int| #[trigger] tells(b, key, n) implies tells(
        c,
        key,
        n,
    ) by {
        let i = choose|i: int|
            0 <= i < b.len() && (#[trigger] b[i]) is Value && b[i]->key == key && b[i]->value == n;
        assert(c[a.len() + i] == b[i]);
    }
    assert forall|msg: &'static str| #[trigger] reads(a, msg) implies reads(c, msg) by {
        let i = choose|i: int| 0 <= i < a.len() && a[i] == (LogLine::Info { msg });
        assert(c[i] == a[i]);
    }
    assert forall|msg: &'static str| #[trigger] reads(b, msg) implies reads(c, msg) by {
        let i = choose|i: int| 0 <= i < b.len() && b[i] == (LogLine::Info { msg });
        assert(c[a.len() + i] == b[i]);
    }
}

/// What any of the lines of the block says is among the lines.
spec fn tells_all(l: Seq<LogLine>, block: Seq<LogLine>) -> bool {
    forall|i: int| 0 <= i < block.len() ==> tells_line(l, #[trigger] block[i])
}

proof fn lemma_piece(l: Seq<LogLine>, k: int, block: Seq<LogLine>)
    requires
        stands_at(l, k, block),
    ensures
        tells_all(l, block),
{
    assert forall|i: int| 0 <= i < block.len() implies tells_line(l, #[trigger] block[i]) by {
        lemma_tells(l, k + i);
    }
}

#[verifier::rlimit(40)]
proof fn lemma_pieces(
    h: Seq<LogLine>,
    b: Seq<LogLine>,
    p: Seq<LogLine>,
    w: Seq<LogLine>,
    x: Seq<LogLine>,
    y: Seq<LogLine>,
    z: Seq<LogLine>,
)
    ensures
        ({
            let d = h + b + p + w + x + y + z;
            &&& stands_at(d, 0, h)
            &&& tells_all(d, h)
            &&& tells_all(d, b)
            &&& tells_all(d, p)
            &&& tells_all(d, w)
            &&& tells_all(d, x)
            &&& tells_all(d, y)
            &&& tells_all(d, z)
        }),
{
    let d = h + b + p + w + x + y + z;
    let k = h.len() as int;
    assert(stands_at(d, 0, h));
    assert(stands_at(d, k, b));
    assert(stands_at(d, k + b.len(), p));
    assert(stands_at(d, k + b.len() + p.len(), w));
    assert(stands_at(d, k + b.len() + p.len() + w.len(), x));
    assert(stands_at(d, k + b.len() + p.len() + w.len() + x.len(), y));
    assert(stands_at(d, k + b.len() + p.len() + w.len() + x.len() + y.len(), z));
    lemma_piece(d, 0, h);
    lemma_piece(d, k, b);
    lemma_piece(d, k + b.len(), p);
    lemma_piece(d, k + b.len() + p.len(), w);
    lemma_piece(d, k + b.len() + p.len() + w.len(), x);
    lemma_piece(d, k + b.len() + p.len() + w.len() + x.len(), y);
    lemma_piece(d, k + b.len() + p.len() + w.len() + x.len() + y.len(), z);
}

proof fn lemma_block_told(l: Seq<LogLine>, reason: Option<BlockedReason>)
    requires
        tells_all(l, blocked_reason_lines(reason)),
    ensures
        tells_block(l, reason),
{
    let b = blocked_reason_lines(reason);
    assert(tells_line(l, b[0]));
    if b.len() > 1 {
        assert(tells_line(l, b[1]));
    }
    if b.len() > 2 {
        assert(tells_line(l, b[2]));
    }
}

proof fn lemma_word_told(
    l: Seq<LogLine>,
    word: Option<u64>,
    present: &'static str,
    key: &'static str,
    missing: &'static str,
)
    requires
        tells_all(l, optional_lines(word, present, key, missing)),
    ensures
        tells_word(l, word, key, missing),
{
    let b = optional_lines(word, present, key, missing);
    assert(tells_line(l, b[b.len() - 1]));
}

#[verifier::rlimit(40)]
proof fn lemma_task_told(m: KernelView, i: int)
    requires
        0 <= i < MAX_TASKS,
        m.wf(),
    ensures
        tells_task(m.task_dump(i), m, i),
{
    let t = m.tasks[i];
    let d = m.task_dump(i);
    let h = seq![
        info("TASK:"),
        value("task_index", i as u64),
        value("task_id", t.id.0),
        info(
            match t.state {
                TaskState::Ready => "state = Ready",
                TaskState::Running => "state = Running",
                TaskState::Blocked => "state = Blocked",
                TaskState::Dead => "state = Dead",
            },
        ),
        value("address_space_id", t.address_space_id.0 as u64),
    ];
    let b = blocked_reason_lines(t.blocked_reason);
    let p = seq![
        info(
            if t.pending_syscall is Some {
                "pending_syscall = Some"
            } else {
                "pending_syscall = None"
            },
        ),
    ];
    let w = optional_lines(
        t.pending_send_msg,
        "pending_send_msg = Some",
        "pending_send_msg_value",
        "pending_send_msg = None",
    );
    let x = optional_lines(t.last_msg, "last_msg = Some", "last_msg_value", "last_msg = None");
    let y = optional_lines(
        t.last_reply,
        "last_reply = Some",
        "last_reply_value",
        "last_reply = None",
    );
    let z = optional_lines(
        t.last_syscall_ret,
        "last_syscall_ret = Some",
        "last_syscall_ret_value",
        "last_syscall_ret = None",
    );
    assert(d == h + b + p + w + x + y + z);
    lemma_pieces(h, b, p, w, x, y, z);
    lemma_block_told(d, t.blocked_reason);
    lemma_word_told(
        d,
        t.pending_send_msg,
        "pending_send_msg = Some",
        "pending_send_msg_value",
        "pending_send_msg = None",
    );
    lemma_word_told(d, t.last_msg, "last_msg = Some", "last_msg_value", "last_msg = None");
    lemma_word_told(d, t.last_reply, "last_reply = Some", "last_reply_value", "last_reply = None");
    lemma_word_told(
        d,
        t.last_syscall_ret,
        "last_syscall_ret = Some",
        "last_syscall_ret_value",
        "last_syscall_ret = None",
    );
    assert(tells_line(d, p[0]));
    assert(tells_line(d, h[1]) && tells_line(d, h[2]) && tells_line(d, h[4]));
    assert(d[0] == h[0] && d[3] == h[3]);
}

/// Every task stands in the dump: who it is, in which state, why it is blocked, and what it
/// was last told.
pub proof fn law_dump_shows_the_tasks(m: KernelView, i: int)
    requires
        m.wf(),
        0 <= i < MAX_TASKS,
    ensures
        exists|k: int, block: Seq<LogLine>|
            stands_at(m.dump(), k, block) && tells_task(block, m, i),
{
    let f = m.task_dump_at();
    lemma_parts(m);
    lemma_part(MAX_TASKS as int, f, i);
    lemma_within(
        m.dump(),
        parts(m).0,
        lines_for(MAX_TASKS as int, f),
        lines_for(i, f).len() as int,
        f(i),
    );
    lemma_task_told(m, i);
}

/// The lines name the index of a task and its id.
pub open spec fn tells_entry(
    l: Seq<LogLine>,
    m: KernelView,
    idx: usize,
    index_key: &'static str,
    id_key: &'static str,
) -> bool {
    &&& tells(l, index_key, idx as int)
    &&& idx < MAX_TASKS ==> tells(l, id_key, m.tasks[idx as int].id.0 as int)
}

/// The lines name the endpoint and tell who waits there, and for what.
pub open spec fn tells_endpoint(l: Seq<LogLine>, m: KernelView, i: int) -> bool {
    let e = m.endpoints[i];
    &&& l.len() >= 2
    &&& l[0] == LogLine::Info { msg: "ENDPOINT:" }
    &&& tells(l, "ep_id", e.id.0 as int)
    &&& match e.recv_waiter {
        Some(idx) => tells_entry(l, m, idx, "recv_waiter_task_index", "recv_waiter_task_id"),
        None => reads(l, "recv_waiter_task_index = None"),
    }
    &&& tells(l, "send_queue_len", e.send_queue.len() as int)
    &&& tells(l, "reply_queue_len", e.reply_queue.len() as int)
    &&& forall|pos: int|
        0 <= pos < e.send_queue.len() ==> tells_entry(
            l,
            m,
            #[trigger] e.send_queue[pos],
            "send_queue_task_index",
            "send_queue_task_id",
        )
    &&& forall|pos: int|
        0 <= pos < e.reply_queue.len() ==> tells_entry(
            l,
            m,
            #[trigger] e.reply_queue[pos],
            "reply_queue_task_index",
            "reply_queue_task_id",
        )
}

proof fn lemma_entry_told(m: KernelView, idx: usize, a: &'static str, b: &'static str)
    ensures
        tells_entry(m.entry_dump(idx, a, b), m, idx, a, b),
{
    let l = m.entry_dump(idx, a, b);
    lemma_tells(l, 0);
    if idx < MAX_TASKS {
        lemma_tells(l, 1);
    }
}

proof fn lemma_entries_told(m: KernelView, q: Seq<usize>, n: int, a: &'static str, b: &'static str)
    requires
        0 <= n <= q.len(),
    ensures
        forall|pos: int|
            0 <= pos < n ==> tells_entry(
                lines_for(n, m.entry_dump_of(q, a, b)),
                m,
                #[trigger] q[pos],
                a,
                b,
            ),
    decreases n,
{
    if n > 0 {
        let f = m.entry_dump_of(q, a, b);
        lemma_entries_told(m, q, n - 1, a, b);
        lemma_entry_told(m, q[n - 1], a, b);
        lemma_tells_more(lines_for(n - 1, f), f(n - 1));
    }
}

proof fn lemma_queue_told(
    m: KernelView,
    q: Seq<usize>,
    len: &'static str,
    a: &'static str,
    b: &'static str,
)
    requires
        q.len() <= MAX_TASKS,
    ensures
        tells(m.queue_dump(q, len, a, b), len, q.len() as int),
        forall|pos: int|
            0 <= pos < q.len() ==> tells_entry(
                m.queue_dump(q, len, a, b),
                m,
                #[trigger] q[pos],
                a,
                b,
            ),
{
    let h = seq![value(len, q.len() as u64)];
    lemma_entries_told(m, q, q.len() as int, a, b);
    lemma_tells(h, 0);
    lemma_tells_more(h, lines_for(q.len() as int, m.entry_dump_of(q, a, b)));
}

#[verifier::rlimit(40)]
proof fn lemma_endpoint_told(m: KernelView, i: int)
    requires
        m.wf(),
        0 <= i < MAX_ENDPOINTS,
    ensures
        tells_endpoint(m.endpoint_dump(i), m, i),
{
    let e = m.endpoints[i];
    let h = seq![info("ENDPOINT:"), value("ep_id", e.id.0 as u64)];
    let w = match e.recv_waiter {
        Some(idx) => m.entry_dump(idx, "recv_waiter_task_index", "recv_waiter_task_id"),
        None => seq![info("recv_waiter_task_index = None")],
    };
    let s = m.queue_dump(
        e.send_queue,
        "send_queue_len",
        "send_queue_task_index",
        "send_queue_task_id",
    );
    let r = m.queue_dump(
        e.reply_queue,
        "reply_queue_len",
        "reply_queue_task_index",
        "reply_queue_task_id",
    );
    assert(e.wf());
    lemma_tells(h, 1);
    lemma_tells(w, 0);
    if let Some(idx) = e.recv_waiter {
        lemma_entry_told(m, idx, "recv_waiter_task_index", "recv_waiter_task_id");
    }
    lemma_queue_told(
        m,
        e.send_queue,
        "send_queue_len",
        "send_queue_task_index",
        "send_queue_task_id",
    );
    lemma_queue_told(
        m,
        e.reply_queue,
        "reply_queue_len",
        "reply_queue_task_index",
        "reply_queue_task_id",
    );
    lemma_tells_more(h, w);
    lemma_tells_more(h + w, s);
    lemma_tells_more(h + w + s, r);
    assert(m.endpoint_dump(i) == h + w + s + r);
    assert(m.endpoint_dump(i)[0] == h[0]);
}

/// Every endpoint stands in the dump: which it is, and who waits there for what.
pub proof fn law_dump_shows_the_endpoints(m: KernelView, i: int)
    requires
        m.wf(),
        0 <= i < MAX_ENDPOINTS,
    ensures
        exists|k: int, block: Seq<LogLine>|
            stands_at(m.dump(), k, block) && tells_endpoint(block, m, i),
{
    let f = m.endpoint_dump_at();
    lemma_parts(m);
    lemma_part(MAX_ENDPOINTS as int, f, i);
    lemma_within(
        m.dump(),
        parts(m).2,
        lines_for(MAX_ENDPOINTS as int, f),
        lines_for(i, f).len() as int,
        f(i),
    );
    lemma_endpoint_told(m, i);
}

} // verus!
