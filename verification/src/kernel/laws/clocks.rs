//! The clocks of the kernel and of its tasks, and the frames that it takes.

use vstd::prelude::*;

use crate::kernel::laws::programs::says;
use crate::kernel::model::{initial_kernel, KernelView};
use crate::kernel::types::{
    Effect, KernelFeatures, LogEvent, LogLine, TaskState, MAX_ENDPOINTS, MAX_TASKS,
};
use crate::mem::addr::PhysFrame;
use crate::mem::address_space::{slot_used, AddressSpaceKind};
use crate::seqs::{lemma_filter_none, lemma_first_such_none};

verus! {

/// A tick begins with the count one higher; the log and the output tell the new count, and
/// the output tells who runs. A heartbeat comes with every fiftieth tick.
#[verifier::rlimit(40)]
pub proof fn law_tick_counts_on(m: KernelView)
    requires
        m.wf(),
        m.tick_count < u64::MAX,
    ensures
        ({
            let n = m.begin_tick();
            &&& n.tick_count == m.tick_count + 1
            &&& n.events.len() > 0 && n.events.last() == LogEvent::TickStarted(n.tick_count)
            &&& says(m, n, "tick_count", n.tick_count)
            &&& says(m, n, "running_task", m.tasks[m.current as int].id.0)
            &&& n.tick_count as int % 50 == 0 ==> says(m, n, "tick", n.tick_count)
            &&& n.effects.len() == m.effects.len() + if n.tick_count as int % 50 == 0 {
                5int
            } else {
                3
            }
            &&& n.time_ticks == m.time_ticks && n.tasks == m.tasks && n.current == m.current
        }),
{
    let n = m.begin_tick();
    let k = m.effects.len() as int;
    assert(n.effects[k + 1] == (Effect::Say {
        line: LogLine::Value { key: "tick_count", value: n.tick_count },
    }));
    assert(n.effects[n.effects.len() - 1] == (Effect::Say {
        line: LogLine::Value { key: "running_task", value: m.tasks[m.current as int].id.0 },
    }));
    if n.tick_count as int % 50 == 0 {
        assert(n.effects[k + 3] == (Effect::Say {
            line: LogLine::Value { key: "tick", value: n.tick_count },
        }));
    }
}

/// The timer moves on by one, and the log tells the new time before anybody is woken.
#[verifier::rlimit(40)]
pub proof fn law_timer_moves_on(m: KernelView)
    requires
        m.wf(),
        m.time_ticks < u64::MAX,
        m.waiting.len() == 0,
    ensures
        ({
            let n = m.update_timer();
            &&& n.time_ticks == m.time_ticks + 1
            &&& n.events.last() == LogEvent::TimerUpdated(n.time_ticks)
            &&& says(m, n, "time_ticks", n.time_ticks)
            &&& n.tick_count == m.tick_count && n.tasks == m.tasks && n.ready == m.ready
        }),
{
    let n = m.update_timer();
    lemma_first_such_none(m.waiting, m.is_sleeper());
    assert(n.effects[m.effects.len() as int] == (Effect::Say {
        line: LogLine::Value { key: "time_ticks", value: n.time_ticks },
    }));
}

/// A tick is put down to the task that ran, and to no other.
pub proof fn law_runtime_is_put_down_to_who_ran(m: KernelView, ran: usize)
    requires
        m.wf(),
        ran < MAX_TASKS,
        m.state(ran) != TaskState::Dead,
        m.tasks[ran as int].runtime_ticks < u64::MAX,
    ensures
        ({
            let n = m.update_runtime(ran);
            let t = m.tasks[ran as int];
            let u = n.tasks[ran as int];
            &&& u.runtime_ticks == t.runtime_ticks + 1
            &&& u.state == t.state && u.time_slice_used == t.time_slice_used
            &&& n.events.last() == LogEvent::RuntimeUpdated(t.id, u.runtime_ticks)
            &&& says(m, n, "runtime_ticks", u.runtime_ticks)
            &&& forall|i: int|
                0 <= i < MAX_TASKS && i != ran ==> #[trigger] n.tasks[i] == m.tasks[i]
        }),
{
    let n = m.update_runtime(ran);
    assert(n.effects[m.effects.len() as int] == (Effect::Say {
        line: LogLine::Value {
            key: "runtime_ticks",
            value: n.tasks[ran as int].runtime_ticks,
        },
    }));
}

/// Taking a frame takes the one that is first in line, and leaves the others in line. Where
/// there is none, the kernel halts.
pub proof fn law_first_frame_is_taken(
    m: KernelView,
    taken: &'static str,
    missing: &'static str,
)
    ensures
        ({
            let n = m.take_frame(taken, missing);
            &&& m.frames.len() > 0 ==> m.frames == seq![m.frames[0]] + n.frames && n.events.last()
                == LogEvent::FrameAllocated && n.should_halt == m.should_halt
            &&& m.frames.len() == 0 ==> n.should_halt && n.frames == m.frames && n.events
                == m.events
            &&& n.tasks == m.tasks && n.spaces == m.spaces
        }),
{
    if m.frames.len() > 0 {
        assert(m.frames =~= seq![m.frames[0]] + m.frames.skip(1));
    }
}

proof fn lemma_take_frames(m: KernelView, n: int)
    requires
        0 <= n,
    ensures
        m.frames.len() >= n ==> m.take_frames(n).frames == m.frames.skip(n) && m.take_frames(
            n,
        ).should_halt == m.should_halt,
        m.frames.len() < n ==> m.take_frames(n).frames.len() == 0 && m.take_frames(n).should_halt,
        m.take_frames(n).tasks == m.tasks,
        m.take_frames(n).spaces == m.spaces,
        m.take_frames(n).tick_count == m.tick_count,
    decreases n,
{
    if n > 0 {
        let t = m.take_frame("allocated usable frame (bootstrap)", "no more frames in bootstrap");
        if m.frames.len() > 0 {
            lemma_take_frames(t, n - 1);
            if m.frames.len() >= n {
                assert(t.frames.skip(n - 1) =~= m.frames.skip(n));
            }
        }
    } else {
        assert(m.frames.skip(0) =~= m.frames);
    }
}

/// Before the first tick five frames are taken, those that are first in line; with fewer of
/// them the kernel halts.
pub proof fn law_start_takes_five_frames(m: KernelView)
    ensures
        m.frames.len() >= 5 ==> m.bootstrap().frames == m.frames.skip(5)
            && m.bootstrap().should_halt == m.should_halt,
        m.frames.len() < 5 ==> m.bootstrap().frames.len() == 0 && m.bootstrap().should_halt,
        m.bootstrap().tasks == m.tasks,
        m.bootstrap().spaces == m.spaces,
        m.bootstrap().tick_count == m.tick_count,
{
    lemma_take_frames(m.info("KernelState::bootstrap()"), 5);
}

/// At the start the two user tasks get the first two free frames as the roots of their address
/// spaces, one each, and the machine is told to fill these two and no others. What is left of
/// the frames is in line behind them. The kernel task runs in the address space that the
/// machine is in.
#[verifier::rlimit(40)]
pub proof fn law_user_tasks_start_with_roots_of_their_own(
    frames: Seq<u64>,
    kernel_root: PhysFrame,
    features: KernelFeatures,
)
    requires
        frames.len() >= 2,
    ensures
        ({
            let m = initial_kernel(frames, kernel_root, features);
            let a = m.space_of(1);
            let b = m.space_of(2);
            &&& m.space_of(0).kind == AddressSpaceKind::Kernel
            &&& m.space_of(0).root_page_frame == Some(kernel_root)
            &&& a.kind == AddressSpaceKind::User && b.kind == AddressSpaceKind::User
            &&& a.root_page_frame matches Some(first) && b.root_page_frame matches Some(second)
                && {
                &&& frames == seq![first.number, second.number] + m.frames
                &&& forall|root: PhysFrame|
                    m.effects.contains(Effect::InitUserPml4 { root }) <==> root == first || root
                        == second
            }
            &&& m.space_of(0).mappings().len() == 0 && a.mappings().len() == 0
                && b.mappings().len() == 0
            &&& m.current == 0 && m.state(0) == TaskState::Running
            &&& m.state(1) == TaskState::Ready && m.state(2) == TaskState::Ready
            &&& m.tasks[0].priority < m.tasks[2].priority < m.tasks[1].priority
        }),
{
    let m = initial_kernel(frames, kernel_root, features);
    let first = PhysFrame { number: frames[0] };
    let second = PhysFrame { number: frames[1] };
    assert(frames =~= seq![first.number, second.number] + m.frames);
    assert(m.effects[3] == (Effect::InitUserPml4 { root: first }));
    assert(m.effects[8] == (Effect::InitUserPml4 { root: second }));
    assert forall|root: PhysFrame|
        m.effects.contains(Effect::InitUserPml4 { root }) <==> root == first || root
            == second by {
        if m.effects.contains(Effect::InitUserPml4 { root }) {
            let i = choose|i: int|
                0 <= i < m.effects.len() && m.effects[i] == (Effect::InitUserPml4 { root });
            assert(i == 3 || i == 8);
        }
    }
    lemma_filter_none(
        m.spaces[0].slots,
        slot_used(),
    );
    lemma_filter_none(
        m.spaces[1].slots,
        slot_used(),
    );
    lemma_filter_none(
        m.spaces[2].slots,
        slot_used(),
    );
}

/// At the start both endpoints are open and nobody waits there; the first one is the third
/// task's where the demo of closing it wants that. No task has a word yet, nor has run.
pub proof fn law_start_is_quiet(frames: Seq<u64>, kernel_root: PhysFrame, features: KernelFeatures)
    ensures
        ({
            let m = initial_kernel(frames, kernel_root, features);
            &&& forall|i: int|
                0 <= i < MAX_ENDPOINTS ==> {
                    let e = #[trigger] m.endpoints[i];
                    &&& e.id.0 == i
                    &&& !e.is_closed && e.recv_waiter is None
                    &&& e.send_queue.len() == 0 && e.reply_queue.len() == 0
                    &&& e.owner == if i == 0 && features.endpoint_close_test {
                        Some(m.tasks[2].id)
                    } else {
                        None
                    }
                }
            &&& forall|i: int|
                0 <= i < MAX_TASKS ==> {
                    let t = #[trigger] m.tasks[i];
                    &&& t.id.0 == i + 1
                    &&& t.runtime_ticks == 0 && t.time_slice_used == 0
                    &&& t.last_msg is None && t.last_reply is None && t.last_syscall_ret is None
                    &&& t.pending_send_msg is None && t.pending_syscall is None
                    &&& t.blocked_reason is None
                }
            &&& m.tick_count == 0 && m.time_ticks == 0 && m.events.len() == 0 && !m.should_halt
            &&& m.features == features
            &&& m.quantum == 5
        }),
{
}

} // verus!
