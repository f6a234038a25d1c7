//! Message passing is logged: every call that is not refused leaves its event in the log,
//! and so does what came of it.

use vstd::prelude::*;

use crate::kernel::laws::consistency::other_user;
use crate::kernel::laws::messages::{
    handed_over, lemma_handed_over, lemma_last_sender, lemma_receiver_at,
    lemma_reply_queue_has_room, lemma_reply_waiter, lemma_same_places, lemma_waiting_to_recv,
    lemma_waiting_to_send, may_call, waiting_to_recv, waiting_to_send,
};
use crate::kernel::laws::scheduling::{
    lemma_said, lemma_schedule_is, lemma_yield, roused, screen_of, IDLE_LINE, TRY_LINE,
};
use crate::kernel::model::{keep_last, KernelView};
use crate::kernel::sched::lemma_show_ready_queue;
use crate::kernel::types::{EndpointId, LogEvent, TaskId, TaskState, EVENT_LOG_CAP};
use crate::seqs::{equal_to, lemma_first_such_is};

verus! {

/// A log after more events were recorded.
spec fn with_events(s: Seq<LogEvent>, evs: Seq<LogEvent>) -> Seq<LogEvent> {
    keep_last(s + evs, EVENT_LOG_CAP as int)
}

/// The log `t` is the log `s` with `k` more events recorded at most.
spec fn grew(s: Seq<LogEvent>, t: Seq<LogEvent>, k: int) -> bool {
    exists|evs: Seq<LogEvent>| evs.len() <= k && t == #[trigger] with_events(s, evs)
}

/// A log after one more event.
spec fn and_then(s: Seq<LogEvent>, ev: LogEvent) -> Seq<LogEvent> {
    keep_last(s.push(ev), EVENT_LOG_CAP as int)
}

proof fn lemma_grew_nothing(s: Seq<LogEvent>)
    requires
        s.len() <= EVENT_LOG_CAP,
    ensures
        grew(s, s, 0),
{
    assert(with_events(s, Seq::empty()) =~= s);
}

proof fn lemma_grew_less(s: Seq<LogEvent>, t: Seq<LogEvent>, j: int, k: int)
    requires
        grew(s, t, j),
        j <= k,
    ensures
        grew(s, t, k),
{
    let evs = choose|evs: Seq<LogEvent>|
        evs.len() <= j && t == #[trigger] with_events(s, evs);
    assert(evs.len() <= k && t == with_events(s, evs));
}

proof fn lemma_grew_one(s: Seq<LogEvent>, t: Seq<LogEvent>, ev: LogEvent, k: int)
    requires
        grew(s, t, k),
    ensures
        grew(s, and_then(t, ev), k + 1),
{
    let evs = choose|evs: Seq<LogEvent>|
        evs.len() <= k && t == #[trigger] with_events(s, evs);
    assert(s + evs.push(ev) =~= (s + evs).push(ev));
    assert(and_then(t, ev) =~= with_events(s, evs.push(ev)));
}

/// The last event of a log is still there after a few more.
proof fn lemma_last_stays(s: Seq<LogEvent>, t: Seq<LogEvent>, k: int)
    requires
        0 < s.len() <= EVENT_LOG_CAP,
        grew(s, t, k),
        k < EVENT_LOG_CAP,
    ensures
        t.contains(s.last()),
{
    let evs = choose|evs: Seq<LogEvent>|
        evs.len() <= k && t == #[trigger] with_events(s, evs);
    let all = s + evs;
    assert(all[s.len() - 1] == s.last());
    if all.len() > EVENT_LOG_CAP {
        assert(t[EVENT_LOG_CAP - 1 - evs.len()] == s.last());
    } else {
        assert(t[s.len() - 1] == s.last());
    }
}

proof fn lemma_grew_yield(s: Seq<LogEvent>, m: KernelView, k: int)
    requires
        m.wf(),
        grew(s, m.events, k),
    ensures
        grew(s, m.yield_current().events, k + 2),
{
    let t = m.tasks[m.current as int];
    let ready = LogEvent::TaskStateChanged(t.id, TaskState::Ready);
    let one = and_then(m.events, ready);
    lemma_grew_one(s, m.events, ready, k);
    lemma_grew_one(s, one, LogEvent::ReadyQueued(t.id), k + 1);
    lemma_grew_less(s, m.events, k, k + 2);
    lemma_grew_less(s, one, k + 1, k + 2);
}

proof fn lemma_grew_switch(s: Seq<LogEvent>, t: Seq<LogEvent>, id: TaskId, k: int)
    requires
        grew(s, t, k),
    ensures
        grew(
            s,
            and_then(
                and_then(t, LogEvent::TaskSwitched(id)),
                LogEvent::TaskStateChanged(id, TaskState::Running),
            ),
            k + 2,
        ),
{
    let switched = LogEvent::TaskSwitched(id);
    lemma_grew_one(s, t, switched, k);
    lemma_grew_one(
        s,
        and_then(t, switched),
        LogEvent::TaskStateChanged(id, TaskState::Running),
        k + 1,
    );
}

proof fn lemma_grew_run_next(s: Seq<LogEvent>, m: KernelView, prev: usize, k: int)
    requires
        grew(s, m.events, k),
    ensures
        grew(s, m.run_next(prev).events, k + 3),
{
    lemma_grew_less(s, m.events, k, k + 3);
    if let Some(next) = m.next_ready() {
        let id = m.tasks[next as int].id;
        let left = LogEvent::ReadyDequeued(id);
        lemma_grew_one(s, m.events, left, k);
        assert(m.dequeue_ready().events == and_then(m.events, left));
        lemma_grew_switch(s, and_then(m.events, left), id, k + 1);
    }
}

proof fn lemma_grew_roused(s: Seq<LogEvent>, m: KernelView, k: int)
    requires
        m.placed(),
        grew(s, m.events, k),
    ensures
        grew(s, roused(m).events, k + 2),
{
    lemma_grew_less(s, m.events, k, k + 2);
    if m.ready.len() == 0 && m.waiting.len() > 0 {
        let i = m.waiting[0];
        let id = m.tasks[i as int].id;
        let left = LogEvent::WaitDequeued(id);
        let ready = LogEvent::TaskStateChanged(id, TaskState::Ready);
        lemma_grew_one(s, m.events, left, k);
        lemma_grew_one(s, and_then(m.events, left), ready, k + 1);
        assert(m.waiting.contains(i));
        lemma_first_such_is(m.waiting, m.info(TRY_LINE).is_sleeper(), 0);
        lemma_first_such_is(m.waiting, equal_to(i), 0);
        assert(roused(m).events == and_then(and_then(m.events, left), ready));
    }
}

/// Scheduling records seven events at most.
proof fn lemma_grew_schedule(s: Seq<LogEvent>, m: KernelView, k: int)
    requires
        m.placed(),
        grew(s, m.events, k),
    ensures
        grew(s, m.schedule().events, k + 7),
{
    lemma_schedule_is(m);
    let e = m.emit(screen_of(m));
    lemma_said(m, e);
    lemma_yield(e);
    let y = e.yield_current();
    lemma_grew_yield(s, e, k);
    lemma_grew_roused(s, y, k + 2);
    let w = roused(y);
    lemma_show_ready_queue(w);
    lemma_grew_run_next(s, w.show_ready_queue(), m.current, k + 4);
    lemma_grew_switch(s, w.events, w.tasks[0].id, k + 4);
    lemma_grew_less(s, w.events, k + 4, k + 7);
    lemma_grew_less(s, w.info(IDLE_LINE).run_idle().events, k + 6, k + 7);
}

/// A call to send is logged, and so is that the message arrived, or that its sender waits.
pub proof fn law_sends_are_logged(m: KernelView, ep: EndpointId, msg: u64)
    requires
        may_call(m, ep),
        !m.features.ring3_mailbox,
    ensures
        ({
            let id = m.tasks[m.current as int].id;
            let log = m.ipc_send(ep, msg).events;
            &&& log.contains(LogEvent::IpcSendCalled { task: id, ep, msg })
            &&& m.endpoints[ep.0 as int].recv_waiter matches Some(r) ==> log.contains(
                LogEvent::IpcDelivered { from: id, to: m.tasks[r as int].id, ep, msg },
            )
            &&& m.endpoints[ep.0 as int].recv_waiter is None ==> log.contains(
                LogEvent::IpcSendBlocked { task: id, ep },
            )
        }),
{
    reveal(KernelView::ipc_send);
    let c = m.current;
    let r = other_user(c);
    let id = m.tasks[c as int].id;
    let l = m.log(LogEvent::IpcSendCalled { task: id, ep, msg });
    lemma_same_places(m, l);
    lemma_receiver_at(l, ep);
    let s = l.events;
    lemma_grew_nothing(s);
    let woken = LogEvent::TaskStateChanged(m.tasks[r as int].id, TaskState::Ready);
    let blocked = LogEvent::TaskStateChanged(id, TaskState::Blocked);
    if m.endpoints[ep.0 as int].recv_waiter is Some {
        lemma_handed_over(l, ep, msg);
        let w = handed_over(l, ep, msg);
        let ev = LogEvent::IpcDelivered { from: id, to: m.tasks[r as int].id, ep, msg };
        assert(m.ipc_send(ep, msg) == w.schedule());
        assert(w.events == and_then(and_then(and_then(s, woken), blocked), ev));
        lemma_grew_one(s, s, woken, 0);
        lemma_grew_one(s, and_then(s, woken), blocked, 1);
        lemma_grew_one(s, and_then(and_then(s, woken), blocked), ev, 2);
        lemma_grew_schedule(s, w, 3);
        lemma_last_stays(s, w.schedule().events, 10);
        lemma_grew_nothing(w.events);
        lemma_grew_schedule(w.events, w, 0);
        lemma_last_stays(w.events, w.schedule().events, 7);
    } else {
        lemma_waiting_to_send(l, ep, msg);
        let w = waiting_to_send(l, ep, msg);
        let ev = LogEvent::IpcSendBlocked { task: id, ep };
        assert(m.ipc_send(ep, msg) == w.schedule());
        assert(w.events == and_then(and_then(s, blocked), ev));
        lemma_grew_one(s, s, blocked, 0);
        lemma_grew_one(s, and_then(s, blocked), ev, 1);
        lemma_grew_schedule(s, w, 2);
        lemma_last_stays(s, w.schedule().events, 9);
        lemma_grew_nothing(w.events);
        lemma_grew_schedule(w.events, w, 0);
        lemma_last_stays(w.events, w.schedule().events, 7);
    }
}

/// A call to receive is logged, and so is that a message arrived, or that the receiver
/// waits.
pub proof fn law_recvs_are_logged(m: KernelView, ep: EndpointId)
    requires
        may_call(m, ep),
        !m.features.ring3_mailbox,
    ensures
        ({
            let id = m.tasks[m.current as int].id;
            let from = m.tasks[other_user(m.current) as int];
            let end = m.endpoints[ep.0 as int];
            let log = m.ipc_recv(ep).events;
            &&& log.contains(LogEvent::IpcRecvCalled { task: id, ep })
            &&& end.send_queue.len() > 0 ==> log.contains(
                LogEvent::IpcDelivered {
                    from: from.id,
                    to: id,
                    ep,
                    msg: from.pending_send_msg->0,
                },
            )
            &&& end.send_queue.len() == 0 && end.recv_waiter is None ==> log.contains(
                LogEvent::IpcRecvBlocked { task: id, ep },
            )
        }),
{
    reveal(KernelView::ipc_recv);
    let c = m.current;
    let id = m.tasks[c as int].id;
    let from = m.tasks[other_user(c) as int];
    let l = m.log(LogEvent::IpcRecvCalled { task: id, ep });
    lemma_same_places(m, l);
    lemma_last_sender(l, ep);
    let s = l.events;
    let n = m.ipc_recv(ep);
    lemma_grew_nothing(s);
    if m.endpoints[ep.0 as int].send_queue.len() > 0 {
        assert(l.user_task_ok(other_user(c)));
        lemma_reply_queue_has_room(l, ep.0 as int);
        let blocked = LogEvent::TaskStateChanged(from.id, TaskState::Blocked);
        let ev = LogEvent::IpcDelivered {
            from: from.id,
            to: id,
            ep,
            msg: from.pending_send_msg->0,
        };
        assert(n.events == and_then(and_then(s, blocked), ev));
        lemma_grew_one(s, s, blocked, 0);
        lemma_grew_one(s, and_then(s, blocked), ev, 1);
        lemma_last_stays(s, n.events, 2);
        lemma_grew_nothing(n.events);
        lemma_last_stays(n.events, n.events, 0);
    } else if m.endpoints[ep.0 as int].recv_waiter is None {
        lemma_waiting_to_recv(l, ep);
        let w = waiting_to_recv(l, ep);
        let blocked = LogEvent::TaskStateChanged(id, TaskState::Blocked);
        let ev = LogEvent::IpcRecvBlocked { task: id, ep };
        assert(n == w.schedule());
        assert(w.events == and_then(and_then(s, blocked), ev));
        lemma_grew_one(s, s, blocked, 0);
        lemma_grew_one(s, and_then(s, blocked), ev, 1);
        lemma_grew_schedule(s, w, 2);
        lemma_last_stays(s, w.schedule().events, 9);
        lemma_grew_nothing(w.events);
        lemma_grew_schedule(w.events, w, 0);
        lemma_last_stays(w.events, w.schedule().events, 7);
    } else {
        lemma_last_stays(s, n.events, 0);
    }
}

/// A reply that reaches somebody is logged, and so is that it did.
pub proof fn law_replies_are_logged(m: KernelView, ep: EndpointId, msg: u64)
    requires
        may_call(m, ep),
        m.blocked_for_reply(other_user(m.current), ep.0 as int),
    ensures
        ({
            let id = m.tasks[m.current as int].id;
            let to = m.tasks[other_user(m.current) as int].id;
            let log = m.ipc_reply(ep, msg).events;
            &&& log.contains(LogEvent::IpcReplyCalled { task: id, ep, to })
            &&& log.contains(LogEvent::IpcReplyDelivered { from: id, to, ep })
        }),
{
    reveal(KernelView::ipc_reply);
    lemma_reply_waiter(m, ep);
    let id = m.tasks[m.current as int].id;
    let to = m.tasks[other_user(m.current) as int].id;
    let s = and_then(m.events, LogEvent::IpcReplyCalled { task: id, ep, to });
    let woken = LogEvent::TaskStateChanged(to, TaskState::Ready);
    let ev = LogEvent::IpcReplyDelivered { from: id, to, ep };
    let n = m.ipc_reply(ep, msg);
    assert(n.events == and_then(and_then(s, woken), ev));
    lemma_grew_nothing(s);
    lemma_grew_one(s, s, woken, 0);
    lemma_grew_one(s, and_then(s, woken), ev, 1);
    lemma_last_stays(s, n.events, 2);
    lemma_grew_nothing(n.events);
    lemma_last_stays(n.events, n.events, 0);
}

} // verus!
