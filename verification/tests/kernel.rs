//! The kernel: message passing, deaths, page calls, ticks and the mailbox.

use bootloader::bootinfo::{FrameRange, MemoryMap, MemoryRegion, MemoryRegionType};

use formal_os::arch::paging::{PageFaultInfo, PagingApplyError, USER_SPACE_BASE};
use formal_os::kernel::demo::ipc_faults::DEAD_PARTNER_CODE;
use formal_os::kernel::dump::log_event_to_vga;
use formal_os::kernel::ipc::{
    IPC_ERR_DEAD_PARTNER, IPC_ERR_ENDPOINT_CLOSED, IPC_ERR_RECV_ALREADY_WAITING,
};
use formal_os::kernel::kill::{show_unmapped, SHOWN_UNMAPS};
use formal_os::kernel::mem_demo::{
    demo_page_for_task, kernel_flags, show_user_rw, test_value, user_flags, DemoRequest,
    RW_AFTER_UNMAP_VALUE, RW_VALUE,
};
use formal_os::kernel::state::KernelState;
use formal_os::kernel::state_ref::{
    register_kernel_state, trap_answer, unregister_kernel_state, with_kernel_state,
    KernelStateRef,
};
use formal_os::kernel::syscall::{
    PageRequest, Syscall, SYSCALL_ERR_ALREADY_MAPPED, SYSCALL_ERR_ARCH_FAILED,
    SYSCALL_ERR_CAPACITY, SYSCALL_ERR_NOT_MAPPED, SYSCALL_OK,
};
use formal_os::kernel::tick::{mailbox_dispatch, MailboxReply, TickProgress, TICK_ROOM};
use formal_os::kernel::trace::{IpcPathEvent, IpcSyscallKind};
use formal_os::kernel::types::{
    next_activity_and_action, BlockedReason, Effect, EndpointId, FailStopReason, KernelAction,
    KernelActivity, KernelFeatures, LogEvent, LogLine, TaskId, TaskKillReason, TaskState,
};
use formal_os::kernel::user_program::tagged;
use formal_os::mem::addr::{PhysFrame, VirtPage};
use formal_os::mem::paging::MemAction;

const EP: EndpointId = EndpointId(0);

const FIRST_FRAME: u64 = 256;

fn kernel_with(frames: u64, features: KernelFeatures) -> KernelState {
    let mut map = MemoryMap::new();
    map.add_region(MemoryRegion {
        range: FrameRange {
            start_frame_number: FIRST_FRAME,
            end_frame_number: FIRST_FRAME + frames,
        },
        region_type: MemoryRegionType::Usable,
    });
    let map: &'static MemoryMap = Box::leak(Box::new(map));
    KernelState::checked_new(map, PhysFrame::from_index(1), features).unwrap()
}

fn kernel() -> KernelState {
    kernel_with(256, KernelFeatures::none())
}

fn events_of(ks: &KernelState) -> Vec<LogEvent> {
    (0..ks.event_log_len()).map(|i| ks.event_at(i)).collect()
}

/// What the kernel has asked for, without the lines that it has put out.
fn deeds(ks: &mut KernelState) -> Vec<Effect> {
    ks.take_effects().into_iter().filter(|e| !matches!(e, Effect::Say { .. })).collect()
}

/// The lines that the kernel has put out, without what else it has asked for.
fn said(ks: &mut KernelState) -> Vec<LogLine> {
    let mut lines = Vec::new();
    for e in ks.take_effects() {
        if let Effect::Say { line } = e {
            lines.push(line);
        }
    }
    lines
}

fn info(msg: &'static str) -> LogLine {
    LogLine::Info { msg }
}

fn error(msg: &'static str) -> LogLine {
    LogLine::Error { msg }
}

fn value(key: &'static str, value: u64) -> LogLine {
    LogLine::Value { key, value }
}

/// Carries a tick to its end on a machine whose page tables do what they are asked, and on
/// which user memory faults exactly when the demo page is not mapped.
fn finish(ks: &mut KernelState, progress: TickProgress) -> Vec<LogLine> {
    let mut p = progress;
    loop {
        assert!(ks.has_room(TICK_ROOM));
        p = match p {
            TickProgress::Halted => return Vec::new(),
            TickProgress::Done { violations } => return violations,
            TickProgress::KernelDemo { ctx, action } => {
                ks.resume_kernel_demo(ctx, action, Ok(()))
            }
            TickProgress::UserAccess { ctx, stage, rw } => {
                let answer = if stage == 1 {
                    Ok(rw.value)
                } else {
                    Err(PageFaultInfo {
                        addr: rw.addr,
                        err: 6,
                        rip: 0x1000,
                        rsp: 0x2000,
                        is_user_fault: false,
                    })
                };
                ks.resume_user_access(ctx, stage, answer)
            }
            TickProgress::PageCall { ctx, .. } => ks.resume_page_call(ctx, Ok(())),
            TickProgress::Stopped { reason } => panic!("the kernel stopped: {:?}", reason),
        };
    }
}

fn tick(ks: &mut KernelState) -> Vec<LogLine> {
    assert!(ks.has_room(TICK_ROOM));
    let p = ks.tick();
    finish(ks, p)
}

#[test]
fn kernel_starts_in_order() {
    let mut ks = kernel();
    assert_eq!(ks.current_task(), 0);
    assert_eq!(ks.task(0).state, TaskState::Running);
    assert_eq!(ks.task(1).state, TaskState::Ready);
    assert_eq!(ks.task(2).id, TaskId(3));
    assert_eq!(ks.task(1).priority, 3);
    assert_eq!(ks.ready_len(), 2);
    assert_eq!(ks.ready_at(0), 1);
    assert_eq!(ks.waiting_len(), 0);
    assert_eq!(ks.quantum(), 5);
    assert_eq!(ks.space(1).root_page_frame, Some(PhysFrame::from_index(FIRST_FRAME)));
    assert_eq!(ks.space(2).root_page_frame, Some(PhysFrame::from_index(FIRST_FRAME + 1)));
    assert_eq!(ks.debug_check_invariants(), Vec::new());
    let start = Effect::Say { line: info("init_user_pml4_from_current: start") };
    let done = Effect::Say { line: info("init_user_pml4_from_current: done") };
    assert_eq!(
        ks.take_effects(),
        vec![
            start,
            Effect::Say { line: value("as_idx", 1) },
            Effect::Say { line: value("root_page_frame_index", FIRST_FRAME) },
            Effect::InitUserPml4 { root: PhysFrame::from_index(FIRST_FRAME) },
            done,
            start,
            Effect::Say { line: value("as_idx", 2) },
            Effect::Say { line: value("root_page_frame_index", FIRST_FRAME + 1) },
            Effect::InitUserPml4 { root: PhysFrame::from_index(FIRST_FRAME + 1) },
            done,
        ]
    );
    assert_eq!(ks.take_effects(), Vec::new());
    let mut poor = kernel_with(1, KernelFeatures::none());
    let lines = said(&mut poor);
    assert_eq!(lines[lines.len() - 1], error("no more frames for user pml4"));
}

#[test]
fn kernel_refuses_a_map_beyond_the_machine() {
    let mut map = MemoryMap::new();
    map.add_region(MemoryRegion {
        range: FrameRange { start_frame_number: 0, end_frame_number: u64::MAX },
        region_type: MemoryRegionType::Usable,
    });
    let map: &'static MemoryMap = Box::leak(Box::new(map));
    assert!(
        KernelState::checked_new(map, PhysFrame::from_index(1), KernelFeatures::none()).is_none()
    );
}

#[test]
fn activities_follow_each_other() {
    let mut activity = KernelActivity::Idle;
    let mut actions = Vec::new();
    for _ in 0..4 {
        let (next, action) = next_activity_and_action(activity);
        actions.push(action);
        activity = next;
    }
    assert_eq!(
        actions,
        vec![
            KernelAction::Nothing,
            KernelAction::UpdateTimer,
            KernelAction::AllocateFrame,
            KernelAction::MemDemo,
        ]
    );
    assert_eq!(activity, KernelActivity::Idle);
}

#[test]
fn highest_priority_runs_next() {
    let mut ks = kernel();
    ks.schedule_next_task();
    assert_eq!(ks.current_task(), 1);
    assert_eq!(ks.task(1).state, TaskState::Running);
    assert_eq!(ks.ready_len(), 1);
    assert_eq!(ks.counters().sched_switches, 1);
    let effects = deeds(&mut ks);
    assert_eq!(
        effects[effects.len() - 1],
        Effect::SwitchAddressSpace { target: Some(PhysFrame::from_index(FIRST_FRAME)) }
    );
    ks.schedule_next_task();
    assert_eq!(ks.current_task(), 1);
    assert_eq!(ks.counters().sched_switches, 1);
}

#[test]
fn waiting_message_is_received_and_answered() {
    let mut ks = kernel();
    ks.schedule_next_task();
    ks.ipc_send(EP, 0x55);
    assert_eq!(ks.task(1).blocked_reason, Some(BlockedReason::IpcSend { ep: EP }));
    assert_eq!(ks.task(1).pending_send_msg, Some(0x55));
    assert_eq!(ks.endpoint(0).sq_len, 1);
    assert_eq!(ks.current_task(), 2);
    ks.ipc_recv(EP);
    assert_eq!(ks.task(2).last_msg, Some(0x55));
    assert_eq!(ks.task(2).state, TaskState::Running);
    assert_eq!(
        ks.task(1).blocked_reason,
        Some(BlockedReason::IpcReply { partner: TaskId(3), ep: EP })
    );
    assert_eq!(ks.endpoint(0).sq_len, 0);
    assert_eq!(ks.endpoint(0).rq_len, 1);
    ks.ipc_reply(EP, 0x99);
    assert_eq!(ks.task(1).last_reply, Some(0x99));
    assert_eq!(ks.task(1).state, TaskState::Ready);
    assert!(ks.is_in_ready_queue(1));
    assert_eq!(ks.endpoint(0).rq_len, 0);
    let c = ks.counters();
    assert_eq!((c.ipc_send_slow, c.ipc_recv_fast, c.ipc_reply_delivered), (1, 1, 1));
    assert_eq!((c.ipc_send_fast, c.ipc_recv_slow), (0, 0));
    assert_eq!(ks.debug_check_invariants(), Vec::new());
}

#[test]
fn awaited_message_is_delivered_and_answered() {
    let mut ks = kernel();
    ks.schedule_next_task();
    ks.ipc_recv(EP);
    assert_eq!(ks.task(1).blocked_reason, Some(BlockedReason::IpcRecv { ep: EP }));
    assert_eq!(ks.endpoint(0).recv_waiter, Some(1));
    assert_eq!(ks.current_task(), 2);
    ks.ipc_send(EP, 7);
    assert_eq!(ks.task(1).last_msg, Some(7));
    assert_eq!(ks.endpoint(0).recv_waiter, None);
    assert_eq!(ks.current_task(), 1);
    assert_eq!(
        ks.task(2).blocked_reason,
        Some(BlockedReason::IpcReply { partner: TaskId(2), ep: EP })
    );
    ks.ipc_reply(EP, 8);
    assert_eq!(ks.task(2).last_reply, Some(8));
    assert_eq!(ks.task(2).state, TaskState::Ready);
    let c = ks.counters();
    assert_eq!((c.ipc_send_fast, c.ipc_recv_slow, c.ipc_reply_delivered), (1, 1, 1));
    assert_eq!(
        events_of(&ks).iter().filter(|e| matches!(e, LogEvent::IpcDelivered { .. })).count(),
        1
    );
}

#[test]
fn reply_without_a_waiter_does_nothing() {
    let mut ks = kernel();
    ks.schedule_next_task();
    let before = ks.task(2);
    ks.ipc_reply(EP, 1);
    assert_eq!(ks.task(2), before);
    assert_eq!(ks.counters().ipc_reply_delivered, 0);
    let effects = ks.take_effects();
    assert_eq!(
        effects[effects.len() - 1],
        Effect::IpcPath { event: IpcPathEvent::ReplyNoWaiter }
    );

    // The second task waits for a reply of the third at one endpoint; a reply of the third
    // at the other one, and one of the second itself, leave it waiting.
    let mut ks = kernel();
    ks.schedule_next_task();
    ks.ipc_send(EP, 0x55);
    assert_eq!(ks.current_task(), 2);
    ks.ipc_recv(EP);
    let waiting = ks.task(1);
    assert_eq!(
        waiting.blocked_reason,
        Some(BlockedReason::IpcReply { partner: TaskId(3), ep: EP })
    );
    ks.take_effects();
    ks.ipc_reply(EndpointId(1), 7);
    assert_eq!(ks.task(1), waiting);
    assert_eq!(ks.endpoint(0).rq_len, 1);
    assert_eq!(ks.task(2).state, TaskState::Running);
    assert_eq!(
        ks.take_effects(),
        vec![Effect::IpcPath { event: IpcPathEvent::ReplyNoWaiter }]
    );
    assert_eq!(ks.counters().ipc_reply_delivered, 0);
}

#[test]
fn reply_leaves_the_waiters_of_others_in_the_queue() {
    // With a mailbox the caller stays current though it waits, so the second task can reply
    // where it waits for a reply itself.
    let features = KernelFeatures { ring3_mailbox: true, ..KernelFeatures::none() };
    let mut ks = kernel_with(256, features);
    ks.schedule_next_task();
    assert_eq!(ks.current_task(), 1);
    ks.ipc_recv(EP);
    assert_eq!(ks.current_task(), 1);
    ks.schedule_next_task();
    assert_eq!(ks.current_task(), 2);
    ks.ipc_send(EP, 5);
    assert_eq!(ks.task(1).last_msg, Some(5));
    let waiting = ks.task(2);
    assert_eq!(
        waiting.blocked_reason,
        Some(BlockedReason::IpcReply { partner: TaskId(2), ep: EP })
    );
    assert_eq!(ks.current_task(), 2);
    ks.take_effects();
    ks.ipc_reply(EP, 9);
    assert_eq!(ks.task(2), waiting);
    assert_eq!(ks.endpoint(0).rq_len, 1);
    assert_eq!(ks.endpoint(0).reply_queue[0], 2);
    assert_eq!(ks.counters().ipc_reply_delivered, 0);
    assert_eq!(
        ks.take_effects(),
        vec![Effect::IpcPath { event: IpcPathEvent::ReplyNoWaiter }]
    );
    ks.schedule_next_task();
    assert_eq!(ks.current_task(), 1);
    ks.ipc_reply(EP, 9);
    assert_eq!(ks.task(2).last_reply, Some(9));
    assert_eq!(ks.endpoint(0).rq_len, 0);
}

#[test]
fn broken_reply_waiters_are_sent_on() {
    // Blocking a task that waits for a reply for another reason breaks its entry in the
    // queue: the next reply there takes the entry out and sends the task on.
    let mut ks = kernel();
    ks.schedule_next_task();
    ks.ipc_send(EP, 0x55);
    ks.ipc_recv(EP);
    assert_eq!(ks.current_task(), 2);
    ks.block_task(1, BlockedReason::IpcSend { ep: EndpointId(1) });
    assert_eq!(ks.endpoint(0).rq_len, 1);
    ks.take_effects();
    ks.ipc_reply(EP, 9);
    assert_eq!(ks.endpoint(0).rq_len, 0);
    assert_eq!(ks.task(1).last_reply, Some(IPC_ERR_DEAD_PARTNER));
    assert_eq!(ks.task(1).state, TaskState::Ready);
    assert_eq!(ks.task(1).blocked_reason, None);
    assert_eq!(ks.counters().ipc_reply_delivered, 0);
    assert_eq!(
        said(&mut ks),
        vec![
            error("ipc: reply_queue blocked_reason mismatch; drop (will rescue)"),
            value("task_id", 2),
        ]
    );
}

#[test]
fn broken_senders_are_sent_on() {
    let mut ks = kernel();
    ks.schedule_next_task();
    ks.ipc_send(EP, 0x55);
    assert_eq!(ks.current_task(), 2);
    ks.block_task(1, BlockedReason::IpcRecv { ep: EndpointId(1) });
    ks.take_effects();
    ks.ipc_recv(EP);
    assert_eq!(ks.endpoint(0).sq_len, 0);
    assert_eq!(ks.task(1).last_reply, Some(IPC_ERR_DEAD_PARTNER));
    assert_eq!(ks.task(1).pending_send_msg, None);
    assert_eq!(ks.task(2).last_msg, None);
    assert_eq!(ks.endpoint(0).recv_waiter, Some(2));
    assert_eq!(ks.current_task(), 1);
    let lines = said(&mut ks);
    assert_eq!(
        lines[..2],
        [
            error("ipc_recv_fastpath: sender blocked_reason mismatch; drop"),
            value("task_id", 2),
        ]
    );
}

#[test]
fn message_passing_is_logged() {
    let mut ks = kernel();
    ks.schedule_next_task();
    ks.ipc_send(EP, 0x55);
    let (two, three) = (TaskId(2), TaskId(3));
    let events = events_of(&ks);
    assert!(events.contains(&LogEvent::IpcSendCalled { task: two, ep: EP, msg: 0x55 }));
    assert!(events.contains(&LogEvent::IpcSendBlocked { task: two, ep: EP }));
    ks.ipc_recv(EP);
    let events = events_of(&ks);
    assert!(events.contains(&LogEvent::IpcRecvCalled { task: three, ep: EP }));
    let delivered = LogEvent::IpcDelivered { from: two, to: three, ep: EP, msg: 0x55 };
    assert_eq!(events[events.len() - 1], delivered);
    ks.ipc_reply(EP, 9);
    let events = events_of(&ks);
    assert!(events.contains(&LogEvent::IpcReplyCalled { task: three, ep: EP, to: two }));
    assert_eq!(
        events[events.len() - 1],
        LogEvent::IpcReplyDelivered { from: three, to: two, ep: EP }
    );
    ks.ipc_recv(EP);
    assert!(events_of(&ks).contains(&LogEvent::IpcRecvBlocked { task: three, ep: EP }));
}

#[test]
fn refused_calls_are_logged() {
    let mut ks = kernel();
    ks.take_effects();
    ks.ipc_reply(EndpointId(7), 1);
    assert_eq!(said(&mut ks), vec![error("ipc_reply: ep out of range")]);
    ks.ipc_recv(EP);
    assert_eq!(
        said(&mut ks),
        vec![
            error("ipc: kernel task is forbidden to call IPC (rejected at entry)"),
            info("api=ipc_recv"),
            value("task_id", 1),
            value("ep_id", 0),
        ]
    );
    assert_eq!(ks.handle_syscall(Syscall::IpcSend { ep: EndpointId(1), msg: 1 }), Ok(None));
    assert_eq!(
        said(&mut ks),
        vec![
            error("syscall: kernel task IPC is forbidden (ignored at syscall boundary)"),
            value("task_id", 1),
            value("ep_id", 1),
        ]
    );
    ks.close_endpoint_and_rescue_waiters(EP);
    assert_eq!(
        said(&mut ks),
        vec![error("ipc: endpoint CLOSED; rescuing waiters"), value("ep_id", 0)]
    );
    ks.schedule_next_task();
    ks.take_effects();
    ks.ipc_send(EP, 1);
    assert_eq!(
        said(&mut ks),
        vec![
            error("ipc: endpoint is CLOSED (rejected at entry)"),
            info("api=ipc_send"),
            value("task_id", 2),
            value("ep_id", 0),
        ]
    );
}

#[test]
fn schedule_puts_out_the_ready_queue() {
    let mut ks = kernel();
    ks.take_effects();
    ks.schedule_next_task();
    assert_eq!(
        said(&mut ks),
        vec![
            info("sched: dump ready_queue before dequeue"),
            value("rq_len", 2),
            value("rq[pos].task_index", 1),
            value("rq[pos].task_id", 2),
            info("rq[pos].state = Ready"),
            value("rq[pos].prio", 3),
            value("rq[pos].task_index", 2),
            value("rq[pos].task_id", 3),
            info("rq[pos].state = Ready"),
            value("rq[pos].prio", 2),
        ]
    );
    ks.ipc_recv(EP);
    ks.take_effects();
    ks.ipc_recv(EndpointId(1));
    assert_eq!(
        said(&mut ks),
        vec![
            info("schedule_next_task: still no ready tasks; run idle(task0) and continue"),
        ]
    );
    assert_eq!(ks.current_task(), 0);
}

#[test]
fn ticks_are_logged() {
    let mut ks = kernel();
    ks.take_effects();
    ks.bootstrap();
    let mut lines = vec![info("KernelState::bootstrap()")];
    lines.extend([info("allocated usable frame (bootstrap)"); 5]);
    assert_eq!(said(&mut ks), lines);
    tick(&mut ks);
    assert_eq!(
        said(&mut ks),
        vec![
            info("KernelState::tick()"),
            value("tick_count", 1),
            value("running_task", 1),
            info("action = None"),
            value("runtime_ticks", 1),
            value("time_slice_used", 1),
        ]
    );
    tick(&mut ks);
    assert_eq!(said(&mut ks)[3..5], [info("action = UpdateTimer"), value("time_ticks", 1)]);
    tick(&mut ks);
    assert_eq!(
        said(&mut ks)[3..5],
        [info("action = AllocateFrame"), info("allocated usable frame (tick)")]
    );
    tick(&mut ks);
    assert_eq!(
        said(&mut ks)[3..7],
        [
            info("action = MemDemo"),
            info("mem_demo: issuing Map (for current task)"),
            info("address_space.apply: OK"),
            info("mem_demo: applying arch paging (Task0 / current CR3)"),
        ]
    );
    tick(&mut ks);
    let lines = said(&mut ks);
    assert!(lines.contains(&info("quantum expired")));
    assert!(lines.contains(&info("quantum expired; scheduling next task")));
    let mut poor = kernel_with(3, KernelFeatures::none());
    poor.take_effects();
    poor.bootstrap();
    assert_eq!(said(&mut poor)[2..], [error("no more frames in bootstrap")]);
}

#[test]
fn every_fiftieth_tick_has_a_heartbeat() {
    let mut ks = kernel();
    for n in 1..=100u64 {
        ks.take_effects();
        tick(&mut ks);
        assert_eq!(said(&mut ks).contains(&info("heartbeat")), n % 50 == 0);
    }
}

#[test]
fn counters_keep_room_over_a_tick() {
    let mut ks = kernel();
    ks.bootstrap();
    for n in 1..=50u64 {
        tick(&mut ks);
        assert!(ks.has_room(u64::MAX - 2 * n * TICK_ROOM));
    }
}

#[test]
fn single_slow_sends_once() {
    let features = KernelFeatures { ipc_demo_single_slow: true, ..KernelFeatures::none() };
    let mut ks = kernel_with(256, features);
    ks.bootstrap();
    let mut sent = 0;
    for _ in 0..200 {
        let before = ks.counters();
        tick(&mut ks);
        let after = ks.counters();
        sent += after.ipc_send_slow - before.ipc_send_slow;
        sent += after.ipc_send_fast - before.ipc_send_fast;
        if ks.should_halt() {
            break;
        }
    }
    assert_eq!(sent, 1);
    assert_eq!(ks.counters().ipc_send_slow, 1);
    assert_eq!(ks.counters().ipc_reply_delivered, 1);
}

#[test]
fn bad_endpoints_are_tolerated() {
    let mut ks = kernel();
    ks.schedule_next_task();
    let before = ks.task(1);
    let bad = EndpointId(7);
    ks.ipc_send(bad, 1);
    ks.ipc_recv(bad);
    ks.ipc_reply(bad, 1);
    assert_eq!(ks.task(1), before);
    assert_eq!(ks.current_task(), 1);
    assert!(!ks.should_halt());
}

#[test]
fn kernel_task_passes_no_messages() {
    let mut ks = kernel();
    assert!(ks.is_kernel_task_index(0));
    assert!(!ks.is_kernel_task_index(1));
    ks.ipc_send(EP, 1);
    assert_eq!(ks.task(0).last_reply, Some(IPC_ERR_DEAD_PARTNER));
    assert_eq!(ks.task(0).state, TaskState::Running);
    let events = ks.event_log_len();
    assert_eq!(ks.handle_syscall(Syscall::IpcRecv { ep: EP }), Ok(None));
    assert_eq!(ks.event_log_len(), events);
}

#[test]
fn second_receiver_gets_an_error() {
    let mut ks = kernel();
    ks.schedule_next_task();
    ks.ipc_recv(EP);
    assert_eq!(ks.current_task(), 2);
    ks.ipc_recv(EP);
    assert_eq!(ks.task(2).last_reply, Some(IPC_ERR_RECV_ALREADY_WAITING));
    assert_eq!(ks.task(2).state, TaskState::Running);
    assert_eq!(ks.endpoint(0).recv_waiter, Some(1));
}

#[test]
fn closed_endpoint_sends_everybody_on() {
    let mut ks = kernel();
    ks.schedule_next_task();
    ks.ipc_send(EP, 1);
    ks.close_endpoint_and_rescue_waiters(EP);
    assert!(ks.endpoint(0).is_closed);
    assert_eq!(ks.endpoint(0).sq_len, 0);
    assert_eq!(ks.task(1).last_reply, Some(IPC_ERR_ENDPOINT_CLOSED));
    assert_eq!(ks.task(1).pending_send_msg, None);
    assert_eq!(ks.task(1).state, TaskState::Ready);
    ks.ipc_send(EP, 2);
    assert_eq!(ks.current_task(), 2);
    assert_eq!(ks.task(2).last_reply, Some(IPC_ERR_ENDPOINT_CLOSED));
    assert_eq!(ks.debug_check_invariants(), Vec::new());
}

#[test]
fn waiter_of_a_dead_task_is_sent_on() {
    let mut ks = kernel();
    ks.schedule_next_task();
    ks.ipc_send(EP, 1);
    ks.ipc_recv(EP);
    let reason = TaskKillReason::DemoInjected { code: 9 };
    ks.kill_task(2, reason);
    assert_eq!(ks.task(2).state, TaskState::Dead);
    assert_eq!(ks.task(2).last_msg, None);
    assert_eq!(ks.task(1).last_reply, Some(IPC_ERR_DEAD_PARTNER));
    assert_eq!(ks.current_task(), 1);
    assert_eq!(ks.endpoint(0).rq_len, 0);
    assert!(events_of(&ks).contains(&LogEvent::TaskKilled { task: TaskId(3), reason }));
    assert_eq!(ks.counters().task_killed_user_pf, 0);
    assert_eq!(ks.debug_check_invariants(), Vec::new());
}

#[test]
fn endpoints_close_with_their_owner() {
    let features = KernelFeatures { endpoint_close_test: true, ..KernelFeatures::none() };
    let mut ks = kernel_with(256, features);
    assert_eq!(ks.endpoint(0).owner, Some(TaskId(3)));
    ks.schedule_next_task();
    ks.ipc_send(EP, 1);
    ks.kill_task(2, TaskKillReason::DemoInjected { code: 1 });
    assert!(ks.endpoint(0).is_closed);
    assert!(!ks.endpoint(1).is_closed);
    assert_eq!(ks.task(1).last_reply, Some(IPC_ERR_ENDPOINT_CLOSED));
}

#[test]
fn mappings_of_a_dead_task_are_taken_out() {
    let mut ks = kernel();
    ks.schedule_next_task();
    let page = VirtPage::from_index(0x110);
    assert!(ks.handle_syscall(Syscall::PageMap { page, flags: user_flags() }).is_ok());
    ks.finish_page_call(Ok(()));
    ks.take_effects();
    ks.kill_task(1, TaskKillReason::DemoInjected { code: 1 });
    assert_eq!(ks.space(1).mapping_count(), 0);
    let root = PhysFrame::from_index(FIRST_FRAME);
    let effects = ks.take_effects();
    let lines = [
        info("cleanup_user_mappings: start"),
        value("as_idx", 1),
        value("root_page_frame_index", FIRST_FRAME),
        value("cleanup_user_mappings: before clear mapping_count", 1),
        value("cleanup_user_mappings: collected_user_pages", 1),
        value("cleanup_user_mappings: after clear mapping_count", 0),
    ];
    assert_eq!(effects[..6], lines.map(|line| Effect::Say { line }));
    assert_eq!(effects[6], Effect::UnmapInRoot { page, root, as_idx: 1, shown: true });
    let lines = [
        value("cleanup_user_mappings: arch_unmap_applied", 1),
        value("cleanup_user_mappings: after unmap mapping_count", 0),
        info("cleanup_user_mappings: done"),
    ];
    assert_eq!(effects[7..10], lines.map(|line| Effect::Say { line }));
    assert_eq!(ks.current_task(), 2);
}

#[test]
fn dead_partner_demo_kills_once() {
    let features = KernelFeatures { dead_partner_test: true, ..KernelFeatures::none() };
    let mut ks = kernel_with(256, features);
    ks.schedule_next_task();
    ks.ipc_send(EP, 1);
    assert_eq!(ks.handle_syscall(Syscall::IpcRecv { ep: EP }), Ok(None));
    assert_eq!(ks.task(2).state, TaskState::Dead);
    assert_eq!(ks.task(1).last_reply, Some(IPC_ERR_DEAD_PARTNER));
    assert!(ks.injected().dead_partner_fired);
    let lines = said(&mut ks);
    assert!(lines.contains(&error(
        "dead_partner_test: kill receiver (DemoInjected) right after IpcRecv"
    )));
    assert!(lines.contains(&value("demo_code", DEAD_PARTNER_CODE)));
    assert!(lines.contains(&error("ipc: reply waiter rescued due to DEAD partner")));
    let reason = TaskKillReason::DemoInjected { code: DEAD_PARTNER_CODE };
    assert!(events_of(&ks).contains(&LogEvent::TaskKilled { task: TaskId(3), reason }));
}

#[test]
fn page_calls_are_answered_by_codes() {
    let mut ks = kernel();
    ks.schedule_next_task();
    let page = VirtPage::from_index(0x110);
    let flags = user_flags();
    let root = Some(PhysFrame::from_index(FIRST_FRAME));
    let frame = PhysFrame::from_index(FIRST_FRAME + 2);
    assert_eq!(
        ks.handle_syscall(Syscall::PageMap { page, flags }),
        Ok(Some(PageRequest { action: MemAction::MapPage { page, frame, flags }, root }))
    );
    ks.finish_page_call(Ok(()));
    assert_eq!(ks.take_unread_last_syscall_ret(1), Some(SYSCALL_OK));
    assert_eq!(ks.take_unread_last_syscall_ret(1), None);
    assert_eq!(ks.handle_syscall(Syscall::PageMap { page, flags }), Ok(None));
    assert_eq!(ks.take_unread_last_syscall_ret(1), Some(SYSCALL_ERR_ALREADY_MAPPED));
    assert_eq!(
        ks.handle_syscall(Syscall::PageUnmap { page }),
        Ok(Some(PageRequest { action: MemAction::Unmap { page }, root }))
    );
    ks.finish_page_call(Err(PagingApplyError::UnmapFailed));
    assert_eq!(ks.task(1).last_syscall_ret, Some(SYSCALL_ERR_ARCH_FAILED));
    assert_eq!(ks.handle_syscall(Syscall::PageUnmap { page }), Ok(None));
    assert_eq!(ks.take_unread_last_syscall_ret(1), Some(SYSCALL_ERR_NOT_MAPPED));
    assert_eq!(ks.space(1).mapping_count(), 0);
    assert_eq!(ks.space(2).mapping_count(), 0);
}

#[test]
fn page_calls_run_out_of_room_and_of_frames() {
    let mut ks = kernel();
    ks.schedule_next_task();
    let flags = user_flags();
    for i in 0..64u64 {
        let page = VirtPage::from_index(i);
        assert!(matches!(ks.handle_syscall(Syscall::PageMap { page, flags }), Ok(Some(_))));
        ks.finish_page_call(Ok(()));
    }
    let page = VirtPage::from_index(64);
    assert_eq!(ks.handle_syscall(Syscall::PageMap { page, flags }), Ok(None));
    assert_eq!(ks.take_unread_last_syscall_ret(1), Some(SYSCALL_ERR_CAPACITY));

    let mut poor = kernel_with(2, KernelFeatures::none());
    poor.schedule_next_task();
    poor.take_effects();
    assert_eq!(poor.handle_syscall(Syscall::PageMap { page, flags }), Ok(None));
    assert_eq!(
        said(&mut poor),
        vec![error("syscall: PageMap failed (no frame)"), value("task_id", 2)]
    );
    assert_eq!(poor.take_unread_last_syscall_ret(1), Some(SYSCALL_ERR_ARCH_FAILED));
}

#[test]
fn user_space_without_a_root_stops_the_machine() {
    let features = KernelFeatures { dead_partner_test: true, ..KernelFeatures::none() };
    let mut ks = kernel_with(1, features);
    assert_eq!(ks.space(2).root_page_frame, None);
    assert!(ks.can_be_killed(0));
    assert!(ks.can_be_killed(1));
    assert!(!ks.can_be_killed(2));
    ks.schedule_next_task();
    ks.ipc_send(EP, 1);
    assert_eq!(ks.current_task(), 2);
    ks.take_effects();
    assert_eq!(
        ks.handle_syscall(Syscall::IpcRecv { ep: EP }),
        Err(FailStopReason::UserRootMissing)
    );
    let lines = said(&mut ks);
    assert_eq!(
        lines[lines.len() - 1],
        error("cleanup_user_mappings: user root_page_frame is None")
    );
    assert_eq!(ks.task(2).state, TaskState::Running);
}

#[test]
fn memory_demo_stops_where_it_cannot_go_on() {
    let mut ks = kernel_with(1, KernelFeatures::none());
    ks.schedule_next_task();
    ks.ipc_recv(EP);
    assert_eq!(ks.current_task(), 2);
    ks.take_effects();
    assert_eq!(
        ks.do_mem_demo(),
        DemoRequest::Stop { reason: FailStopReason::UserRootMissing }
    );
    assert_eq!(
        said(&mut ks),
        vec![error("mem_demo: user root_page_frame is None (unexpected)")]
    );

    // The kernel task has its demo page mapped behind the back of the demo.
    let mut ks = kernel();
    ks.bootstrap();
    for _ in 0..3 {
        tick(&mut ks);
    }
    let page = demo_page_for_task(0);
    let call = Syscall::PageMap { page, flags: kernel_flags() };
    assert!(matches!(ks.handle_syscall(call), Ok(Some(_))));
    ks.finish_page_call(Ok(()));
    ks.take_effects();
    let before = ks.task(0);
    assert_eq!(
        ks.tick(),
        TickProgress::Stopped { reason: FailStopReason::AddressSpaceApplyFailed }
    );
    assert_eq!(
        said(&mut ks)[3..],
        [
            info("action = MemDemo"),
            info("mem_demo: issuing Map (for current task)"),
            error("address_space.apply: ERROR"),
            info("reason = AlreadyMapped"),
        ]
    );
    assert_eq!(ks.task(0), before);
    assert_eq!(ks.space(0).mapping_count(), 1);
    assert!(!ks.mem_demo_mapped(0));
}

#[test]
fn first_ticks_of_the_kernel() {
    let mut ks = kernel();
    ks.take_effects();
    ks.bootstrap();
    assert_eq!(ks.event_log_len(), 5);
    for n in 1..=3u64 {
        assert_eq!(tick(&mut ks), Vec::new());
        assert_eq!(ks.tick_count(), n);
        assert_eq!(ks.task(0).runtime_ticks, n);
        assert_eq!(ks.task(0).time_slice_used, n);
    }
    assert_eq!(ks.activity(), KernelActivity::MappingDemoPage);
    let p = ks.tick();
    let page = VirtPage::from_index(0x100);
    let frame = PhysFrame::from_index(FIRST_FRAME + 8);
    match p {
        TickProgress::KernelDemo { ctx, action } => {
            assert_eq!(action, MemAction::MapPage { page, frame, flags: kernel_flags() });
            assert_eq!(ctx.ran, 0);
            let rest = ks.resume_kernel_demo(ctx, action, Ok(()));
            assert_eq!(finish(&mut ks, rest), Vec::new());
        }
        _ => panic!("the kernel's memory demo was due"),
    }
    assert!(ks.mem_demo_mapped(0));
    assert_eq!(ks.space(0).mapping_count(), 1);
    assert_eq!(tick(&mut ks), Vec::new());
    assert_eq!(ks.current_task(), 1);
    assert!(events_of(&ks).contains(&LogEvent::QuantumExpired(TaskId(1), 5)));
    assert_eq!(tick(&mut ks), Vec::new());
    assert_eq!(ks.task(1).pending_send_msg, Some(0x1111_0000_0000_0006));
    assert_eq!(ks.task(1).state, TaskState::Blocked);
    assert_eq!(ks.current_task(), 2);
    assert_eq!(tick(&mut ks), Vec::new());
    assert_eq!(ks.task(2).last_msg, Some(0x1111_0000_0000_0006));
    assert_eq!(ks.demo().msgs_delivered, 1);
    let p = ks.tick();
    match p {
        TickProgress::PageCall { ctx, request } => {
            assert_eq!(request.root, Some(PhysFrame::from_index(FIRST_FRAME + 1)));
            assert_eq!(ctx.ran, 2);
            let rest = ks.resume_page_call(ctx, Ok(()));
            assert_eq!(finish(&mut ks, rest), Vec::new());
        }
        _ => panic!("the page call of the third task was due"),
    }
    assert_eq!(tick(&mut ks), Vec::new());
    assert_eq!(ks.task(1).last_reply, Some(0xabcd_0000_0000_0006));
    assert_eq!(ks.demo().replies_sent, 1);
}

#[test]
fn kernel_runs_for_long_without_a_violation() {
    let mut ks = kernel();
    ks.bootstrap();
    for _ in 0..500 {
        assert_eq!(tick(&mut ks), Vec::new());
            let t = ks.task(ks.current_task());
        assert!(t.time_slice_used < ks.quantum());
        if ks.should_halt() {
            break;
        }
    }
    assert!(ks.counters().ipc_reply_delivered > 1);
    assert!(ks.event_log_len() <= 256);
}

#[test]
fn kernel_halts_without_frames() {
    let mut ks = kernel_with(4, KernelFeatures::none());
    ks.bootstrap();
    assert!(ks.should_halt());
    let before = ks.tick_count();
    assert_eq!(ks.tick(), TickProgress::Halted);
    assert_eq!(ks.tick_count(), before);
}

#[test]
fn page_faults_kill_where_the_demo_wants_it() {
    let pf = PageFaultInfo { addr: 1, err: 2, rip: 3, rsp: 4, is_user_fault: false };
    let mut ks = kernel();
    ks.schedule_next_task();
    ks.kill_current_task_due_to_user_pf(pf);
    assert_eq!(ks.task(1).state, TaskState::Running);
    let mut ks = kernel_with(256, KernelFeatures { pf_demo: true, ..KernelFeatures::none() });
    ks.schedule_next_task();
    ks.kill_current_task_due_to_user_pf(pf);
    assert_eq!(ks.task(1).state, TaskState::Dead);
    assert_eq!(ks.counters().task_killed_user_pf, 1);
    assert_eq!(ks.current_task(), 2);
    let reason = TaskKillReason::UserPageFault { addr: 1, err: 2, rip: 3 };
    assert!(events_of(&ks).contains(&LogEvent::TaskKilled { task: TaskId(2), reason }));
}

#[test]
fn pf_demo_runs_without_a_violation() {
    let mut ks = kernel_with(256, KernelFeatures { pf_demo: true, ..KernelFeatures::none() });
    ks.bootstrap();
    for _ in 0..120 {
        assert_eq!(tick(&mut ks), Vec::new());
        }
    assert!(ks.counters().task_killed_user_pf >= 1);
}

#[test]
fn double_map_is_refused() {
    let features = KernelFeatures { evil_double_map: true, ..KernelFeatures::none() };
    let mut ks = kernel_with(256, features);
    ks.bootstrap();
    let mut codes = Vec::new();
    for _ in 0..120 {
        assert_eq!(tick(&mut ks), Vec::new());
        let t = ks.task(1);
        if t.last_syscall_ret_unread && codes.last() != Some(&t.last_syscall_ret) {
            codes.push(t.last_syscall_ret);
        }
    }
    assert_eq!(ks.injected().double_map_stage, 2);
    assert!(codes.contains(&Some(SYSCALL_OK)));
    assert!(codes.contains(&Some(SYSCALL_ERR_ALREADY_MAPPED)));
}

#[test]
fn unmap_of_an_unmapped_page_is_refused() {
    let features = KernelFeatures { evil_unmap_not_mapped: true, ..KernelFeatures::none() };
    let mut ks = kernel_with(256, features);
    ks.bootstrap();
    let mut seen = false;
    for _ in 0..120 {
        assert_eq!(tick(&mut ks), Vec::new());
        seen = seen || ks.task(1).last_syscall_ret == Some(SYSCALL_ERR_NOT_MAPPED);
    }
    assert!(ks.injected().unmap_fired);
    assert!(seen);
}

#[test]
fn refused_kernel_mapping_stops_the_machine() {
    let mut ks = kernel();
    ks.bootstrap();
    for _ in 0..3 {
        tick(&mut ks);
    }
    ks.take_effects();
    match ks.tick() {
        TickProgress::KernelDemo { ctx, action } => {
            ks.take_effects();
            assert_eq!(
                ks.resume_kernel_demo(ctx, action, Err(PagingApplyError::MapFailed)),
                TickProgress::Stopped { reason: FailStopReason::ArchApplyFailed }
            );
        }
        _ => panic!("the kernel's memory demo was due"),
    }
    assert_eq!(
        said(&mut ks),
        vec![error("arch::paging::apply_mem_action failed; abort (fail-stop)")]
    );
    assert!(!ks.mem_demo_mapped(0));
    assert_eq!(ks.activity(), KernelActivity::MappingDemoPage);
}

#[test]
fn mailbox_answers() {
    let mut ks = kernel();
    assert_eq!(mailbox_dispatch(&mut ks, 1, u64::MAX, 2, 3), MailboxReply::Ret { value: 4 });
    assert_eq!(mailbox_dispatch(&mut ks, 2, 0, 0, 0), MailboxReply::Ret { value: 0 });
    assert_eq!(mailbox_dispatch(&mut ks, 99, 0, 0, 0), MailboxReply::Ret { value: 0 });
    assert_eq!(mailbox_dispatch(&mut ks, 31, 0, 0, 0), MailboxReply::Ret { value: 0 });
    assert_eq!(ks.current_task(), 0);
}

#[test]
fn mailbox_round_trip() {
    let features = KernelFeatures { ring3_mailbox_loop: true, ..KernelFeatures::none() };
    let mut ks = kernel_with(256, features);
    ks.bootstrap();
    ks.prepare_ring3_loop_current_task();
    assert_eq!(ks.current_task(), 1);
    assert_eq!(ks.task(0).state, TaskState::Ready);
    assert_eq!(
        mailbox_dispatch(&mut ks, 11, 0, 0x1234, 0),
        MailboxReply::Ret { value: 0 }
    );
    assert_eq!(ks.task(1).state, TaskState::Blocked);
    assert_eq!(ks.current_task(), 2);
    for n in 1..=8u64 {
        match mailbox_dispatch(&mut ks, 30, 0, 0, 0) {
            MailboxReply::Tick { progress } => {
                finish(&mut ks, progress);
            }
            _ => panic!("a tick was asked for"),
        }
        assert_eq!(ks.tick_count(), n);
    }
    assert_eq!(
        mailbox_dispatch(&mut ks, 31, 0, 0, 0),
        MailboxReply::Ret { value: 0xabcd_0000_0000_1234 }
    );
    assert_eq!(mailbox_dispatch(&mut ks, 31, 0, 0, 0), MailboxReply::Ret { value: 0 });
}

#[test]
fn tracing_changes_nothing_but_the_trace() {
    let mut plain = kernel();
    let traced_features = KernelFeatures { ipc_trace_paths: true, ..KernelFeatures::none() };
    let mut traced = kernel_with(256, traced_features);
    plain.bootstrap();
    traced.bootstrap();
    let mut calls = 0;
    for _ in 0..60 {
        assert_eq!(tick(&mut plain), tick(&mut traced));
        let a = plain.take_effects();
        let b = traced.take_effects();
        let rest: Vec<Effect> =
            b.iter().copied().filter(|e| !matches!(e, Effect::IpcSyscall { .. })).collect();
        calls += b.len() - rest.len();
        assert_eq!(a, rest);
        assert_eq!(events_of(&plain), events_of(&traced));
        for i in 0..3 {
            assert_eq!(plain.task(i), traced.task(i));
        }
    }
    assert!(calls > 2);
}

#[test]
fn traced_calls_say_who_asks_for_what() {
    let features = KernelFeatures { ipc_trace_syscall: true, ..KernelFeatures::none() };
    let mut ks = kernel_with(256, features);
    ks.schedule_next_task();
    ks.take_effects();
    assert_eq!(ks.handle_syscall(Syscall::IpcSend { ep: EP, msg: 5 }), Ok(None));
    assert_eq!(
        ks.take_effects()[0],
        Effect::IpcSyscall {
            kind: IpcSyscallKind::Send,
            task: TaskId(2),
            ep: EP,
            msg: Some(5)
        }
    );
}

#[test]
fn log_keeps_the_most_recent_events() {
    let mut ks = kernel();
    for n in 0..300u64 {
        ks.push_event(LogEvent::TimerUpdated(n));
    }
    assert_eq!(ks.event_log_len(), 256);
    assert_eq!(ks.event_at(0), LogEvent::TimerUpdated(44));
    assert_eq!(ks.event_at(255), LogEvent::TimerUpdated(299));
}

#[test]
fn dump_shows_everything() {
    let mut ks = kernel();
    ks.push_event(LogEvent::TickStarted(3));
    let out = ks.dump_events();
    assert_eq!(
        out[..4],
        [
            info("=== KernelState Event Log Dump ==="),
            info("EVENT: TickStarted"),
            value("tick", 3),
            info("=== End of Event Log ==="),
        ]
    );
    for head in [
        "=== Task Dump ===",
        "=== AddressSpace Dump (per task) ===",
        "=== Endpoint Dump ===",
        "=== Counters Dump ===",
    ] {
        assert!(out.contains(&info(head)));
    }
    assert_eq!(out[out.len() - 1], info("=== End of Counters Dump ==="));
    assert!(out.contains(&value("root_page_frame_index", FIRST_FRAME + 1)));
    let mut lines = Vec::new();
    log_event_to_vga(LogEvent::TaskStateChanged(TaskId(2), TaskState::Dead), &mut lines);
    assert_eq!(
        lines,
        vec![info("EVENT: TaskStateChanged"), value("task", 2), info("to DEAD")]
    );
}

#[test]
fn demo_values() {
    assert_eq!(tagged(0x1111_0000_0000_0000, 0x1_0006), 0x1111_0000_0000_0006);
    assert_eq!(test_value(RW_VALUE, 2, 0x12), 0xc0de_0000_0002_0012);
    assert_eq!(test_value(RW_AFTER_UNMAP_VALUE, 3, 1), 0xdead_0000_0003_0001);
    assert_eq!(demo_page_for_task(0), VirtPage::from_index(0x100));
    assert_eq!(demo_page_for_task(1), VirtPage::from_index(0x110));
    assert_eq!(user_flags().bits() & 4, 4);
    assert_eq!(kernel_flags().bits() & 4, 0);
}

#[test]
fn kernel_state_is_registered_by_address() {
    let mut r = KernelStateRef::new();
    assert_eq!(r.get(), None);
    register_kernel_state(&mut r, 0x1000);
    assert_eq!(r.get(), Some(0x1000));
    unregister_kernel_state(&mut r);
    assert_eq!(r.get(), None);
    register_kernel_state(&mut r, 0x2000);
    register_kernel_state(&mut r, 0x3000);
    let mut calls = Vec::new();
    let seen = with_kernel_state(&r, |addr| {
        calls.push(addr);
        addr + 1
    });
    assert_eq!(seen, Some(0x3001));
    assert_eq!(calls, vec![0x3000]);
    unregister_kernel_state(&mut r);
    unregister_kernel_state(&mut r);
    assert_eq!(with_kernel_state(&r, |addr| addr), None);
    assert_eq!(trap_answer(Some(7)), 7);
    assert_eq!(trap_answer(None), 0);
}

#[test]
fn counters_have_room() {
    let ks = kernel();
    assert!(ks.has_room(u64::MAX));
    let mut ks = kernel();
    ks.schedule_next_task();
    assert!(ks.has_room(u64::MAX - 1));
    assert!(!ks.has_room(u64::MAX));
}

#[test]
fn an_access_to_user_memory_is_reported() {
    let fault = PageFaultInfo { addr: 5, err: 6, rip: 7, rsp: 8, is_user_fault: false };

    let mut out = Vec::new();
    show_user_rw(1, 9, &Ok(9), &mut out);
    assert_eq!(
        out[1..],
        [
            LogLine::Info { msg: "user_mem_test: read_back" },
            LogLine::Value { key: "", value: 9 },
            LogLine::Info { msg: "user_mem_test: OK (value matched)" },
        ]
    );

    let mut out = Vec::new();
    show_user_rw(1, 9, &Ok(4), &mut out);
    assert_eq!(
        out[3..],
        [
            LogLine::Error { msg: "user_mem_test: MISMATCH!" },
            LogLine::Value { key: "expected", value: 9 },
            LogLine::Value { key: "got", value: 4 },
        ]
    );

    let mut out = Vec::new();
    show_user_rw(3, 9, &Ok(9), &mut out);
    assert_eq!(out[1], LogLine::Error { msg: "UNEXPECTED: RW succeeded after Unmap" });
    out.clear();
    show_user_rw(3, 9, &Err(fault), &mut out);
    assert_eq!(out.len(), 1);
}

#[test]
fn a_fault_in_user_memory_is_reported() {
    let fault = PageFaultInfo { addr: 5, err: 6, rip: 7, rsp: 8, is_user_fault: false };
    let mut ks = kernel();
    ks.schedule_next_task();
    ks.take_effects();
    ks.kill_current_task_due_to_user_pf(fault);
    let mut lines = vec![
        error("USER PAGE FAULT => kill current task"),
        value("task_id", 2),
        value("addr", 5),
        value("err", 6),
        value("rip", 7),
        error("USER PAGE FAULT (demo): ignored (pf_demo feature disables this)"),
        value("task_id", 2),
    ];
    assert_eq!(said(&mut ks), lines);

    let mut ks = kernel_with(256, KernelFeatures { pf_demo: true, ..KernelFeatures::none() });
    ks.schedule_next_task();
    ks.take_effects();
    ks.kill_current_task_due_to_user_pf(fault);
    lines.truncate(5);
    lines.push(info("cleanup_user_mappings: start"));
    assert_eq!(said(&mut ks)[..6], lines);

    let mut ks = kernel();
    ks.take_effects();
    ks.kill_current_task_due_to_user_pf(fault);
    assert_eq!(
        said(&mut ks)[0],
        error(
            "KERNEL CONTEXT PAGE FAULT (during guarded user access) => treat as user fault and kill"
        )
    );
}

#[test]
fn unmapped_pages_are_reported() {
    let page = VirtPage::from_index(2);
    let mut out = Vec::new();
    assert_eq!(show_unmapped(&page, 1, false, true, &mut out), None);
    assert_eq!(out, Vec::new());
    let addr = USER_SPACE_BASE + 0x2000;
    assert_eq!(show_unmapped(&page, 1, true, true, &mut out), Some(addr));
    assert_eq!(
        out,
        vec![
            info("cleanup_user_mappings: debug_translate_after_unmap"),
            value("virt_addr", addr),
        ]
    );
    out.clear();
    assert_eq!(show_unmapped(&page, 1, true, false, &mut out), None);
    assert_eq!(
        out,
        vec![
            error("cleanup_user_mappings: arch unmap failed; abort (fail-stop)"),
            value("as_idx", 1),
            value("virt_page_index", 2),
        ]
    );

    // Of the pages of a dead task the first four are looked up.
    let mut ks = kernel();
    ks.schedule_next_task();
    for i in 0..6u64 {
        let page = VirtPage::from_index(i);
        assert!(ks.handle_syscall(Syscall::PageMap { page, flags: user_flags() }).is_ok());
        ks.finish_page_call(Ok(()));
    }
    ks.take_effects();
    ks.kill_task(1, TaskKillReason::DemoInjected { code: 1 });
    let shown: Vec<bool> = deeds(&mut ks)
        .into_iter()
        .filter_map(|e| match e {
            Effect::UnmapInRoot { shown, .. } => Some(shown),
            _ => None,
        })
        .collect();
    assert_eq!(SHOWN_UNMAPS, 4);
    assert_eq!(shown, vec![true, true, true, true, false, false]);
}

#[test]
fn sleepers_leave_the_queue_when_woken() {
    let mut ks = kernel();
    ks.schedule_next_task();
    ks.block_current(BlockedReason::Sleep);
    ks.schedule_next_task();
    assert_eq!(ks.current_task(), 2);
    ks.block_current(BlockedReason::Sleep);
    assert_eq!(ks.waiting_len(), 2);
    assert_eq!((ks.waiting_at(0), ks.waiting_at(1)), (1, 2));
    ks.take_effects();
    ks.maybe_wake_one_sleep_task();
    assert_eq!(said(&mut ks), vec![info("waking 1 blocked task (Sleep only)")]);
    assert_eq!(ks.task(1).state, TaskState::Ready);
    assert_eq!(ks.task(1).blocked_reason, None);
    assert_eq!(ks.waiting_len(), 1);
    assert_eq!(ks.waiting_at(0), 2);
    assert!(ks.is_in_ready_queue(1));
    let events = events_of(&ks);
    assert_eq!(
        events[events.len() - 2..],
        [
            LogEvent::WaitDequeued(TaskId(2)),
            LogEvent::TaskStateChanged(TaskId(2), TaskState::Ready),
        ]
    );
    ks.schedule_next_task();
    assert_eq!(ks.current_task(), 1);
    assert_eq!(ks.debug_check_invariants(), Vec::new());
    // With nobody else ready the scheduler wakes the other one.
    ks.ipc_recv(EP);
    assert_eq!(ks.current_task(), 2);
    assert_eq!(ks.waiting_len(), 0);
    assert_eq!(ks.debug_check_invariants(), Vec::new());
}

#[test]
fn timer_wakes_a_sleeper() {
    let mut ks = kernel();
    ks.block_task(1, BlockedReason::Sleep);
    assert_eq!(tick(&mut ks), Vec::new());
    assert_eq!(ks.task(1).state, TaskState::Blocked);
    assert_eq!(tick(&mut ks), Vec::new());
    assert_eq!(ks.waiting_len(), 0);
    assert_eq!(ks.task(1).state, TaskState::Ready);
}

#[test]
fn nobody_goes_to_sleep_unasked() {
    let mut ks = kernel();
    ks.take_effects();
    assert!(!ks.maybe_block_task(0));
    assert_eq!(ks.take_effects(), Vec::new());
    assert!(!ks.maybe_block_task(7));
    assert_eq!(said(&mut ks), vec![error("maybe_block_task: ran_idx out of range")]);
}
