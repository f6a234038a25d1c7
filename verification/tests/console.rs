//! Output: the screen, the serial line, numbers, traces, trap messages; and the programs
//! that run as user code.

use volatile::Volatile;

use formal_os::arch::interrupts::{
    cache_demo_roots_if_needed, mailbox_slots, page_fault_handler, ring3_demo_answer,
    ring3_demo_step, show_demo_call, show_demo_echo, show_demo_end, show_fatal_fault, show_panic,
    show_taken_reply, DemoRoots, DemoStep, FatalFault, FaultStep,
};
use formal_os::arch::paging::apply::{plan_mem_action, PagePlan};
use formal_os::arch::paging::fault::{arm_guard, PageFaultGuard};
use formal_os::arch::ring3::{user_iret_frame, user_selector};
use formal_os::kernel::entry::{
    boot_mode, boot_ticks, map_user_code, map_user_stack, one_call_program, push_insn,
    remap_user_code, ring3_demo_program, ring3_entry, ring3_mailbox_loop_program,
    ring3_mailbox_program, unmap_user_code, BootMode, Insn,
};
use formal_os::kernel::trace::{
    stable_hash64, trace_ipc_path, trace_ipc_syscall_recv, trace_ipc_syscall_reply,
    trace_ipc_syscall_send, IpcPathEvent,
};
use formal_os::kernel::types::{EndpointId, KernelFeatures, LogLine, TaskId};
use formal_os::logging::numbers::{u64_to_decimal, write_hex_u64};
use formal_os::logging::serial::{can_send, SerialPort, SerialWriter};
use formal_os::logging::vga::{cell, Writer};
use formal_os::logging::{self, Logger};
use formal_os::mem::addr::PhysFrame;

type Cells = [[Volatile<u16>; 80]; 25];

fn blank_cells() -> Box<Cells> {
    Box::new(core::array::from_fn(|_| core::array::from_fn(|_| Volatile::new(0))))
}

fn row_text(cells: &Cells, row: usize) -> String {
    let bytes: Vec<u8> = cells[row].iter().map(|c| (c.read() & 0xff) as u8).collect();
    String::from_utf8(bytes).unwrap().trim_end_matches([' ', '\0']).to_string()
}

#[test]
fn lines_go_to_the_screen_and_to_the_serial_line() {
    let mut log = Logger::new();
    let mut cells = blank_cells();
    let mut sent = Vec::new();
    let writes = logging::init(&mut log);
    assert_eq!(writes.len(), 7);
    assert_eq!((writes[0].port, writes[0].value), (0x3f9, 0));
    assert_eq!((writes[5].port, writes[5].value), (0x3fa, 0xc7));
    assert_eq!(logging::init(&mut log).len(), 0);
    logging::info(&mut log, &mut cells, &mut sent, "hello");
    logging::error(&mut log, &mut cells, &mut sent, "oops");
    logging::info_u64(&mut log, &mut cells, &mut sent, "answer", 42);
    logging::info_kv(&mut log, &mut cells, &mut sent, "", 7);
    assert_eq!(
        String::from_utf8(sent).unwrap(),
        "[INFO] hello\r\n[ERROR] oops\r\n[INFO] answer = 42\r\n[INFO] 7\r\n"
    );
    assert_eq!(row_text(&cells, 20), "[INFO] hello");
    assert_eq!(row_text(&cells, 21), "[ERROR] oops");
    assert_eq!(row_text(&cells, 22), "[INFO] answer = 42");
    assert_eq!(row_text(&cells, 23), "[INFO] 7");
    assert_eq!(row_text(&cells, 24), "");
    assert_eq!(cells[24][79].read(), 0x0720);
    assert_eq!(cells[20][0].read(), 0x075b);
}

#[test]
fn screen_waits_for_its_set_up() {
    let mut log = Logger::new();
    let mut cells = blank_cells();
    let mut sent = Vec::new();
    logging::info(&mut log, &mut cells, &mut sent, "early");
    assert_eq!(String::from_utf8(sent).unwrap(), "[INFO] early\r\n");
    assert!(cells.iter().all(|r| r.iter().all(|c| c.read() == 0)));
}

#[test]
fn screen_switch_is_remembered() {
    let mut log = Logger::new();
    assert!(logging::is_vga_enabled(&log));
    logging::set_vga_enabled(&mut log, false);
    assert!(!logging::is_vga_enabled(&log));
}

#[test]
fn kernel_lines_are_rendered() {
    let mut log = Logger::new();
    let mut cells = blank_cells();
    let mut sent = Vec::new();
    for line in [
        LogLine::Info { msg: "a" },
        LogLine::Error { msg: "b" },
        LogLine::Value { key: "c", value: u64::MAX },
    ] {
        logging::log_line(&mut log, &mut cells, &mut sent, &line);
    }
    assert_eq!(
        String::from_utf8(sent).unwrap(),
        "[INFO] a\r\n[ERROR] b\r\n[INFO] c = 18446744073709551615\r\n"
    );
}

#[test]
fn long_lines_wrap() {
    let mut w = Writer::new();
    let mut cells = blank_cells();
    let text: Vec<u8> = (0..81u8).map(|i| b'A' + i % 26).collect();
    w.write_bytes(&mut cells, &text);
    assert_eq!(w.col, 1);
    assert_eq!(row_text(&cells, 23).len(), 80);
    assert_eq!(row_text(&cells, 24), "C");
    w.write_byte(&mut cells, b'\n');
    assert_eq!(w.col, 0);
    assert_eq!(row_text(&cells, 23), "C");
    assert_eq!(cell(b'C', 7), 0x0743);
}

#[test]
fn full_row_does_not_wrap_yet() {
    let mut w = Writer::new();
    let mut cells = blank_cells();
    w.write_bytes(&mut cells, &[b'x'; 80]);
    assert_eq!(w.col, 80);
    assert_eq!(row_text(&cells, 24).len(), 80);
    w.write_byte(&mut cells, b'\n');
    assert_eq!(row_text(&cells, 23).len(), 80);
    assert_eq!(row_text(&cells, 24), "");
}

#[test]
fn serial_line_takes_bytes_when_it_is_empty() {
    assert!(can_send(0x20));
    assert!(can_send(0xff));
    assert!(!can_send(0xdf));
    let mut p = SerialPort::new();
    assert_eq!(p.init().len(), 7);
    assert!(p.initialized);
    let mut w = SerialWriter::new();
    w.write_str("a\u{e9}");
    w.write_str("b");
    assert_eq!(w.sent, vec![b'a', 0xc3, 0xa9, b'b']);
}

#[test]
fn numbers_in_decimal() {
    let text = |n: u64| String::from_utf8(u64_to_decimal(n)).unwrap();
    for n in [0, 9, 10, 1234567890, u64::MAX] {
        assert_eq!(text(n), format!("{}", n));
    }
}

#[test]
fn numbers_in_hexadecimal() {
    for n in [0, 0xab, 0x0123_4567_89ab_cdef, u64::MAX] {
        let mut out = vec![b'>'];
        write_hex_u64(&mut out, n);
        assert_eq!(String::from_utf8(out).unwrap(), format!(">0x{:016x}", n));
    }
}

#[test]
fn identifiers_are_hashed() {
    assert_eq!(stable_hash64(0), 0xa8c7f832281a39c5);
    assert_eq!(stable_hash64(2), HASH_OF_2);
}

const HASH_OF_2: u64 = 0xe6bd86443df8ce07;

#[test]
fn calls_and_paths_are_traced() {
    let off = KernelFeatures::none();
    let calls = KernelFeatures { ipc_trace_syscall: true, ..KernelFeatures::none() };
    let paths = KernelFeatures { ipc_trace_paths: true, ..KernelFeatures::none() };
    let info = |msg: &'static str| LogLine::Info { msg };
    let value = |key: &'static str, value: u64| LogLine::Value { key, value };
    let (tid, ep) = (TaskId(2), EndpointId(0));
    let mut out = Vec::new();
    trace_ipc_syscall_send(&off, &tid, &ep, 5, &mut out);
    trace_ipc_syscall_recv(&off, &tid, &ep, &mut out);
    trace_ipc_syscall_reply(&off, &tid, &ep, 5, &mut out);
    trace_ipc_path(&off, IpcPathEvent::SendFast, &mut out);
    trace_ipc_path(&calls, IpcPathEvent::SendFast, &mut out);
    assert_eq!(out, Vec::new());
    trace_ipc_syscall_send(&calls, &tid, &ep, 5, &mut out);
    assert_eq!(
        out,
        vec![
            info("ipc_trace kind=ipc_send"),
            value("task_id_hash", HASH_OF_2),
            value("ep_id_hash", 0xa8c7f832281a39c5),
            value("msg", 5),
        ]
    );
    out.clear();
    trace_ipc_syscall_recv(&paths, &tid, &ep, &mut out);
    assert_eq!(out.len(), 3);
    assert_eq!(out[0], info("ipc_trace kind=ipc_recv"));
    trace_ipc_syscall_reply(&paths, &tid, &ep, 9, &mut out);
    assert_eq!(out[3], info("ipc_trace kind=ipc_reply"));
    assert_eq!(out[6], value("msg", 9));
    out.clear();
    for ev in [
        IpcPathEvent::SendFast,
        IpcPathEvent::SendSlow,
        IpcPathEvent::RecvFast,
        IpcPathEvent::RecvSlow,
        IpcPathEvent::ReplyDelivered,
        IpcPathEvent::ReplyNoWaiter,
    ] {
        trace_ipc_path(&paths, ev, &mut out);
    }
    assert_eq!(
        out,
        vec![
            info("ipc_trace_paths send=fast"),
            info("ipc_trace_paths send=slow"),
            info("ipc_trace_paths recv=fast"),
            info("ipc_trace_paths recv=slow"),
            info("ipc_trace_paths reply=delivered"),
            info("ipc_trace_paths reply=no_waiter"),
        ]
    );
}

fn shown(f: impl FnOnce(&mut Vec<u8>)) -> String {
    let mut out = Vec::new();
    f(&mut out);
    String::from_utf8(out).unwrap()
}

#[test]
fn page_faults_resume_or_halt() {
    let mut g = PageFaultGuard::new();
    let mut out = Vec::new();
    assert_eq!(page_fault_handler(&mut g, 0x10, 2, 0x20, 0x30, &mut out), FaultStep::Halt);
    assert_eq!(
        String::from_utf8(out).unwrap(),
        "[EXC] #PF unguarded\n cr2=0x0000000000000010 err=0x0000000000000002 \
         rip=0x0000000000000020 rsp=0x0000000000000030\n"
    );
    arm_guard(&mut g, 0x99);
    let mut out = Vec::new();
    assert_eq!(
        page_fault_handler(&mut g, 0x10, 2, 0x20, 0x30, &mut out),
        FaultStep::Resume { rip: 0x99 }
    );
    assert_eq!(String::from_utf8(out).unwrap(), "[EXC] #PF guarded => fixup\n");
    assert_eq!(g.last.addr, 0x10);
    assert_eq!((g.hit, g.active), (1, 0));
}

#[test]
fn fatal_faults_and_panics_are_shown() {
    assert_eq!(
        shown(|o| show_fatal_fault(FatalFault::GeneralProtection, 1, 2, 3, o)),
        "[EXC] #GP err=0x0000000000000001 rip=0x0000000000000002 rsp=0x0000000000000003\n"
    );
    assert_eq!(
        shown(|o| show_fatal_fault(FatalFault::DoubleFault, 0, 0, 0, o)),
        "[EXC] #DF err=0x0000000000000000 rip=0x0000000000000000 rsp=0x0000000000000000\n"
    );
    let mut busy = false;
    assert_eq!(
        shown(|o| show_panic(&mut busy, Some((12, 5)), o)),
        "[PANIC] kernel panic\n[PANIC] location line=0x000000000000000c col=0x0000000000000005\n"
    );
    assert!(busy);
    assert_eq!(shown(|o| show_panic(&mut busy, None, o)), "[PANIC] re-entered => halt\n");
    let mut busy = false;
    assert_eq!(
        shown(|o| show_panic(&mut busy, None, o)),
        "[PANIC] kernel panic\n[PANIC] location unknown\n"
    );
}

#[test]
fn calls_of_user_code() {
    let s = mailbox_slots(0x1000);
    assert_eq!((s.echo, s.sysno, s.a0), (0xff8, 0xff0, 0xfe8));
    assert_eq!((s.a1, s.a2, s.ret), (0xfe0, 0xfd8, 0xfd0));
    assert_eq!(mailbox_slots(0).sysno, u64::MAX - 15);
    assert_eq!(ring3_demo_answer(1, 0x1111, 0x2222, 0x3333), 0x6666);
    assert_eq!(ring3_demo_answer(1, u64::MAX, 1, 1), 1);
    assert_eq!(ring3_demo_answer(2, 1, 1, 1), 0);
    assert_eq!(ring3_demo_step(1), DemoStep::Answer);
    assert_eq!(ring3_demo_step(2), DemoStep::ShowEcho);
    assert_eq!(ring3_demo_step(3), DemoStep::Stop);
    assert!(shown(|o| show_demo_call(o, 1, 2, 3, 4, 5, 6)).starts_with(
        "[INT80] syscall enter\n rip=0x0000000000000001 rsp=0x0000000000000002\n sysno="
    ));
    assert!(shown(|o| show_demo_echo(o, 1, 2, 3)).ends_with(" echo=0x0000000000000003\n"));
    assert_eq!(
        shown(|o| show_demo_end(o, 3)),
        "[INT80] final\n echo=0x0000000000000003\n[INT80] done -> halt\n"
    );
}

#[test]
fn taken_replies_are_shown_for_a_while() {
    let mut count = 0;
    let mut out = Vec::new();
    show_taken_reply(&mut count, 30, 5, &mut out);
    assert_eq!((count, out.len()), (0, 0));
    show_taken_reply(&mut count, 31, 5, &mut out);
    assert_eq!(
        String::from_utf8(out.clone()).unwrap(),
        "[INT80] sys31 ret=0x0000000000000005\n"
    );
    count = 64;
    out.clear();
    show_taken_reply(&mut count, 31, 5, &mut out);
    assert_eq!((count, out.len()), (65, 0));
}

#[test]
fn roots_are_remembered() {
    let mut cache = DemoRoots::new();
    let (u, k) = (PhysFrame::from_index(3), PhysFrame::from_index(4));
    assert_eq!(cache_demo_roots_if_needed(&mut cache, None), None);
    assert_eq!(cache_demo_roots_if_needed(&mut cache, Some((u, k))), Some((u, k)));
    assert_eq!(cache.user_phys, 0x3000);
    assert_eq!(cache_demo_roots_if_needed(&mut cache, None), Some((u, k)));
    assert_eq!(cache_demo_roots_if_needed(&mut cache, Some((k, u))), Some((u, k)));
}

#[test]
fn user_code_is_entered_without_interrupts() {
    let f = user_iret_frame(1, 2, 0x23, 0x1b);
    assert_eq!((f.ss, f.rsp, f.rflags, f.cs, f.rip), (0x1b, 2, 2, 0x23, 1));
    assert_eq!(user_selector(0x20), 0x23);
    assert_eq!(user_selector(0x1b), 0x1b);
}

#[test]
fn first_demo_that_is_on_wins() {
    assert_eq!(boot_mode(true, true, true), BootMode::Ring3Demo);
    assert_eq!(boot_mode(false, true, true), BootMode::Ring3Mailbox);
    assert_eq!(boot_mode(false, false, true), BootMode::Ring3MailboxLoop);
    assert_eq!(boot_mode(false, false, false), BootMode::Ticks);
    assert_eq!(boot_ticks(BootMode::Ring3Demo), 0);
    assert_eq!(boot_ticks(BootMode::Ring3Mailbox), 3);
    assert_eq!(boot_ticks(BootMode::Ring3MailboxLoop), 0);
    assert_eq!(boot_ticks(BootMode::Ticks), 120);
}

#[test]
fn demo_program_bytes() {
    assert_eq!(
        ring3_demo_program(),
        vec![
            0x48, 0xC7, 0x44, 0x24, 0xF0, 0x01, 0x00, 0x00, 0x00,
            0x48, 0xC7, 0x44, 0x24, 0xE8, 0x11, 0x11, 0x00, 0x00,
            0x48, 0xC7, 0x44, 0x24, 0xE0, 0x22, 0x22, 0x00, 0x00,
            0x48, 0xC7, 0x44, 0x24, 0xD8, 0x33, 0x33, 0x00, 0x00,
            0xCD, 0x80,
            0x48, 0x8B, 0x44, 0x24, 0xD0,
            0x48, 0x89, 0x44, 0x24, 0xF8,
            0xCD, 0x80,
            0xCD, 0x80,
            0xEB, 0xFE,
        ]
    );
    let mailbox = ring3_mailbox_program();
    assert_eq!(mailbox.len(), 54);
    assert_eq!(mailbox[5], 0x0b);
    assert_eq!(mailbox[18..27], [0x48, 0xC7, 0x44, 0x24, 0xE0, 0x34, 0x12, 0x00, 0x00]);
    assert_eq!(mailbox, one_call_program(11, 0, 0x1234, 0));
}

#[test]
fn loop_program_bytes() {
    let code = ring3_mailbox_loop_program();
    assert_eq!(code.len(), 1562);
    for round in 0..4usize {
        let at = 390 * round;
        assert_eq!(code[at + 5], 11);
        assert_eq!(code[at + 23], 0x34 + round as u8);
        assert_eq!(code[at + 24], 0x12);
        for t in 1..=8usize {
            assert_eq!(code[at + 38 * t + 5], 30);
        }
        assert_eq!(code[at + 38 * 9 + 5], 31);
        assert_eq!(code[at + 380..at + 385], [0x48, 0x8B, 0x44, 0x24, 0xD0]);
    }
    assert_eq!(code[1560..], [0xEB, 0xFE]);
    let mut one = Vec::new();
    push_insn(&mut one, Insn::Store { below: 128, imm: 0x8765_4321 });
    assert_eq!(one, vec![0x48, 0xC7, 0x44, 0x24, 0x80, 0x21, 0x43, 0x65, 0x87]);
}

#[test]
fn programs_start_in_their_page() {
    let e = ring3_entry();
    assert_eq!(e.rip, 0x1000_0000_0000 + 0x120000);
    assert_eq!(e.rsp, 0x1000_0000_0000 + 0x122000);
    let frame = PhysFrame::from_index(5);
    let root = Some(PhysFrame::from_index(6));
    let mut out = Vec::new();
    assert_eq!(
        plan_mem_action(map_user_code(frame), root, &mut out),
        Ok(PagePlan::MapTo { virt: e.rip, phys: 0x5000, flags: 7 })
    );
    assert_eq!(
        plan_mem_action(map_user_stack(frame), root, &mut out),
        Ok(PagePlan::MapTo { virt: e.rsp - 4096, phys: 0x5000, flags: 7 })
    );
    assert_eq!(
        plan_mem_action(unmap_user_code(), root, &mut out),
        Ok(PagePlan::Unmap { virt: e.rip })
    );
    assert_eq!(
        plan_mem_action(remap_user_code(frame), root, &mut out),
        Ok(PagePlan::MapTo { virt: e.rip, phys: 0x5000, flags: 5 })
    );
}
