//! The start of the kernel: what it boots into, and the programs that it runs as user
//! code, with the pages that they need.

use vstd::prelude::*;

use crate::arch::paging::apply::{page_addr, spec_plan, PagePlan, PageRefusal};
use crate::arch::paging::tables::{align_down_16, floor_16};
use crate::arch::virt_layout::USER_SPACE_BASE;
use crate::mem::addr::{PhysFrame, VirtPage, PAGE_SIZE};
use crate::mem::paging::{MemAction, PageFlags};

verus! {

/// The page of user space that holds the program.
pub const USER_CODE_PAGE: u64 = 0x120;

/// The page of user space that holds its stack.
pub const USER_STACK_PAGE: u64 = 0x121;

/// How often the program of the loop sends a message.
pub const LOOP_ROUNDS: u32 = 4;

/// How many ticks the kernel is given to answer each of them.
pub const LOOP_TICKS: u32 = 8;

/// The first message of the loop.
pub const LOOP_MSG: u32 = 0x1234;

/// What the kernel boots into.
#[derive(Clone, Copy, Debug, PartialEq, Eq, Structural)]
pub enum BootMode {
    /// A program that makes a call and reads the answer.
    Ring3Demo,
    /// A few ticks, and a program that sends a message.
    Ring3Mailbox,
    /// A program that sends messages and drives the ticks itself.
    Ring3MailboxLoop,
    /// The ticks, and the dump of the events.
    Ticks,
}

/// What the kernel boots into; the first demo that is on wins.
pub fn boot_mode(ring3_demo: bool, ring3_mailbox: bool, ring3_mailbox_loop: bool) -> (m: BootMode)
    ensures
        m == (if ring3_demo {
            BootMode::Ring3Demo
        } else if ring3_mailbox {
            BootMode::Ring3Mailbox
        } else if ring3_mailbox_loop {
            BootMode::Ring3MailboxLoop
        } else {
            BootMode::Ticks
        }),
{
    if ring3_demo {
        BootMode::Ring3Demo
    } else if ring3_mailbox {
        BootMode::Ring3Mailbox
    } else if ring3_mailbox_loop {
        BootMode::Ring3MailboxLoop
    } else {
        BootMode::Ticks
    }
}

/// How many ticks the kernel runs by itself, unless it halts first.
pub fn boot_ticks(mode: BootMode) -> (n: u64)
    ensures
        n == (match mode {
            BootMode::Ring3Demo => 0u64,
            BootMode::Ring3Mailbox => 3,
            BootMode::Ring3MailboxLoop => 0,
            BootMode::Ticks => 120,
        }),
{
    match mode {
        BootMode::Ring3Demo => 0,
        BootMode::Ring3Mailbox => 3,
        BootMode::Ring3MailboxLoop => 0,
        BootMode::Ticks => 120,
    }
}

/// The instructions that the programs are made of.
#[derive(Clone, Copy, Debug, PartialEq, Eq, Structural)]
pub enum Insn {
    /// `mov qword ptr [rsp - below], imm`, for 1 to 128 bytes below
    Store { below: u8, imm: u32 },
    /// `int 0x80`
    Call,
    /// `mov rax, [rsp - 48]` and `mov [rsp - 8], rax`: the answer is copied to the echo.
    Echo,
    /// `jmp $`
    Spin,
}

/// The bytes of an instruction; numbers have their lowest byte first, and an offset below
/// the stack pointer is a negative byte.
pub open spec fn encode(insn: Insn) -> Seq<u8> {
    match insn {
        Insn::Store { below, imm } => seq![
            0x48,
            0xc7,
            0x44,
            0x24,
            ((256 - below) % 256) as u8,
            (imm as int % 256) as u8,
            (imm as int / 0x100 % 256) as u8,
            (imm as int / 0x1_0000 % 256) as u8,
            (imm as int / 0x100_0000) as u8,
        ],
        Insn::Call => seq![0xcd, 0x80],
        Insn::Echo => seq![0x48, 0x8b, 0x44, 0x24, 0xd0, 0x48, 0x89, 0x44, 0x24, 0xf8],
        Insn::Spin => seq![0xeb, 0xfe],
    }
}

/// The bytes of a program.
pub open spec fn encode_all(program: Seq<Insn>) -> Seq<u8>
    decreases program.len(),
{
    if program.len() == 0 {
        Seq::empty()
    } else {
        encode_all(program.drop_last()) + encode(program.last())
    }
}

/// A call: its number and its words are stored below the stack pointer, then the kernel is
/// entered.
pub open spec fn call(sysno: u32, a0: u32, a1: u32, a2: u32) -> Seq<Insn> {
    seq![
        Insn::Store { below: 16, imm: sysno },
        Insn::Store { below: 24, imm: a0 },
        Insn::Store { below: 32, imm: a1 },
        Insn::Store { below: 40, imm: a2 },
        Insn::Call,
    ]
}

/// The first programs: one call, the answer to the echo, two more entries, and a stop.
pub open spec fn one_call(sysno: u32, a0: u32, a1: u32, a2: u32) -> Seq<Insn> {
    call(sysno, a0, a1, a2) + seq![Insn::Echo, Insn::Call, Insn::Call, Insn::Spin]
}

/// `n` calls for a tick.
pub open spec fn ticks(n: int) -> Seq<Insn>
    decreases n,
{
    if n <= 0 {
        Seq::empty()
    } else {
        ticks(n - 1) + call(30, 0, 0, 0)
    }
}

/// A round of the loop: send a message, let the kernel tick, take the reply, echo it.
pub open spec fn round(r: int) -> Seq<Insn> {
    call(11, 0, (LOOP_MSG + r) as u32, 0) + ticks(LOOP_TICKS as int) + call(31, 0, 0, 0) + seq![
        Insn::Echo,
    ]
}

/// The first `n` rounds.
pub open spec fn rounds(n: int) -> Seq<Insn>
    decreases n,
{
    if n <= 0 {
        Seq::empty()
    } else {
        rounds(n - 1) + round(n - 1)
    }
}

/// The program of the loop.
pub open spec fn loop_program() -> Seq<Insn> {
    rounds(LOOP_ROUNDS as int) + seq![Insn::Spin]
}

proof fn lemma_encode_push(program: Seq<Insn>, insn: Insn)
    ensures
        encode_all(program.push(insn)) == encode_all(program) + encode(insn),
{
    assert(program.push(insn).drop_last() =~= program);
}

/// Two programs in a row are the bytes of one behind those of the other.
pub proof fn law_programs_concatenate(a: Seq<Insn>, b: Seq<Insn>)
    ensures
        encode_all(a + b) == encode_all(a) + encode_all(b),
    decreases b.len(),
{
    if b.len() == 0 {
        assert(a + b =~= a);
        assert(encode_all(a) + encode_all(b) =~= encode_all(a));
    } else {
        law_programs_concatenate(a, b.drop_last());
        assert((a + b).drop_last() =~= a + b.drop_last());
        assert(encode_all(a + b) =~= encode_all(a) + encode_all(b));
    }
}

/// Appends `mov qword ptr [rsp - below], imm`.
fn mov_rsp_off_imm32(code: &mut Vec<u8>, below: u8, imm: u32)
    ensures
        final(code)@ == old(code)@ + encode(Insn::Store { below, imm }),
{
    assert((imm & 0xff) as u8 == imm % 256) by (bit_vector);
    assert(((imm >> 8) & 0xff) as u8 == imm / 0x100 % 256) by (bit_vector);
    assert(((imm >> 16) & 0xff) as u8 == imm / 0x1_0000 % 256) by (bit_vector);
    assert(((imm >> 24) & 0xff) as u8 == imm / 0x100_0000) by (bit_vector);
    code.push(0x48);
    code.push(0xc7);
    code.push(0x44);
    code.push(0x24);
    code.push(0u8.wrapping_sub(below));
    code.push((imm & 0xff) as u8);
    code.push(((imm >> 8) & 0xff) as u8);
    code.push(((imm >> 16) & 0xff) as u8);
    code.push(((imm >> 24) & 0xff) as u8);
    assert(code@ =~= old(code)@ + encode(Insn::Store { below, imm }));
}

/// Appends the bytes of an instruction.
pub fn push_insn(code: &mut Vec<u8>, insn: Insn)
    ensures
        final(code)@ == old(code)@ + encode(insn),
{
    match insn {
        Insn::Store { below, imm } => mov_rsp_off_imm32(code, below, imm),
        Insn::Call => {
            code.push(0xcd);
            code.push(0x80);
        },
        Insn::Echo => {
            code.push(0x48);
            code.push(0x8b);
            code.push(0x44);
            code.push(0x24);
            code.push(0xd0);
            code.push(0x48);
            code.push(0x89);
            code.push(0x44);
            code.push(0x24);
            code.push(0xf8);
        },
        Insn::Spin => {
            code.push(0xeb);
            code.push(0xfe);
        },
    }
    assert(code@ =~= old(code)@ + encode(insn));
}

/// Appends a call.
fn push_call(code: &mut Vec<u8>, sysno: u32, a0: u32, a1: u32, a2: u32)
    ensures
        final(code)@ == old(code)@ + encode_all(call(sysno, a0, a1, a2)),
{
    push_insn(code, Insn::Store { below: 16, imm: sysno });
    push_insn(code, Insn::Store { below: 24, imm: a0 });
    push_insn(code, Insn::Store { below: 32, imm: a1 });
    push_insn(code, Insn::Store { below: 40, imm: a2 });
    push_insn(code, Insn::Call);
    proof {
        let s0 = Seq::<Insn>::empty();
        let s1 = s0.push(Insn::Store { below: 16, imm: sysno });
        let s2 = s1.push(Insn::Store { below: 24, imm: a0 });
        let s3 = s2.push(Insn::Store { below: 32, imm: a1 });
        let s4 = s3.push(Insn::Store { below: 40, imm: a2 });
        lemma_encode_push(s0, Insn::Store { below: 16, imm: sysno });
        lemma_encode_push(s1, Insn::Store { below: 24, imm: a0 });
        lemma_encode_push(s2, Insn::Store { below: 32, imm: a1 });
        lemma_encode_push(s3, Insn::Store { below: 40, imm: a2 });
        lemma_encode_push(s4, Insn::Call);
        assert(call(sysno, a0, a1, a2) =~= s4.push(Insn::Call));
        assert(code@ =~= old(code)@ + encode_all(call(sysno, a0, a1, a2)));
    }
}

/// The program that makes one call, echoes the answer and enters the kernel twice more.
pub fn one_call_program(sysno: u32, a0: u32, a1: u32, a2: u32) -> (code: Vec<u8>)
    ensures
        code@ == encode_all(one_call(sysno, a0, a1, a2)),
{
    let mut code: Vec<u8> = Vec::new();
    push_call(&mut code, sysno, a0, a1, a2);
    push_insn(&mut code, Insn::Echo);
    push_insn(&mut code, Insn::Call);
    push_insn(&mut code, Insn::Call);
    push_insn(&mut code, Insn::Spin);
    proof {
        let s0 = call(sysno, a0, a1, a2);
        let s1 = s0.push(Insn::Echo);
        let s2 = s1.push(Insn::Call);
        let s3 = s2.push(Insn::Call);
        lemma_encode_push(s0, Insn::Echo);
        lemma_encode_push(s1, Insn::Call);
        lemma_encode_push(s2, Insn::Call);
        lemma_encode_push(s3, Insn::Spin);
        assert(one_call(sysno, a0, a1, a2) =~= s3.push(Insn::Spin));
        assert(code@ =~= encode_all(one_call(sysno, a0, a1, a2)));
    }
    code
}

/// The program of the demo of a call.
pub fn ring3_demo_program() -> (code: Vec<u8>)
    ensures
        code@ == encode_all(one_call(1, 0x1111, 0x2222, 0x3333)),
{
    one_call_program(1, 0x1111, 0x2222, 0x3333)
}

/// The program that sends a message.
pub fn ring3_mailbox_program() -> (code: Vec<u8>)
    ensures
        code@ == encode_all(one_call(11, 0, LOOP_MSG, 0)),
{
    one_call_program(11, 0, LOOP_MSG, 0)
}

/// Appends a round of the loop.
fn push_round(code: &mut Vec<u8>, r: u32)
    requires
        r < LOOP_ROUNDS,
    ensures
        final(code)@ == old(code)@ + encode_all(round(r as int)),
{
    let ghost sent = call(11, 0, (LOOP_MSG + r) as u32, 0);
    push_call(code, 11, 0, LOOP_MSG + r, 0);
    let mut t: u32 = 0;
    assert(sent + ticks(0) =~= sent);
    while t < LOOP_TICKS
        invariant
            t <= LOOP_TICKS,
            code@ == old(code)@ + encode_all(sent + ticks(t as int)),
        decreases LOOP_TICKS - t,
    {
        let ghost before = code@;
        push_call(code, 30, 0, 0, 0);
        proof {
            law_programs_concatenate(sent + ticks(t as int), call(30, 0, 0, 0));
            assert(sent + ticks(t + 1) =~= (sent + ticks(t as int)) + call(30, 0, 0, 0));
            assert(code@ =~= old(code)@ + encode_all(sent + ticks(t + 1)));
        }
        t += 1;
    }
    push_call(code, 31, 0, 0, 0);
    push_insn(code, Insn::Echo);
    proof {
        let a = sent + ticks(LOOP_TICKS as int);
        let b = a + call(31, 0, 0, 0);
        law_programs_concatenate(a, call(31, 0, 0, 0));
        lemma_encode_push(b, Insn::Echo);
        assert(round(r as int) =~= b.push(Insn::Echo));
        assert(code@ =~= old(code)@ + encode_all(round(r as int)));
    }
}

/// The program that sends messages, drives the ticks and takes the replies.
pub fn ring3_mailbox_loop_program() -> (code: Vec<u8>)
    ensures
        code@ == encode_all(loop_program()),
{
    let mut code: Vec<u8> = Vec::new();
    let mut r: u32 = 0;
    while r < LOOP_ROUNDS
        invariant
            r <= LOOP_ROUNDS,
            code@ == encode_all(rounds(r as int)),
        decreases LOOP_ROUNDS - r,
    {
        push_round(&mut code, r);
        proof {
            law_programs_concatenate(rounds(r as int), round(r as int));
        }
        r += 1;
    }
    push_insn(&mut code, Insn::Spin);
    proof {
        lemma_encode_push(rounds(LOOP_ROUNDS as int), Insn::Spin);
        assert(loop_program() =~= rounds(LOOP_ROUNDS as int).push(Insn::Spin));
    }
    code
}

proof fn lemma_call_len(sysno: u32, a0: u32, a1: u32, a2: u32)
    ensures
        encode_all(call(sysno, a0, a1, a2)).len() == 38,
{
    let c = call(sysno, a0, a1, a2);
    reveal_with_fuel(encode_all, 6);
    assert(c.drop_last().drop_last().drop_last().drop_last().drop_last().len() == 0);
    assert(encode(c[0]).len() == 9 && encode(c[1]).len() == 9 && encode(c[2]).len() == 9 && encode(
        c[3],
    ).len() == 9 && encode(c[4]).len() == 2);
}

proof fn lemma_ticks_len(n: int)
    requires
        n >= 0,
    ensures
        encode_all(ticks(n)).len() == 38 * n,
    decreases n,
{
    if n > 0 {
        lemma_ticks_len(n - 1);
        lemma_call_len(30, 0, 0, 0);
        law_programs_concatenate(ticks(n - 1), call(30, 0, 0, 0));
    }
}

proof fn lemma_rounds_len(n: int)
    requires
        n >= 0,
    ensures
        encode_all(rounds(n)).len() == 390 * n,
    decreases n,
{
    if n > 0 {
        let sent = call(11, 0, (LOOP_MSG + (n - 1)) as u32, 0);
        let a = sent + ticks(8);
        let b = a + call(31, 0, 0, 0);
        lemma_rounds_len(n - 1);
        lemma_ticks_len(8);
        lemma_call_len(11, 0, (LOOP_MSG + (n - 1)) as u32, 0);
        lemma_call_len(31, 0, 0, 0);
        law_programs_concatenate(sent, ticks(8));
        law_programs_concatenate(a, call(31, 0, 0, 0));
        lemma_encode_push(b, Insn::Echo);
        assert(round(n - 1) =~= b.push(Insn::Echo));
        law_programs_concatenate(rounds(n - 1), round(n - 1));
    }
}

/// Every program fits in its page.
pub proof fn law_programs_fit_in_a_page(sysno: u32, a0: u32, a1: u32, a2: u32)
    ensures
        encode_all(one_call(sysno, a0, a1, a2)).len() == 54,
        encode_all(loop_program()).len() == 1562,
        encode_all(loop_program()).len() <= PAGE_SIZE,
{
    let c = call(sysno, a0, a1, a2);
    lemma_call_len(sysno, a0, a1, a2);
    lemma_encode_push(c, Insn::Echo);
    lemma_encode_push(c.push(Insn::Echo), Insn::Call);
    lemma_encode_push(c.push(Insn::Echo).push(Insn::Call), Insn::Call);
    lemma_encode_push(c.push(Insn::Echo).push(Insn::Call).push(Insn::Call), Insn::Spin);
    assert(one_call(sysno, a0, a1, a2) =~= c.push(Insn::Echo).push(Insn::Call).push(
        Insn::Call,
    ).push(Insn::Spin));
    lemma_rounds_len(4);
    lemma_encode_push(rounds(4), Insn::Spin);
    assert(loop_program() =~= rounds(4).push(Insn::Spin));
}

/// Where user code starts.
#[derive(Clone, Copy, Debug, PartialEq, Eq, Structural)]
pub struct Ring3Entry {
    pub rip: u64,
    pub rsp: u64,
}

/// Where a program starts: at the first byte of its page, with the stack at the end of the
/// other one.
pub fn ring3_entry() -> (e: Ring3Entry)
    ensures
        e.rip == page_addr(VirtPage { number: USER_CODE_PAGE }, true),
        e.rsp == floor_16(page_addr(VirtPage { number: USER_STACK_PAGE }, true) + 4096),
{
    let code = VirtPage::from_index(USER_CODE_PAGE);
    let stack = VirtPage::from_index(USER_STACK_PAGE);
    Ring3Entry {
        rip: USER_SPACE_BASE + code.start_address().0,
        rsp: align_down_16(USER_SPACE_BASE + stack.start_address().0 + PAGE_SIZE),
    }
}

/// The attributes of a page that user code reads.
pub open spec fn user_readable() -> PageFlags {
    PageFlags::present().spec_union(PageFlags::user())
}

/// The attributes of a page that user code reads and writes.
pub open spec fn user_writable() -> PageFlags {
    PageFlags::present().spec_union(PageFlags::writable()).spec_union(PageFlags::user())
}

/// The mapping of a program that is still to be written.
pub fn map_user_code(frame: PhysFrame) -> (a: MemAction)
    ensures
        a == (MemAction::MapPage {
            page: VirtPage { number: USER_CODE_PAGE },
            frame,
            flags: user_writable(),
        }),
{
    MemAction::map(
        VirtPage::from_index(USER_CODE_PAGE),
        frame,
        PageFlags::present().union(PageFlags::writable()).union(PageFlags::user()),
    )
}

/// The mapping of its stack.
pub fn map_user_stack(frame: PhysFrame) -> (a: MemAction)
    ensures
        a == (MemAction::MapPage {
            page: VirtPage { number: USER_STACK_PAGE },
            frame,
            flags: user_writable(),
        }),
{
    MemAction::map(
        VirtPage::from_index(USER_STACK_PAGE),
        frame,
        PageFlags::present().union(PageFlags::writable()).union(PageFlags::user()),
    )
}

/// Takes the program out again, once it is written.
pub fn unmap_user_code() -> (a: MemAction)
    ensures
        a == (MemAction::Unmap { page: VirtPage { number: USER_CODE_PAGE } }),
{
    MemAction::unmap(VirtPage::from_index(USER_CODE_PAGE))
}

/// The mapping of the finished program, which is not written any more.
pub fn remap_user_code(frame: PhysFrame) -> (a: MemAction)
    ensures
        a == (MemAction::MapPage {
            page: VirtPage { number: USER_CODE_PAGE },
            frame,
            flags: user_readable(),
        }),
{
    MemAction::map(
        VirtPage::from_index(USER_CODE_PAGE),
        frame,
        PageFlags::present().union(PageFlags::user()),
    )
}

/// The pages of a program are mapped where it starts and where its stack is, in the user
/// slot; the finished program cannot be written.
pub proof fn law_program_pages_are_where_it_starts(frame: PhysFrame, root: PhysFrame)
    requires
        frame.number < 0x100_0000_0000,
    ensures
        ({
            let code = VirtPage { number: USER_CODE_PAGE };
            let stack = VirtPage { number: USER_STACK_PAGE };
            let phys = (frame.number * 4096) as u64;
            &&& spec_plan(
                MemAction::MapPage { page: code, frame, flags: user_writable() },
                Some(root),
            ) == Ok::<PagePlan, PageRefusal>(
                PagePlan::MapTo { virt: page_addr(code, true) as u64, phys, flags: 7 },
            )
            &&& spec_plan(
                MemAction::MapPage { page: stack, frame, flags: user_writable() },
                Some(root),
            ) == Ok::<PagePlan, PageRefusal>(
                PagePlan::MapTo { virt: page_addr(stack, true) as u64, phys, flags: 7 },
            )
            &&& spec_plan(
                MemAction::MapPage { page: code, frame, flags: user_readable() },
                Some(root),
            ) == Ok::<PagePlan, PageRefusal>(
                PagePlan::MapTo { virt: page_addr(code, true) as u64, phys, flags: 5 },
            )
        }),
{
    assert((1u64 | 2) | 4 == 7 && 1u64 | 4 == 5 && 7u64 & 0x8000_0000_0000_0007 == 7 && 5u64
        & 0x8000_0000_0000_0007 == 5 && 7u64 & 4 == 4 && 5u64 & 4 == 4) by (bit_vector);
}

/// The words of a call, by the number of bytes that they lie below the stack pointer.
pub struct Machine {
    pub words: Map<int, u32>,
    pub calls: Seq<CallWords>,
}

/// What the kernel finds when it is entered.
pub struct CallWords {
    pub sysno: u32,
    pub a0: u32,
    pub a1: u32,
    pub a2: u32,
}

/// What an instruction does, as far as calls go: a store leaves its word, and an entry finds
/// what lies where the kernel looks for the words of a call.
pub open spec fn step(m: Machine, insn: Insn) -> Machine {
    match insn {
        Insn::Store { below, imm } => Machine { words: m.words.insert(below as int, imm), ..m },
        Insn::Call => Machine {
            calls: m.calls.push(
                CallWords { sysno: m.words[16], a0: m.words[24], a1: m.words[32], a2: m.words[40] },
            ),
            ..m
        },
        Insn::Echo => m,
        Insn::Spin => m,
    }
}

/// What a program does, one instruction after the other.
pub open spec fn run(m: Machine, program: Seq<Insn>) -> Machine
    decreases program.len(),
{
    if program.len() == 0 {
        m
    } else {
        step(run(m, program.drop_last()), program.last())
    }
}

/// Two programs in a row do what the one does and then what the other does.
pub proof fn law_programs_run_in_a_row(m: Machine, a: Seq<Insn>, b: Seq<Insn>)
    ensures
        run(m, a + b) == run(run(m, a), b),
    decreases b.len(),
{
    if b.len() == 0 {
        assert(a + b =~= a);
    } else {
        law_programs_run_in_a_row(m, a, b.drop_last());
        assert((a + b).drop_last() =~= a + b.drop_last());
        assert((a + b).last() == b.last());
    }
}

/// A call enters the kernel once, and the kernel finds its number and its words.
#[verifier::rlimit(40)]
pub proof fn law_call_passes_its_words(m: Machine, sysno: u32, a0: u32, a1: u32, a2: u32)
    ensures
        run(m, call(sysno, a0, a1, a2)).calls == m.calls.push(CallWords { sysno, a0, a1, a2 }),
{
    let c = call(sysno, a0, a1, a2);
    reveal_with_fuel(run, 6);
    assert(c.drop_last().drop_last().drop_last().drop_last().drop_last().len() == 0);
    assert(c.last() == Insn::Call);
    assert(c.drop_last().last() == (Insn::Store { below: 40, imm: a2 }));
    assert(c.drop_last().drop_last().last() == (Insn::Store { below: 32, imm: a1 }));
    assert(c.drop_last().drop_last().drop_last().last() == (Insn::Store { below: 24, imm: a0 }));
    assert(c.drop_last().drop_last().drop_last().drop_last().last() == (Insn::Store {
        below: 16,
        imm: sysno,
    }));
}

proof fn lemma_ticks_run(m: Machine, n: int)
    requires
        0 <= n,
    ensures
        ({
            let r = run(m, ticks(n));
            &&& r.calls.len() == m.calls.len() + n
            &&& m.calls.is_prefix_of(r.calls)
            &&& forall|i: int|
                m.calls.len() <= i < r.calls.len() ==> #[trigger] r.calls[i] == (CallWords {
                    sysno: 30,
                    a0: 0,
                    a1: 0,
                    a2: 0,
                })
        }),
    decreases n,
{
    if n > 0 {
        lemma_ticks_run(m, n - 1);
        law_programs_run_in_a_row(m, ticks(n - 1), call(30, 0, 0, 0));
        law_call_passes_its_words(run(m, ticks(n - 1)), 30, 0, 0, 0);
    } else {
        assert(m.calls =~= m.calls.subrange(0, m.calls.len() as int));
    }
}

/// In a round of the loop the program sends a message of its own at the first endpoint, lets
/// the kernel tick eight times, and takes the reply.
#[verifier::rlimit(40)]
pub proof fn law_round_sends_ticks_and_takes(m: Machine, r: int)
    requires
        0 <= r < LOOP_ROUNDS,
    ensures
        ({
            let c = run(m, round(r)).calls;
            let k = m.calls.len() as int;
            &&& c.len() == k + 10
            &&& m.calls.is_prefix_of(c)
            &&& c[k] == CallWords { sysno: 11, a0: 0, a1: (0x1234 + r) as u32, a2: 0 }
            &&& forall|i: int|
                k < i < k + 9 ==> #[trigger] c[i] == (CallWords { sysno: 30, a0: 0, a1: 0, a2: 0 })
            &&& c[k + 9] == CallWords { sysno: 31, a0: 0, a1: 0, a2: 0 }
        }),
{
    let msg = (LOOP_MSG + r) as u32;
    let a = call(11, 0, msg, 0);
    let b = a + ticks(LOOP_TICKS as int);
    let c = b + call(31, 0, 0, 0);
    let ma = run(m, a);
    let mb = run(m, b);
    let mc = run(m, c);
    law_call_passes_its_words(m, 11, 0, msg, 0);
    law_programs_run_in_a_row(m, a, ticks(LOOP_TICKS as int));
    lemma_ticks_run(ma, LOOP_TICKS as int);
    law_programs_run_in_a_row(m, b, call(31, 0, 0, 0));
    law_call_passes_its_words(mb, 31, 0, 0, 0);
    assert(round(r) =~= c.push(Insn::Echo));
    assert(c.push(Insn::Echo).drop_last() =~= c);
    assert(run(m, round(r)).calls == mc.calls);
    assert(mb.calls[m.calls.len() as int] == mb.calls.subrange(0, ma.calls.len() as int)[
        m.calls.len() as int]);
    assert forall|i: int| 0 <= i < m.calls.len() implies mc.calls[i] == m.calls[i] by {
        assert(mb.calls.subrange(0, ma.calls.len() as int)[i] == mb.calls[i]);
    }
    assert(m.calls =~= mc.calls.subrange(0, m.calls.len() as int));
}

/// The first programs enter the kernel three times, each time with the words of the one call.
#[verifier::rlimit(40)]
pub proof fn law_first_programs_make_one_call(m: Machine, sysno: u32, a0: u32, a1: u32, a2: u32)
    ensures
        ({
            let w = CallWords { sysno, a0, a1, a2 };
            run(m, one_call(sysno, a0, a1, a2)).calls == m.calls.push(w).push(w).push(w)
        }),
{
    let c = call(sysno, a0, a1, a2);
    let rest = seq![Insn::Echo, Insn::Call, Insn::Call, Insn::Spin];
    law_programs_run_in_a_row(m, c, rest);
    law_call_passes_its_words(m, sysno, a0, a1, a2);
    lemma_call_keeps_its_words(m, sysno, a0, a1, a2);
    reveal_with_fuel(run, 5);
    assert(rest.drop_last().drop_last().drop_last().drop_last().len() == 0);
    assert(rest.last() == Insn::Spin && rest.drop_last().last() == Insn::Call
        && rest.drop_last().drop_last().last() == Insn::Call
        && rest.drop_last().drop_last().drop_last().last() == Insn::Echo);
}

#[verifier::rlimit(40)]
proof fn lemma_call_keeps_its_words(m: Machine, sysno: u32, a0: u32, a1: u32, a2: u32)
    ensures
        ({
            let w = run(m, call(sysno, a0, a1, a2)).words;
            w[16] == sysno && w[24] == a0 && w[32] == a1 && w[40] == a2
        }),
{
    let c = call(sysno, a0, a1, a2);
    reveal_with_fuel(run, 6);
    assert(c.drop_last().drop_last().drop_last().drop_last().drop_last().len() == 0);
    assert(c.last() == Insn::Call);
    assert(c.drop_last().last() == (Insn::Store { below: 40, imm: a2 }));
    assert(c.drop_last().drop_last().last() == (Insn::Store { below: 32, imm: a1 }));
    assert(c.drop_last().drop_last().drop_last().last() == (Insn::Store { below: 24, imm: a0 }));
    assert(c.drop_last().drop_last().drop_last().drop_last().last() == (Insn::Store {
        below: 16,
        imm: sysno,
    }));
}

/// The bytes of a store tell where it goes and what it leaves there: the offset as a negative
/// byte, and the word lowest byte first.
pub proof fn law_store_reads_back(below: u8, imm: u32)
    requires
        1 <= below <= 128,
    ensures
        ({
            let b = encode(Insn::Store { below, imm });
            &&& b.len() == 9
            &&& 256 - b[4] == below
            &&& b[5] + b[6] * 0x100 + b[7] * 0x1_0000 + b[8] * 0x100_0000 == imm
        }),
{
    let i = imm as int;
    assert(i / 0x100 % 256 == i / 0x100 - i / 0x1_0000 * 256);
    assert(i / 0x1_0000 % 256 == i / 0x1_0000 - i / 0x100_0000 * 256);
}

/// The bytes of an echo tell where the word comes from and where it goes: from the answer, 48
/// bytes below the stack pointer, to the echo, 8 bytes below.
pub proof fn law_echo_goes_from_the_answer_to_the_echo()
    ensures
        256 - encode(Insn::Echo)[4] == 48,
        256 - encode(Insn::Echo)[9] == 8,
{
}

} // verus!
