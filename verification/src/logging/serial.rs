//! Text on the serial line COM1.

use vstd::prelude::*;
use vstd::string::StringSliceAdditionalSpecFns;

verus! {

/// The first I/O port of COM1.
pub const COM1: u16 = 0x3f8;

/// The bit of the line status that says that a byte can be sent.
pub const TRANSMIT_EMPTY: u8 = 0x20;

/// A write of a byte to an I/O port.
#[derive(Clone, Copy, Debug, PartialEq, Eq)]
pub struct PortWrite {
    pub port: u16,
    pub value: u8,
}

/// Whether COM1 was set up.
#[derive(Clone, Copy, Debug, PartialEq, Eq)]
pub struct SerialPort {
    pub initialized: bool,
}

/// What sets COM1 up: no interrupts, 115200 baud, eight bits without parity and one stop
/// bit, empty queues, lines on.
pub open spec fn setup() -> Seq<PortWrite> {
    seq![
        PortWrite { port: 0x3f9, value: 0x00 },
        PortWrite { port: 0x3fb, value: 0x80 },
        PortWrite { port: 0x3f8, value: 0x01 },
        PortWrite { port: 0x3f9, value: 0x00 },
        PortWrite { port: 0x3fb, value: 0x03 },
        PortWrite { port: 0x3fa, value: 0xc7 },
        PortWrite { port: 0x3fc, value: 0x0b },
    ]
}

impl SerialPort {
    pub fn new() -> (p: SerialPort)
        ensures
            !p.initialized,
    {
        SerialPort { initialized: false }
    }

    /// Gives the port writes that set COM1 up; once is enough.
    pub fn init(&mut self) -> (writes: Vec<PortWrite>)
        ensures
            final(self).initialized,
            writes@ == (if old(self).initialized {
                Seq::empty()
            } else {
                setup()
            }),
    {
        let mut writes: Vec<PortWrite> = Vec::new();
        if self.initialized {
            return writes;
        }
        writes.push(PortWrite { port: COM1 + 1, value: 0x00 });
        writes.push(PortWrite { port: COM1 + 3, value: 0x80 });
        writes.push(PortWrite { port: COM1, value: 0x01 });
        writes.push(PortWrite { port: COM1 + 1, value: 0x00 });
        writes.push(PortWrite { port: COM1 + 3, value: 0x03 });
        writes.push(PortWrite { port: COM1 + 2, value: 0xc7 });
        writes.push(PortWrite { port: COM1 + 4, value: 0x0b });
        self.initialized = true;
        writes
    }
}

/// Whether a byte can be sent, by the line status.
pub fn can_send(line_status: u8) -> (r: bool)
    ensures
        r == (line_status & TRANSMIT_EMPTY != 0),
{
    (line_status & TRANSMIT_EMPTY) != 0
}

/// What ends a line.
pub open spec fn line_end() -> Seq<u8> {
    seq![13u8, 10u8]
}

/// Sends bytes.
pub fn write_bytes(line: &mut Vec<u8>, bytes: &[u8])
    ensures
        final(line)@ == old(line)@ + bytes@,
{
    let mut i: usize = 0;
    while i < bytes.len()
        invariant
            i <= bytes@.len(),
            line@ == old(line)@ + bytes@.take(i as int),
        decreases bytes@.len() - i,
    {
        line.push(bytes[i]);
        assert(bytes@.take(i + 1) =~= bytes@.take(i as int).push(bytes@[i as int]));
        i += 1;
    }
    assert(bytes@.take(i as int) =~= bytes@);
}

/// Sends a text.
pub fn write_str(line: &mut Vec<u8>, s: &str)
    ensures
        final(line)@ == old(line)@ + s.spec_bytes(),
{
    write_bytes(line, s.as_bytes());
}

/// Sends a text and the end of the line.
pub fn write_line(line: &mut Vec<u8>, s: &str)
    ensures
        final(line)@ == old(line)@ + s.spec_bytes() + line_end(),
{
    write_str(line, s);
    line.push(13);
    line.push(10);
    assert(line@ =~= old(line)@ + s.spec_bytes() + line_end());
}

/// Sends a text behind a prefix, and the end of the line.
pub fn write_prefixed_line(line: &mut Vec<u8>, prefix: &str, msg: &str)
    ensures
        final(line)@ == old(line)@ + prefix.spec_bytes() + msg.spec_bytes() + line_end(),
{
    write_str(line, prefix);
    write_line(line, msg);
}

/// Collects what is to be sent.
#[derive(Debug)]
pub struct SerialWriter {
    pub sent: Vec<u8>,
}

impl SerialWriter {
    pub fn new() -> (w: SerialWriter)
        ensures
            w.sent@ == Seq::<u8>::empty(),
    {
        SerialWriter { sent: Vec::new() }
    }

    /// Sends a text.
    pub fn write_str(&mut self, s: &str)
        ensures
            final(self).sent@ == old(self).sent@ + s.spec_bytes(),
    {
        write_str(&mut self.sent, s);
    }
}

/// The registers of the port, as far as they matter here.
pub struct Uart {
    /// The line control: its highest bit opens the divisor in place of the first two registers.
    pub line_control: u8,
    pub divisor_low: u8,
    pub divisor_high: u8,
    pub interrupts: u8,
    pub queues: u8,
    pub modem: u8,
}

/// What a write to a port does to the registers.
pub open spec fn uart_write(u: Uart, w: PortWrite) -> Uart {
    let opened = u.line_control >= 0x80;
    if w.port == COM1 {
        if opened {
            Uart { divisor_low: w.value, ..u }
        } else {
            u
        }
    } else if w.port == COM1 + 1 {
        if opened {
            Uart { divisor_high: w.value, ..u }
        } else {
            Uart { interrupts: w.value, ..u }
        }
    } else if w.port == COM1 + 2 {
        Uart { queues: w.value, ..u }
    } else if w.port == COM1 + 3 {
        Uart { line_control: w.value, ..u }
    } else if w.port == COM1 + 4 {
        Uart { modem: w.value, ..u }
    } else {
        u
    }
}

/// What several writes do, one after the other.
pub open spec fn uart_writes(u: Uart, writes: Seq<PortWrite>) -> Uart
    decreases writes.len(),
{
    if writes.len() == 0 {
        u
    } else {
        uart_write(uart_writes(u, writes.drop_last()), writes.last())
    }
}

/// Whatever the port was set to, as long as data was behind its first register, after the
/// writes that set it up it runs at its full rate, with eight bits, no parity and one stop bit,
/// without interrupts, and data is behind its first register again.
pub proof fn law_setup_sets_the_port(u: Uart)
    requires
        u.line_control < 0x80,
    ensures
        ({
            let v = uart_writes(u, setup());
            &&& v.divisor_low == 1 && v.divisor_high == 0
            &&& v.line_control == 3
            &&& v.interrupts == 0
            &&& v.queues == 0xc7
            &&& v.modem == 0x0b
        }),
{
    let s = setup();
    reveal_with_fuel(uart_writes, 8);
    let s6 = s.drop_last();
    let s5 = s6.drop_last();
    let s4 = s5.drop_last();
    let s3 = s4.drop_last();
    let s2 = s3.drop_last();
    let s1 = s2.drop_last();
    assert(s1.drop_last().len() == 0);
    assert(s1.last() == s[0] && s2.last() == s[1] && s3.last() == s[2] && s4.last() == s[3]
        && s5.last() == s[4] && s6.last() == s[5] && s.last() == s[6]);
}

} // verus!
