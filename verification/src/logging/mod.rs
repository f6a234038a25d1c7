//! Output for people: each line goes to the screen and to the serial line.

use vstd::prelude::*;
use vstd::string::StringSliceAdditionalSpecFns;

use volatile::Volatile;

use crate::kernel::types::LogLine;
use crate::logging::numbers::{decimal, law_decimal_reads_back, u64_to_decimal};
use crate::logging::serial::{line_end, PortWrite, SerialPort};
use crate::logging::vga::{writer_ok, wrote, Writer, NEW_LINE};

pub mod numbers;
pub mod serial;
pub mod vga;

verus! {

/// The state of the output. Before `init` there is no writer, and the screen stays as it
/// is.
#[derive(Clone, Copy, Debug, PartialEq, Eq)]
pub struct Logger {
    pub vga_enabled: bool,
    pub writer: Option<Writer>,
    pub serial: SerialPort,
}

impl Logger {
    pub open spec fn wf(self) -> bool {
        writer_ok(self.writer)
    }

    /// Output that was not set up.
    pub fn new() -> (log: Logger)
        ensures
            log.wf(),
            log == (Logger {
                vga_enabled: true,
                writer: None,
                serial: SerialPort { initialized: false },
            }),
    {
        Logger { vga_enabled: true, writer: None, serial: SerialPort::new() }
    }
}

/// Sets the output up: writing starts at the last row, and the serial line gets the port
/// writes that are given back.
pub fn init(log: &mut Logger) -> (writes: Vec<PortWrite>)
    ensures
        final(log).wf(),
        *final(log) == (Logger {
            vga_enabled: old(log).vga_enabled,
            writer: Some(Writer { col: 0, color_code: vga::TEXT_COLOR }),
            serial: SerialPort { initialized: true },
        }),
        writes@ == (if old(log).serial.initialized {
            Seq::empty()
        } else {
            serial::setup()
        }),
{
    log.writer = Some(Writer::new());
    log.serial.init()
}

/// Notes whether the screen is to be used.
pub fn set_vga_enabled(log: &mut Logger, enabled: bool)
    ensures
        *final(log) == (Logger { vga_enabled: enabled, ..*old(log) }),
{
    log.vga_enabled = enabled;
}

/// Whether the screen is to be used.
pub fn is_vga_enabled(log: &Logger) -> (r: bool)
    ensures
        r == log.vga_enabled,
{
    log.vga_enabled
}

/// A line of text is written: what is on the screen afterwards, and what was sent.
pub open spec fn line_written(
    before: Logger,
    cells_before: [[Volatile<u16>; 80]; 25],
    sent_before: Seq<u8>,
    after: Logger,
    cells_after: [[Volatile<u16>; 80]; 25],
    sent_after: Seq<u8>,
    line: Seq<u8>,
) -> bool {
    &&& after.wf()
    &&& after.vga_enabled == before.vga_enabled
    &&& after.serial == before.serial
    &&& sent_after == sent_before + line + line_end()
    &&& wrote(before.writer, cells_before, after.writer, cells_after, line + seq![NEW_LINE])
}

/// The text of a line that informs.
pub open spec fn info_text(msg: Seq<u8>) -> Seq<u8> {
    "[INFO] ".spec_bytes() + msg
}

/// The text of a line that reports an error.
pub open spec fn error_text(msg: Seq<u8>) -> Seq<u8> {
    "[ERROR] ".spec_bytes() + msg
}

/// The text of a line with a value: the name, if there is one, and the number.
pub open spec fn value_text(key: Seq<u8>, value: u64) -> Seq<u8> {
    if key.len() == 0 {
        "[INFO] ".spec_bytes() + decimal(value as nat)
    } else {
        "[INFO] ".spec_bytes() + key + " = ".spec_bytes() + decimal(value as nat)
    }
}

/// The text of a line of kernel output.
pub open spec fn log_line_text(line: LogLine) -> Seq<u8> {
    match line {
        LogLine::Info { msg } => info_text(msg.spec_bytes()),
        LogLine::Error { msg } => error_text(msg.spec_bytes()),
        LogLine::Value { key, value } => value_text(key.spec_bytes(), value),
    }
}

/// Writes a line that informs.
pub fn info(
    log: &mut Logger,
    cells: &mut [[Volatile<u16>; 80]; 25],
    sent: &mut Vec<u8>,
    msg: &str,
)
    requires
        old(log).wf(),
    ensures
        line_written(
            *old(log),
            *old(cells),
            old(sent)@,
            *final(log),
            *final(cells),
            final(sent)@,
            info_text(msg.spec_bytes()),
        ),
{
    vga::write_prefixed_line(&mut log.writer, cells, "[INFO] ", msg);
    serial::write_prefixed_line(sent, "[INFO] ", msg);
    assert("[INFO] ".spec_bytes() + (msg.spec_bytes() + seq![NEW_LINE]) =~= info_text(
        msg.spec_bytes(),
    ) + seq![NEW_LINE]);
    assert(sent@ =~= old(sent)@ + info_text(msg.spec_bytes()) + line_end());
}

/// Writes a line that reports an error.
pub fn error(
    log: &mut Logger,
    cells: &mut [[Volatile<u16>; 80]; 25],
    sent: &mut Vec<u8>,
    msg: &str,
)
    requires
        old(log).wf(),
    ensures
        line_written(
            *old(log),
            *old(cells),
            old(sent)@,
            *final(log),
            *final(cells),
            final(sent)@,
            error_text(msg.spec_bytes()),
        ),
{
    vga::write_prefixed_line(&mut log.writer, cells, "[ERROR] ", msg);
    serial::write_prefixed_line(sent, "[ERROR] ", msg);
    assert("[ERROR] ".spec_bytes() + (msg.spec_bytes() + seq![NEW_LINE]) =~= error_text(
        msg.spec_bytes(),
    ) + seq![NEW_LINE]);
    assert(sent@ =~= old(sent)@ + error_text(msg.spec_bytes()) + line_end());
}

/// Writes a line with a value.
pub fn info_kv(
    log: &mut Logger,
    cells: &mut [[Volatile<u16>; 80]; 25],
    sent: &mut Vec<u8>,
    key: &str,
    value: u64,
)
    requires
        old(log).wf(),
    ensures
        line_written(
            *old(log),
            *old(cells),
            old(sent)@,
            *final(log),
            *final(cells),
            final(sent)@,
            value_text(key.spec_bytes(), value),
        ),
{
    let digits = u64_to_decimal(value);
    let mut line: Vec<u8> = Vec::new();
    serial::write_str(&mut line, "[INFO] ");
    let name = key.as_bytes();
    if name.len() > 0 {
        serial::write_bytes(&mut line, name);
        serial::write_str(&mut line, " = ");
    }
    serial::write_bytes(&mut line, digits.as_slice());
    assert(line@ =~= value_text(key.spec_bytes(), value));
    serial::write_bytes(sent, line.as_slice());
    sent.push(13);
    sent.push(10);
    assert(sent@ =~= old(sent)@ + line@ + line_end());
    line.push(NEW_LINE);
    assert(line@ =~= value_text(key.spec_bytes(), value) + seq![NEW_LINE]);
    vga::write_bytes(&mut log.writer, cells, line.as_slice());
}

/// Writes a line with a value.
pub fn info_u64(
    log: &mut Logger,
    cells: &mut [[Volatile<u16>; 80]; 25],
    sent: &mut Vec<u8>,
    label: &str,
    value: u64,
)
    requires
        old(log).wf(),
    ensures
        line_written(
            *old(log),
            *old(cells),
            old(sent)@,
            *final(log),
            *final(cells),
            final(sent)@,
            value_text(label.spec_bytes(), value),
        ),
{
    info_kv(log, cells, sent, label, value);
}

/// Writes a line of kernel output.
pub fn log_line(
    log: &mut Logger,
    cells: &mut [[Volatile<u16>; 80]; 25],
    sent: &mut Vec<u8>,
    line: &LogLine,
)
    requires
        old(log).wf(),
    ensures
        line_written(
            *old(log),
            *old(cells),
            old(sent)@,
            *final(log),
            *final(cells),
            final(sent)@,
            log_line_text(*line),
        ),
{
    match *line {
        LogLine::Info { msg } => info(log, cells, sent, msg),
        LogLine::Error { msg } => error(log, cells, sent, msg),
        LogLine::Value { key, value } => info_u64(log, cells, sent, key, value),
    }
}

/// What a line says can be read off it: two lines of the same kind look the same only if they
/// say the same.
pub proof fn law_lines_can_be_told_apart(a: Seq<u8>, b: Seq<u8>, v: u64, w: u64)
    ensures
        info_text(a) == info_text(b) ==> a == b,
        error_text(a) == error_text(b) ==> a == b,
        value_text(a, v) == value_text(a, w) ==> v == w,
{
    let i = "[INFO] ".spec_bytes();
    let e = "[ERROR] ".spec_bytes();
    if info_text(a) == info_text(b) {
        assert(a =~= info_text(a).skip(i.len() as int));
        assert(b =~= info_text(b).skip(i.len() as int));
    }
    if error_text(a) == error_text(b) {
        assert(a =~= error_text(a).skip(e.len() as int));
        assert(b =~= error_text(b).skip(e.len() as int));
    }
    if value_text(a, v) == value_text(a, w) {
        let k = if a.len() == 0 {
            i.len() as int
        } else {
            (i + a + " = ".spec_bytes()).len() as int
        };
        assert(decimal(v as nat) =~= value_text(a, v).skip(k));
        assert(decimal(w as nat) =~= value_text(a, w).skip(k));
        law_decimal_reads_back(v as nat);
        law_decimal_reads_back(w as nat);
    }
}

/// A line of kernel output is written as what it is, and two lines with the same name but
/// different numbers, or two messages of one kind, do not look the same.
pub proof fn law_kernel_lines_can_be_told_apart(
    key: &'static str,
    v: u64,
    w: u64,
    msg: &'static str,
    other: &'static str,
)
    ensures
        log_line_text(LogLine::Value { key, value: v }) == log_line_text(
            LogLine::Value { key, value: w },
        ) ==> v == w,
        log_line_text(LogLine::Info { msg }) == log_line_text(LogLine::Info { msg: other })
            ==> msg.spec_bytes() == other.spec_bytes(),
        log_line_text(LogLine::Error { msg }) == log_line_text(LogLine::Error { msg: other })
            ==> msg.spec_bytes() == other.spec_bytes(),
{
    law_lines_can_be_told_apart(key.spec_bytes(), key.spec_bytes(), v, w);
    law_lines_can_be_told_apart(msg.spec_bytes(), other.spec_bytes(), v, w);
}

/// What is sent of a line follows what was sent before, and ends with a carriage return and a
/// line feed.
pub proof fn law_sent_line_follows_and_ends(
    before: Logger,
    cells_before: [[Volatile<u16>; 80]; 25],
    sent_before: Seq<u8>,
    after: Logger,
    cells_after: [[Volatile<u16>; 80]; 25],
    sent_after: Seq<u8>,
    line: Seq<u8>,
)
    requires
        line_written(before, cells_before, sent_before, after, cells_after, sent_after, line),
    ensures
        sent_after == sent_before + line + seq![13u8, 10u8],
        after.vga_enabled == before.vga_enabled,
        before.writer is None ==> cells_after == cells_before,
{
}

} // verus!
