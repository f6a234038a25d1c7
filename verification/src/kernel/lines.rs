//! Building the kernel's output, line by line.

use vstd::prelude::*;

use crate::kernel::types::LogLine;

verus! {

pub open spec fn info(msg: &'static str) -> LogLine {
    LogLine::Info { msg }
}

pub open spec fn error(msg: &'static str) -> LogLine {
    LogLine::Error { msg }
}

pub open spec fn value(key: &'static str, value: u64) -> LogLine {
    LogLine::Value { key, value }
}

/// Some lines, if there is cause for them.
pub open spec fn lines_if(cause: bool, lines: Seq<LogLine>) -> Seq<LogLine> {
    if cause {
        lines
    } else {
        Seq::empty()
    }
}

/// The lines for 0, for 1, and so on up to, and without, `n`.
pub open spec fn lines_for(n: int, f: spec_fn(int) -> Seq<LogLine>) -> Seq<LogLine>
    decreases n,
{
    if n <= 0 {
        Seq::empty()
    } else {
        lines_for(n - 1, f) + f(n - 1)
    }
}

/// The line with this key and this number is among the lines.
pub open spec fn tells(lines: Seq<LogLine>, key: &'static str, number: int) -> bool {
    exists|i: int|
        0 <= i < lines.len() && (#[trigger] lines[i]) is Value && lines[i]->key == key
            && lines[i]->value == number
}

/// The words are among the lines.
pub open spec fn reads(lines: Seq<LogLine>, msg: &'static str) -> bool {
    lines.contains(LogLine::Info { msg })
}

/// Something among the lines is bad news.
pub open spec fn warns(lines: Seq<LogLine>) -> bool {
    exists|i: int| 0 <= i < lines.len() && (#[trigger] lines[i]) is Error
}

/// Where there is nothing to say for any number, there is nothing to say.
pub proof fn lemma_no_lines(n: int, f: spec_fn(int) -> Seq<LogLine>)
    requires
        forall|i: int| 0 <= i < n ==> (#[trigger] f(i)).len() == 0,
    ensures
        lines_for(n, f) == Seq::<LogLine>::empty(),
    decreases n,
{
    if n > 0 {
        lemma_no_lines(n - 1, f);
        assert(f(n - 1).len() == 0);
        assert(lines_for(n, f) =~= Seq::empty());
    }
}

pub fn push_info(out: &mut Vec<LogLine>, msg: &'static str)
    ensures
        final(out)@ == old(out)@.push(info(msg)),
{
    out.push(LogLine::Info { msg });
}

pub fn push_error(out: &mut Vec<LogLine>, msg: &'static str)
    ensures
        final(out)@ == old(out)@.push(error(msg)),
{
    out.push(LogLine::Error { msg });
}

pub fn push_value(out: &mut Vec<LogLine>, key: &'static str, value: u64)
    ensures
        final(out)@ == old(out)@.push(self::value(key, value)),
{
    out.push(LogLine::Value { key, value });
}

} // verus!
