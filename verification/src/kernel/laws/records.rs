//! The event log keeps the most recent events.

use vstd::prelude::*;

use crate::kernel::model::{keep_last, KernelView};
use crate::kernel::types::{LogEvent, EVENT_LOG_CAP};

verus! {

impl KernelView {
    /// Records several events, the first one first.
    pub open spec fn log_all(self, evs: Seq<LogEvent>) -> KernelView
        decreases evs.len(),
    {
        if evs.len() == 0 {
            self
        } else {
            self.log_all(evs.drop_last()).log(evs.last())
        }
    }
}

/// However many events are recorded, the log holds the most recent ones of all of them, in
/// order, and nothing else changes.
pub proof fn law_log_keeps_the_most_recent(m: KernelView, evs: Seq<LogEvent>)
    requires
        m.events.len() <= EVENT_LOG_CAP,
    ensures
        m.log_all(evs) == (KernelView {
            events: keep_last(m.events + evs, EVENT_LOG_CAP as int),
            ..m
        }),
    decreases evs.len(),
{
    if evs.len() == 0 {
        assert(m.events + evs =~= m.events);
    } else {
        let t = evs.drop_last();
        law_log_keeps_the_most_recent(m, t);
        let all = m.events + evs;
        let before = m.events + t;
        assert(all =~= before.push(evs.last()));
        assert(keep_last(keep_last(before, 256).push(evs.last()), 256) =~= keep_last(all, 256));
    }
}

} // verus!
