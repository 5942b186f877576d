use vstd::prelude::*;
use crate::config::ConflictPolicyEnum;

verus! {

/// Addition that stops at the top of the counter range.
pub open spec fn sat_add(a: int, b: int) -> int {
    if a + b > u64::MAX {
        u64::MAX as int
    } else {
        a + b
    }
}

/// Saturating add on counters.
pub fn counter_add(a: u64, b: u64) -> (r: u64)
    ensures
        r as int == sat_add(a as int, b as int),
{
    if a > u64::MAX - b {
        u64::MAX
    } else {
        a + b
    }
}

/// Aggregated pipeline counters: rows and bytes moved, batches applied,
/// conflicts absorbed and errors observed. Counters saturate rather than
/// wrap.
pub struct Monitor {
    pub rows: u64,
    pub bytes: u64,
    pub batches: u64,
    pub conflicts: u64,
    pub errors: u64,
}

impl Monitor {
    /// A monitor with all counters at zero.
    pub fn new() -> (r: Monitor)
        ensures
            r.rows == 0,
            r.bytes == 0,
            r.batches == 0,
            r.conflicts == 0,
            r.errors == 0,
    {
        Monitor { rows: 0, bytes: 0, batches: 0, conflicts: 0, errors: 0 }
    }

    /// Accounts one applied batch: its row and byte counts, and one more
    /// batch.
    pub fn record_batch(&mut self, rows: u64, bytes: u64)
        ensures
            final(self).rows as int == sat_add(old(self).rows as int, rows as int),
            final(self).bytes as int == sat_add(old(self).bytes as int, bytes as int),
            final(self).batches as int == sat_add(old(self).batches as int, 1),
            final(self).conflicts == old(self).conflicts,
            final(self).errors == old(self).errors,
    {
        self.rows = counter_add(self.rows, rows);
        self.bytes = counter_add(self.bytes, bytes);
        self.batches = counter_add(self.batches, 1);
    }

    /// Accounts one absorbed conflict.
    pub fn record_conflict(&mut self)
        ensures
            final(self).conflicts as int == sat_add(old(self).conflicts as int, 1),
            final(self).rows == old(self).rows,
            final(self).bytes == old(self).bytes,
            final(self).batches == old(self).batches,
            final(self).errors == old(self).errors,
    {
        self.conflicts = counter_add(self.conflicts, 1);
    }

    /// Accounts one error that unwound to the orchestrator.
    pub fn record_error(&mut self)
        ensures
            final(self).errors as int == sat_add(old(self).errors as int, 1),
            final(self).rows == old(self).rows,
            final(self).bytes == old(self).bytes,
            final(self).batches == old(self).batches,
            final(self).conflicts == old(self).conflicts,
    {
        self.errors = counter_add(self.errors, 1);
    }
}

/// Settles a sinker conflict by policy. Under `Ignore` the sub-batch
/// counts as applied, the conflict is counted, and the pipeline goes on
/// (the result is true); under `Interrupt` the monitor counts an error
/// and the pipeline halts (the result is false).
pub fn settle_conflict(policy: &ConflictPolicyEnum, monitor: &mut Monitor) -> (go_on: bool)
    ensures
        go_on == (*policy == ConflictPolicyEnum::Ignore),
        go_on ==> final(monitor).conflicts as int == sat_add(old(monitor).conflicts as int, 1)
            && final(monitor).errors == old(monitor).errors,
        !go_on ==> final(monitor).errors as int == sat_add(old(monitor).errors as int, 1)
            && final(monitor).conflicts == old(monitor).conflicts,
        final(monitor).rows == old(monitor).rows,
        final(monitor).bytes == old(monitor).bytes,
        final(monitor).batches == old(monitor).batches,
{
    match policy {
        ConflictPolicyEnum::Ignore => {
            monitor.record_conflict();
            true
        },
        ConflictPolicyEnum::Interrupt => {
            monitor.record_error();
            false
        },
    }
}

}
