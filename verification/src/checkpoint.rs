use vstd::prelude::*;
use crate::config::DbType;
use crate::event::{Event, position_of};
use crate::position::{Position, pos_eq, pos_lt, pos_le, lemma_pos_le_lt_trans, same_source};
use crate::seqext::{lemma_filter_push, lemma_filter_elements};

verus! {

/// Tracks what the sinker pool has acknowledged and what has been
/// committed to the checkpoint store. The committed position only ever
/// advances to the acknowledged high-water mark, at a barrier, so it
/// never passes what was actually applied.
pub struct Checkpointer {
    pub applied_hi: Option<Position>,
    pub committed: Option<Position>,
}

impl Checkpointer {
    /// Well-formedness: whatever is committed has been acknowledged.
    pub open spec fn wf(&self) -> bool {
        match (self.committed, self.applied_hi) {
            (Some(c), Some(h)) => pos_le(c, h),
            (Some(c), None) => false,
            _ => true,
        }
    }

    /// A tracker that has seen nothing.
    pub fn new() -> (r: Checkpointer)
        ensures
            r.wf(),
            r.applied_hi is None,
            r.committed is None,
    {
        Checkpointer { applied_hi: None, committed: None }
    }

    /// Records one acknowledged position: the high-water mark advances to
    /// it when it lies later, and the committed position stays put.
    pub fn record_acked(&mut self, p: &Position)
        requires
            old(self).wf(),
            match old(self).applied_hi {
                Some(h) => same_source(h, *p),
                None => true,
            },
        ensures
            final(self).wf(),
            final(self).committed == old(self).committed,
            match (old(self).applied_hi, final(self).applied_hi) {
                (None, Some(h2)) => pos_eq(h2, *p),
                (Some(h), Some(h2)) => (pos_lt(h, *p) && pos_eq(h2, *p)) || (!pos_lt(h, *p) && h2
                    == h),
                _ => false,
            },
    {
        let advance = match &self.applied_hi {
            Some(h) => h.is_before(p),
            None => true,
        };
        if advance {
            proof {
                match (&self.committed, &self.applied_hi) {
                    (Some(c), Some(h)) => {
                        lemma_pos_le_lt_trans(*c, *h, *p);
                    },
                    _ => {},
                }
            }
            let d = p.duplicate();
            proof {
                match &self.committed {
                    Some(c) => {
                        crate::position::lemma_pos_eq_lt_congr(d, *p, *c);
                    },
                    None => {},
                }
            }
            self.applied_hi = Some(d);
        }
    }

    /// Commits a barrier: the checkpoint advances to the acknowledged
    /// high-water mark, exactly the barrier's own acknowledged position.
    pub fn commit_barrier(&mut self)
        requires
            old(self).wf(),
        ensures
            final(self).wf(),
            final(self).applied_hi == old(self).applied_hi,
            match (old(self).applied_hi, final(self).committed) {
                (Some(h), Some(c)) => pos_eq(c, h),
                (None, c) => c == old(self).committed,
                _ => false,
            },
    {
        match &self.applied_hi {
            Some(h) => {
                let c = h.duplicate();
                self.committed = Some(c);
            },
            None => {},
        }
    }
}

/// Whatever stands committed was acknowledged by the sinker pool first:
/// the committed checkpoint position never passes a position actually
/// applied to the sink.
pub proof fn lemma_committed_behind_applied(cp: Checkpointer, c: Position)
    requires
        cp.wf(),
        cp.committed == Some(c),
    ensures
        cp.applied_hi matches Some(h) && pos_le(c, h),
{
}

/// The record the checkpoint store keeps for a task, overwritten at every
/// barrier.
pub struct CheckpointRecord {
    pub db_type: DbType,
    pub position: Position,
    pub commit_ts: i64,
    pub updated_at: i64,
}

/// Decides which events an extractor resumed from a committed position may
/// hand on: only those strictly past it.
pub struct ResumeFilter {
    pub resume: Option<Position>,
}

/// Whether an event passes the resume filter: one whose position lies
/// strictly later than the resume position, one without a position, or
/// anything when no resume position is set.
pub open spec fn admits_resume(g: ResumeFilter, e: Event) -> bool {
    match g.resume {
        None => true,
        Some(p) => match position_of(e) {
            Some(q) => pos_lt(p, q),
            None => true,
        },
    }
}

impl ResumeFilter {
    /// Whether this filter passes the event on.
    pub fn passes(&self, e: &Event) -> (r: bool)
        ensures
            r == admits_resume(*self, *e),
    {
        match &self.resume {
            None => true,
            Some(p) => match e.position() {
                Some(q) => p.is_before(q),
                None => true,
            },
        }
    }

    /// Drops the events at or before the resume position, keeping order.
    pub fn filter_resumed(&self, batch: Vec<Event>) -> (r: Vec<Event>)
        ensures
            r@ == batch@.filter(|e: Event| admits_resume(*self, e)),
    {
        let ghost me: ResumeFilter = *self;
        let ghost pred = |e: Event| admits_resume(me, e);
        let ghost orig = batch@;
        let mut rest = batch;
        let mut out: Vec<Event> = Vec::new();
        let ghost mut done: Seq<Event> = Seq::empty();
        proof {
            assert(done + rest@ =~= orig);
            assert(done.filter(pred) =~= out@);
        }
        while rest.len() > 0
            invariant
                me == *self,
                pred == (|e: Event| admits_resume(me, e)),
                done + rest@ == orig,
                out@ == done.filter(pred),
            decreases rest@.len(),
        {
            let e = rest.remove(0);
            proof {
                assert(done.push(e) + rest@ =~= orig);
                lemma_filter_push(done, pred, e);
            }
            let keep = self.passes(&e);
            if keep {
                out.push(e);
            }
            proof {
                done = done.push(e);
            }
        }
        proof {
            assert(done =~= orig);
            assert(pred =~= (|e: Event| admits_resume(*self, e)));
        }
        out
    }
}

/// Nothing is skipped on resume: every event past the filter, so every
/// event a sinker can see, carries a position strictly later than the
/// committed position the task resumed from.
pub proof fn lemma_resume_no_skip(g: ResumeFilter, batch: Seq<Event>, p: Position, i: int)
    requires
        g.resume == Some(p),
        0 <= i < batch.filter(|e: Event| admits_resume(g, e)).len(),
    ensures
        match position_of(batch.filter(|e: Event| admits_resume(g, e))[i]) {
            Some(q) => pos_lt(p, q),
            None => true,
        },
{
    lemma_filter_elements(batch, |e: Event| admits_resume(g, e), i);
}

}
