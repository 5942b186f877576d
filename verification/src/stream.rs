use vstd::prelude::*;
use crate::event::{Event, position_of, commit_ts_of};
use crate::position::{Position, pos_eq, pos_lt, pos_le, lemma_pos_eq_refl, lemma_pos_eq_lt_congr,
    lemma_pos_le_lt_trans};

verus! {

/// The position of the last positioned event of a stream.
pub open spec fn last_position(s: Seq<Event>) -> Option<Position>
    decreases s.len(),
{
    if s.len() == 0 {
        None
    } else {
        match position_of(s.last()) {
            Some(p) => Some(p),
            None => last_position(s.drop_last()),
        }
    }
}

/// The commit timestamp of the last timestamped event of a stream.
pub open spec fn last_commit_ts(s: Seq<Event>) -> Option<int>
    decreases s.len(),
{
    if s.len() == 0 {
        None
    } else {
        match commit_ts_of(s.last()) {
            Some(t) => Some(t),
            None => last_commit_ts(s.drop_last()),
        }
    }
}

/// Whether an event may extend a stream: its position lies strictly after
/// every position seen, and its commit timestamp does not go back.
pub open spec fn step_ok(lp: Option<Position>, lt: Option<int>, e: Event) -> bool {
    (match (lp, position_of(e)) {
        (Some(a), Some(b)) => pos_lt(a, b),
        _ => true,
    }) && (match (lt, commit_ts_of(e)) {
        (Some(a), Some(b)) => a <= b,
        _ => true,
    })
}

/// A well-formed extractor output: every event extends the stream.
pub open spec fn stream_wf(s: Seq<Event>) -> bool
    decreases s.len(),
{
    s.len() == 0 || (stream_wf(s.drop_last()) && step_ok(
        last_position(s.drop_last()),
        last_commit_ts(s.drop_last()),
        s.last(),
    ))
}

/// In a well-formed stream, every position lies no later than the last one.
pub proof fn lemma_stream_pos_bounded(s: Seq<Event>, i: int, p: Position)
    requires
        stream_wf(s),
        0 <= i < s.len(),
        position_of(s[i]) == Some(p),
    ensures
        last_position(s) matches Some(q) && pos_le(p, q),
    decreases s.len(),
{
    if i == s.len() - 1 {
        lemma_pos_eq_refl(p);
    } else {
        assert(s.drop_last()[i] == s[i]);
        lemma_stream_pos_bounded(s.drop_last(), i, p);
        let q0 = last_position(s.drop_last())->Some_0;
        match position_of(s.last()) {
            Some(q) => {
                lemma_pos_le_lt_trans(p, q0, q);
            },
            None => {},
        }
    }
}

/// In a well-formed stream, every commit timestamp lies no later than the
/// last one.
pub proof fn lemma_stream_ts_bounded(s: Seq<Event>, i: int, t: int)
    requires
        stream_wf(s),
        0 <= i < s.len(),
        commit_ts_of(s[i]) == Some(t),
    ensures
        last_commit_ts(s) matches Some(u) && t <= u,
    decreases s.len(),
{
    if i < s.len() - 1 {
        assert(s.drop_last()[i] == s[i]);
        lemma_stream_ts_bounded(s.drop_last(), i, t);
    }
}

/// In a well-formed extractor output, positions are strictly increasing:
/// an earlier event's position lies strictly before a later one's.
pub proof fn lemma_stream_positions_increase(s: Seq<Event>, i: int, j: int, p: Position,
    q: Position)
    requires
        stream_wf(s),
        0 <= i < j < s.len(),
        position_of(s[i]) == Some(p),
        position_of(s[j]) == Some(q),
    ensures
        pos_lt(p, q),
    decreases s.len(),
{
    if j == s.len() - 1 {
        assert(s.drop_last()[i] == s[i]);
        lemma_stream_pos_bounded(s.drop_last(), i, p);
        let q0 = last_position(s.drop_last())->Some_0;
        lemma_pos_le_lt_trans(p, q0, q);
    } else {
        assert(s.drop_last()[i] == s[i]);
        assert(s.drop_last()[j] == s[j]);
        lemma_stream_positions_increase(s.drop_last(), i, j, p, q);
    }
}

/// In a well-formed extractor output, commit timestamps never decrease.
pub proof fn lemma_stream_ts_nondecreasing(s: Seq<Event>, i: int, j: int, t: int, u: int)
    requires
        stream_wf(s),
        0 <= i < j < s.len(),
        commit_ts_of(s[i]) == Some(t),
        commit_ts_of(s[j]) == Some(u),
    ensures
        t <= u,
    decreases s.len(),
{
    if j == s.len() - 1 {
        assert(s.drop_last()[i] == s[i]);
        lemma_stream_ts_bounded(s.drop_last(), i, t);
    } else {
        assert(s.drop_last()[i] == s[i]);
        assert(s.drop_last()[j] == s[j]);
        lemma_stream_ts_nondecreasing(s.drop_last(), i, j, t, u);
    }
}

/// Whether two optional positions stand for the same cursor.
pub open spec fn opt_pos_eq(a: Option<Position>, b: Option<Position>) -> bool {
    match (a, b) {
        (Some(x), Some(y)) => pos_eq(x, y),
        (None, None) => true,
        _ => false,
    }
}

/// Enforces the extractor contract on a stream as it is produced: an
/// event that would break strict position order or send the commit
/// timestamp back is rejected, so the accepted history is always a
/// well-formed extractor output.
pub struct StreamValidator {
    pub last_pos: Option<Position>,
    pub last_ts: Option<i64>,
    pub history: Ghost<Seq<Event>>,
}

impl StreamValidator {
    /// Well-formedness: the running cursor matches the accepted history,
    /// which is itself well-formed.
    pub open spec fn wf(&self) -> bool {
        stream_wf(self.history@) && opt_pos_eq(self.last_pos, last_position(self.history@))
            && (match (self.last_ts, last_commit_ts(self.history@)) {
            (Some(a), Some(b)) => a as int == b,
            (None, None) => true,
            _ => false,
        })
    }

    /// A validator that has seen nothing.
    pub fn new() -> (r: StreamValidator)
        ensures
            r.wf(),
            r.history@ == Seq::<Event>::empty(),
    {
        StreamValidator { last_pos: None, last_ts: None, history: Ghost(Seq::empty()) }
    }

    /// Accepts or rejects the next event. On acceptance the event joins
    /// the history, which stays a well-formed extractor output; a
    /// rejected event changes nothing.
    pub fn accept(&mut self, e: &Event) -> (ok: bool)
        requires
            old(self).wf(),
        ensures
            final(self).wf(),
            ok == step_ok(last_position(old(self).history@), last_commit_ts(old(self).history@), *e),
            ok ==> final(self).history@ == old(self).history@.push(*e),
            !ok ==> *final(self) == *old(self),
    {
        let pos_ok = match (&self.last_pos, e.position()) {
            (Some(lp), Some(p)) => {
                proof {
                    lemma_pos_eq_lt_congr(
                        *lp,
                        last_position(self.history@)->Some_0,
                        *p,
                    );
                }
                lp.is_before(p)
            },
            _ => true,
        };
        let ts_ok = match (self.last_ts, e.commit_ts()) {
            (Some(lt), Some(t)) => lt <= t,
            _ => true,
        };
        if pos_ok && ts_ok {
            proof {
                assert(step_ok(
                    last_position(self.history@),
                    last_commit_ts(self.history@),
                    *e,
                ));
            }
            match e.position() {
                Some(p) => {
                    self.last_pos = Some(p.duplicate());
                },
                None => {},
            }
            match e.commit_ts() {
                Some(t) => {
                    self.last_ts = Some(t);
                },
                None => {},
            }
            proof {
                let h0 = self.history@;
                self.history@ = self.history@.push(*e);
                assert(self.history@.drop_last() =~= h0);
                assert(self.history@.last() == *e);
            }
            true
        } else {
            false
        }
    }
}

}
