use vstd::prelude::*;
use crate::event::Event;
use crate::strutil::str_eq;
use crate::seqext::{lemma_filter_push, lemma_filter_elements};

verus! {

/// Whether a list of `(schema, table)` pairs holds the given names.
pub open spec fn pair_in_list(list: Seq<(String, String)>, schema: Seq<char>, table: Seq<
    char,
>) -> bool {
    exists|i: int| 0 <= i < list.len() && (#[trigger] list[i]).0@ == schema && list[i].1@ == table
}

/// Per-event admit rules: a `(schema, table)` allow-list that overrides a
/// deny-list, and a list of denied Redis database indexes.
pub struct RowFilter {
    pub allow: Vec<(String, String)>,
    pub deny: Vec<(String, String)>,
    pub deny_dbs: Vec<u32>,
}

/// Whether the filter admits a `(schema, table)` pair: an allow-listed
/// pair always passes, otherwise a deny-listed pair is dropped.
pub open spec fn admits_table(f: RowFilter, schema: Seq<char>, table: Seq<char>) -> bool {
    pair_in_list(f.allow@, schema, table) || !pair_in_list(f.deny@, schema, table)
}

/// Whether the filter admits a Redis database index.
pub open spec fn admits_db(f: RowFilter, db: u32) -> bool {
    !f.deny_dbs@.contains(db)
}

/// Whether the filter admits an event. Heartbeats and checkpoint markers
/// always pass so that liveness and barriers survive filtering; schema
/// changes pass by schema with an empty table name.
pub open spec fn admits_event(f: RowFilter, e: Event) -> bool {
    match e {
        Event::RowChange { schema, table, .. } => admits_table(f, schema@, table@),
        Event::Ddl { schema, .. } => admits_table(f, schema@, Seq::<char>::empty()),
        Event::Heartbeat { .. } => true,
        Event::Redis { db, .. } => admits_db(f, db),
        Event::FileBatch { schema, table, .. } => admits_table(f, schema@, table@),
        Event::CheckpointMarker { .. } => true,
    }
}

impl RowFilter {
    /// A filter that admits everything.
    pub fn admit_all() -> (r: RowFilter)
        ensures
            r.allow@.len() == 0,
            r.deny@.len() == 0,
            r.deny_dbs@.len() == 0,
            forall|e: Event| admits_event(r, e),
    {
        let r = RowFilter { allow: Vec::new(), deny: Vec::new(), deny_dbs: Vec::new() };
        proof {
            assert forall|e: Event| admits_event(r, e) by {
                assert(!pair_in_list(r.deny@, arbitrary(), arbitrary()));
            }
        }
        r
    }

    /// Whether `list` holds the pair `(schema, table)`.
    fn list_holds(list: &Vec<(String, String)>, schema: &str, table: &str) -> (r: bool)
        ensures
            r == pair_in_list(list@, schema@, table@),
    {
        let mut i: usize = 0;
        while i < list.len()
            invariant
                i <= list@.len(),
                forall|j: int|
                    0 <= j < i ==> !((#[trigger] list@[j]).0@ == schema@ && list@[j].1@
                        == table@),
            decreases list@.len() - i,
        {
            let p = &list[i];
            if str_eq(p.0.as_str(), schema) && str_eq(p.1.as_str(), table) {
                return true;
            }
            i += 1;
        }
        false
    }

    /// Whether this filter admits the `(schema, table)` pair.
    pub fn admits_pair(&self, schema: &str, table: &str) -> (r: bool)
        ensures
            r == admits_table(*self, schema@, table@),
    {
        if Self::list_holds(&self.allow, schema, table) {
            true
        } else {
            !Self::list_holds(&self.deny, schema, table)
        }
    }

    /// Whether this filter admits the event.
    pub fn admit_event(&self, e: &Event) -> (r: bool)
        ensures
            r == admits_event(*self, *e),
    {
        match e {
            Event::RowChange { schema, table, .. } => self.admits_pair(
                schema.as_str(),
                table.as_str(),
            ),
            Event::Ddl { schema, .. } => {
                proof {
                    reveal_strlit("");
                    assert(""@ =~= Seq::<char>::empty());
                }
                self.admits_pair(schema.as_str(), "")
            },
            Event::Heartbeat { .. } => true,
            Event::Redis { db, .. } => {
                let mut i: usize = 0;
                let mut denied = false;
                while i < self.deny_dbs.len()
                    invariant
                        i <= self.deny_dbs@.len(),
                        denied == exists|j: int| 0 <= j < i && self.deny_dbs@[j] == db,
                    decreases self.deny_dbs@.len() - i,
                {
                    if self.deny_dbs[i] == *db {
                        denied = true;
                    }
                    i += 1;
                }
                proof {
                    if denied {
                        let j = choose|j: int| 0 <= j < i && self.deny_dbs@[j] == db;
                        assert(self.deny_dbs@.contains(*db));
                    } else {
                        if self.deny_dbs@.contains(*db) {
                            let j = choose|j: int|
                                0 <= j < self.deny_dbs@.len() && self.deny_dbs@[j] == db;
                        }
                    }
                }
                !denied
            },
            Event::FileBatch { schema, table, .. } => self.admits_pair(
                schema.as_str(),
                table.as_str(),
            ),
            Event::CheckpointMarker { .. } => true,
        }
    }

    /// Drops the events this filter refuses, before partitioning, so they
    /// never consume a worker slot. Order is preserved.
    pub fn filter_batch(&self, batch: Vec<Event>) -> (r: Vec<Event>)
        ensures
            r@ == batch@.filter(|e: Event| admits_event(*self, e)),
    {
        let ghost me: RowFilter = *self;
        let ghost pred = |e: Event| admits_event(me, e);
        let ghost orig = batch@;
        let mut rest = batch;
        let mut out: Vec<Event> = Vec::new();
        let ghost mut done: Seq<Event> = Seq::empty();
        proof {
            assert(done + rest@ =~= orig);
            assert(done.filter(pred) =~= out@);
        }
        while rest.len() > 0
            invariant
                me == *self,
                pred == (|e: Event| admits_event(me, e)),
                done + rest@ == orig,
                out@ == done.filter(pred),
            decreases rest@.len(),
        {
            let e = rest.remove(0);
            proof {
                assert(done.push(e) + rest@ =~= orig);
                lemma_filter_push(done, pred, e);
            }
            let keep = self.admit_event(&e);
            if keep {
                out.push(e);
            }
            proof {
                done = done.push(e);
            }
        }
        proof {
            assert(done =~= orig);
            assert(pred =~= (|e: Event| admits_event(*self, e)));
        }
        out
    }
}

/// A refused `(schema, table)` produces no sink write: no event of that
/// pair survives the filter, so none reaches a parallelizer sub-batch or
/// a sinker.
pub proof fn lemma_filtered_table_unreachable(
    f: RowFilter,
    batch: Seq<Event>,
    schema: Seq<char>,
    table: Seq<char>,
    i: int,
)
    requires
        !admits_table(f, schema, table),
        0 <= i < batch.filter(|e: Event| admits_event(f, e)).len(),
    ensures
        !(batch.filter(|e: Event| admits_event(f, e))[i] matches Event::RowChange {
            schema: s,
            table: t,
            ..
        } && s@ == schema && t@ == table),
        !(batch.filter(|e: Event| admits_event(f, e))[i] matches Event::FileBatch {
            schema: s,
            table: t,
            ..
        } && s@ == schema && t@ == table),
{
    lemma_filter_elements(batch, |e: Event| admits_event(f, e), i);
}

}
