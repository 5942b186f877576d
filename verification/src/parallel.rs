use vstd::prelude::*;
use vstd::string::StringSliceAdditionalSpecFns;
use crate::config::ParallelType;
use crate::event::{Event, Row, ValModel, pk_bytes, push_pk_bytes, push_str_bytes, hash_of,
    hash_bytes};
use crate::seqext::{lemma_filter_push, lemma_filter_subsumed};
use crate::kv::KvStore;

verus! {

/// What the parallelizer needs to split a batch: the strategy, the number
/// of sinker workers, and the primary-key column names used by the
//// row-keyed strategies.
pub struct PartitionConfig {
    pub strategy: ParallelType,
    pub workers: usize,
    pub pk_cols: Vec<String>,
}

impl PartitionConfig {
    /// Well-formedness: at least one worker.
    pub open spec fn wf(&self) -> bool {
        self.workers >= 1
    }
}

/// The row a change is identified by: the after-image when the source
/// provides one, else the before-image.
pub open spec fn key_row(before: Option<Row>, after: Option<Row>) -> Seq<(Seq<char>, ValModel)> {
    match after {
        Some(r) => r@,
        None => match before {
            Some(r) => r@,
            None => Seq::empty(),
        },
    }
}

/// The key bytes a table strategy pins a table by.
pub open spec fn table_key(schema: Seq<char>, table: Seq<char>) -> Seq<u8> {
    vstd::utf8::encode_utf8(schema) + seq![0u8] + vstd::utf8::encode_utf8(table)
}

/// The partition key of an event under a strategy, when the strategy
/// assigns one. Events without a key (and every event under `Serial`)
/// go to worker zero.
pub open spec fn event_key(cfg: PartitionConfig, e: Event) -> Option<Seq<u8>> {
    match cfg.strategy {
        ParallelType::Serial => None,
        ParallelType::Snapshot => None,
        ParallelType::RdbPartition | ParallelType::RdbMerge | ParallelType::RdbCheck => match e {
            Event::RowChange { before, after, .. } => Some(
                pk_bytes(key_row(before, after), cfg.pk_cols@.map_values(|s: String| s@)),
            ),
            _ => None,
        },
        ParallelType::Table => match e {
            Event::RowChange { schema, table, .. } => Some(table_key(schema@, table@)),
            Event::FileBatch { schema, table, .. } => Some(table_key(schema@, table@)),
            _ => None,
        },
        ParallelType::Mongo => match e {
            Event::RowChange { before, after, .. } => Some(
                pk_bytes(key_row(before, after), seq!["_id"@]),
            ),
            _ => None,
        },
        ParallelType::Redis => match e {
            Event::Redis { args, .. } => if args@.len() > 0 {
                Some(vstd::utf8::encode_utf8(args@[0]@))
            } else {
                None
            },
            _ => None,
        },
    }
}

/// The worker an event is dispatched to: the stable hash of its partition
/// key modulo the worker count, and worker zero for keyless events.
pub open spec fn assigned_worker(cfg: PartitionConfig, e: Event) -> int {
    match event_key(cfg, e) {
        Some(k) => hash_of(k) % (cfg.workers as int),
        None => 0,
    }
}

/// The predicate selecting the events of one worker.
pub open spec fn worker_pred(cfg: PartitionConfig, w: int) -> spec_fn(Event) -> bool {
    |e: Event| assigned_worker(cfg, e) == w
}

/// The predicate selecting the events with one partition key.
pub open spec fn key_pred(cfg: PartitionConfig, k: Seq<u8>) -> spec_fn(Event) -> bool {
    |e: Event| event_key(cfg, e) == Some(k)
}

/// Computes the partition-key bytes of an event, when it has any.
pub fn key_for(cfg: &PartitionConfig, e: &Event) -> (r: Option<Vec<u8>>)
    ensures
        match r {
            Some(v) => event_key(*cfg, *e) == Some(v@),
            None => event_key(*cfg, *e) is None,
        },
{
    match cfg.strategy {
        ParallelType::Serial => None,
        ParallelType::Snapshot => None,
        ParallelType::RdbPartition | ParallelType::RdbMerge | ParallelType::RdbCheck => match e {
            Event::RowChange { before, after, .. } => {
                let empty_row = Row { cols: Vec::new() };
                proof {
                    assert(empty_row@ =~= Seq::<(Seq<char>, ValModel)>::empty());
                }
                let krow: &Row = match after {
                    Some(r) => r,
                    None => match before {
                        Some(r) => r,
                        None => &empty_row,
                    },
                };
                let mut out: Vec<u8> = Vec::new();
                push_pk_bytes(krow, &cfg.pk_cols, &mut out);
                Some(out)
            },
            _ => None,
        },
        ParallelType::Table => match e {
            Event::RowChange { schema, table, .. } => {
                let mut out: Vec<u8> = Vec::new();
                push_str_bytes(schema.as_str(), &mut out);
                out.push(0u8);
                push_str_bytes(table.as_str(), &mut out);
                proof {
                    assert(out@ =~= table_key(schema@, table@));
                }
                Some(out)
            },
            Event::FileBatch { schema, table, .. } => {
                let mut out: Vec<u8> = Vec::new();
                push_str_bytes(schema.as_str(), &mut out);
                out.push(0u8);
                push_str_bytes(table.as_str(), &mut out);
                proof {
                    assert(out@ =~= table_key(schema@, table@));
                }
                Some(out)
            },
            _ => None,
        },
        ParallelType::Mongo => match e {
            Event::RowChange { before, after, .. } => {
                let empty_row = Row { cols: Vec::new() };
                proof {
                    assert(empty_row@ =~= Seq::<(Seq<char>, ValModel)>::empty());
                }
                let krow: &Row = match after {
                    Some(r) => r,
                    None => match before {
                        Some(r) => r,
                        None => &empty_row,
                    },
                };
                let mut id_cols: Vec<String> = Vec::new();
                id_cols.push("_id".to_owned());
                let mut out: Vec<u8> = Vec::new();
                push_pk_bytes(krow, &id_cols, &mut out);
                proof {
                    assert(id_cols@.map_values(|s: String| s@) =~= seq!["_id"@]);
                }
                Some(out)
            },
            _ => None,
        },
        ParallelType::Redis => match e {
            Event::Redis { args, .. } => {
                if args.len() > 0 {
                    let mut out: Vec<u8> = Vec::new();
                    push_str_bytes(args[0].as_str(), &mut out);
                    Some(out)
                } else {
                    None
                }
            },
            _ => None,
        },
    }
}

/// Computes the worker an event is dispatched to.
pub fn worker_for(cfg: &PartitionConfig, e: &Event) -> (r: usize)
    requires
        cfg.wf(),
    ensures
        r as int == assigned_worker(*cfg, *e),
        r < cfg.workers,
{
    match key_for(cfg, e) {
        Some(k) => {
            let h = hash_bytes(&k);
            let w = h % (cfg.workers as u64);
            w as usize
        },
        None => 0,
    }
}

/// Splits one batch into one sub-batch per worker: sub-batch `w` is
/// exactly the events assigned to worker `w`, in batch order. The
/// `Snapshot` strategy dispatches round-robin instead, through
/// `SnapshotDispatcher`.
pub fn partition_batch(cfg: &PartitionConfig, batch: Vec<Event>) -> (r: Vec<Vec<Event>>)
    requires
        cfg.wf(),
        cfg.strategy != ParallelType::Snapshot,
    ensures
        r@.len() == cfg.workers,
        forall|w: int|
            0 <= w < cfg.workers ==> (#[trigger] r@[w])@ == batch@.filter(worker_pred(*cfg, w)),
{
    let ghost me = *cfg;
    let ghost orig = batch@;
    let mut subs: Vec<Vec<Event>> = Vec::new();
    let mut i: usize = 0;
    while i < cfg.workers
        invariant
            i <= cfg.workers,
            subs@.len() == i,
            forall|w: int| 0 <= w < i ==> (#[trigger] subs@[w])@ == Seq::<Event>::empty(),
        decreases cfg.workers - i,
    {
        subs.push(Vec::new());
        i += 1;
    }
    let mut rest = batch;
    let ghost mut done: Seq<Event> = Seq::empty();
    proof {
        assert forall|w: int| 0 <= w < me.workers implies (#[trigger] subs@[w])@ == done.filter(
            worker_pred(me, w),
        ) by {
            assert(done.filter(worker_pred(me, w)) =~= Seq::<Event>::empty());
        }
        assert(done + rest@ =~= orig);
    }
    while rest.len() > 0
        invariant
            me == *cfg,
            me.wf(),
            subs@.len() == me.workers,
            done + rest@ == orig,
            forall|w: int|
                0 <= w < me.workers ==> (#[trigger] subs@[w])@ == done.filter(worker_pred(me, w)),
        decreases rest@.len(),
    {
        let e = rest.remove(0);
        proof {
            assert(done.push(e) + rest@ =~= orig);
        }
        let w = worker_for(cfg, &e);
        let ghost old_subs = subs@;
        let mut sub = subs.remove(w);
        sub.push(e);
        subs.insert(w, sub);
        proof {
            assert(subs@.len() == old_subs.len());
            assert((subs@[w as int])@ =~= old_subs[w as int]@.push(e));
            assert(forall|w2: int|
                0 <= w2 < old_subs.len() && w2 != w ==> subs@[w2] == old_subs[w2]);
            let prev = done;
            done = done.push(e);
            assert forall|w2: int| 0 <= w2 < me.workers implies (#[trigger] subs@[w2])@
                == done.filter(worker_pred(me, w2)) by {
                lemma_filter_push(prev, worker_pred(me, w2), e);
                assert(worker_pred(me, w2)(e) == (assigned_worker(me, e) == w2));
                if w2 == w as int {
                    assert(subs@[w2]@ =~= old_subs[w2]@.push(e));
                } else {
                    assert(subs@[w2] == old_subs[w2]);
                }
            }
        }
    }
    proof {
        assert(done =~= orig);
    }
    subs
}

/// Under any strategy, two events with the same partition key land on the
/// same worker, and that worker's sub-batch lists them in batch order:
/// the sub-batch restricted to one key is exactly the batch restricted to
/// that key.
pub proof fn lemma_equal_key_order_preserved(cfg: PartitionConfig, batch: Seq<Event>, k: Seq<u8>)
    requires
        cfg.wf(),
    ensures
        batch.filter(worker_pred(cfg, hash_of(k) % (cfg.workers as int))).filter(key_pred(cfg, k))
            == batch.filter(key_pred(cfg, k)),
{
    let w = hash_of(k) % (cfg.workers as int);
    assert forall|e: Event| #[trigger] key_pred(cfg, k)(e) implies worker_pred(cfg, w)(e) by {
        assert(event_key(cfg, e) == Some(k));
        assert(assigned_worker(cfg, e) == w);
    }
    lemma_filter_subsumed(batch, key_pred(cfg, k), worker_pred(cfg, w));
}

/// Whether an event is a dispatch barrier: a checkpoint marker flushes
/// all pending sub-batches before the committed position advances, and a
/// schema change drains the workers and runs alone through worker zero.
pub open spec fn is_barrier(e: Event) -> bool {
    e matches Event::CheckpointMarker { .. } || e matches Event::Ddl { .. }
}

/// The events of a sequence of dispatch groups, in order.
pub open spec fn join_groups(gs: Seq<Seq<Event>>) -> Seq<Event>
    decreases gs.len(),
{
    if gs.len() == 0 {
        Seq::empty()
    } else {
        join_groups(gs.drop_last()) + gs.last()
    }
}

/// Whether a dispatch group is sound: either one lone barrier, or any
/// number of ordinary events. No group straddles a barrier.
pub open spec fn group_ok(g: Seq<Event>) -> bool {
    (g.len() == 1 && is_barrier(g[0])) || (forall|i: int| 0 <= i < g.len() ==> !is_barrier(#[trigger] g[i]))
}

/// Splits a batch at its barriers: barriers come out alone, in place, and
/// the groups between them hold the ordinary events, all in batch order.
pub fn split_at_barriers(batch: Vec<Event>) -> (r: Vec<Vec<Event>>)
    ensures
        join_groups(r@.map_values(|g: Vec<Event>| g@)) == batch@,
        forall|i: int| 0 <= i < r@.len() ==> group_ok((#[trigger] r@[i])@),
        forall|i: int| 0 <= i < r@.len() ==> (#[trigger] r@[i])@.len() > 0,
{
    let ghost orig = batch@;
    let mut rest = batch;
    let mut out: Vec<Vec<Event>> = Vec::new();
    let mut cur: Vec<Event> = Vec::new();
    let ghost mut done: Seq<Event> = Seq::empty();
    proof {
        assert(done + rest@ =~= orig);
        assert(join_groups(out@.map_values(|g: Vec<Event>| g@)) + cur@ =~= done);
    }
    while rest.len() > 0
        invariant
            done + rest@ == orig,
            join_groups(out@.map_values(|g: Vec<Event>| g@)) + cur@ == done,
            forall|i: int| 0 <= i < out@.len() ==> group_ok((#[trigger] out@[i])@),
            forall|i: int| 0 <= i < out@.len() ==> (#[trigger] out@[i])@.len() > 0,
            forall|i: int| 0 <= i < cur@.len() ==> !is_barrier(#[trigger] cur@[i]),
        decreases rest@.len(),
    {
        let e = rest.remove(0);
        proof {
            assert(done.push(e) + rest@ =~= orig);
        }
        let barrier = match &e {
            Event::CheckpointMarker { .. } => true,
            Event::Ddl { .. } => true,
            _ => false,
        };
        if barrier {
            if cur.len() > 0 {
                let ghost gs0 = out@.map_values(|g: Vec<Event>| g@);
                let ghost prev_out = out@;
                let full = cur;
                cur = Vec::new();
                out.push(full);
                proof {
                    assert(out@.drop_last() =~= prev_out);
                    assert(out@.map_values(|g: Vec<Event>| g@).drop_last() =~= gs0) by {
                        assert(forall|i: int|
                            0 <= i < prev_out.len() ==> out@[i] == prev_out[i]);
                    }
                    assert(out@.map_values(|g: Vec<Event>| g@).last() == out@.last()@);
                    assert(join_groups(out@.map_values(|g: Vec<Event>| g@)) =~= done);
                }
            }
            let mut lone: Vec<Event> = Vec::new();
            lone.push(e);
            let ghost gs1 = out@.map_values(|g: Vec<Event>| g@);
            out.push(lone);
            proof {
                assert(out@.map_values(|g: Vec<Event>| g@).drop_last() =~= gs1);
                assert(out@.map_values(|g: Vec<Event>| g@).last() == out@.last()@);
                done = done.push(e);
                assert(join_groups(out@.map_values(|g: Vec<Event>| g@)) + cur@ =~= done);
            }
        } else {
            cur.push(e);
            proof {
                done = done.push(e);
                assert(join_groups(out@.map_values(|g: Vec<Event>| g@)) + cur@ =~= done);
            }
        }
    }
    if cur.len() > 0 {
        let ghost gs2 = out@.map_values(|g: Vec<Event>| g@);
        out.push(cur);
        proof {
            assert(out@.map_values(|g: Vec<Event>| g@).drop_last() =~= gs2);
            assert(out@.map_values(|g: Vec<Event>| g@).last() == out@.last()@);
            assert(join_groups(out@.map_values(|g: Vec<Event>| g@)) =~= done);
        }
    }
    proof {
        assert(done =~= orig);
        assert(join_groups(out@.map_values(|g: Vec<Event>| g@)) =~= orig);
    }
    out
}

/// A per-table counter backing the round-robin snapshot dispatch.
pub struct SpreadCounter {
    pub n: u64,
}

impl View for SpreadCounter {
    type V = u64;

    open spec fn view(&self) -> u64 {
        self.n
    }
}

/// Round-robin dispatch for the `Snapshot` strategy: rows of one table
/// spread over all workers in turn. Safe only for append-only loads with
/// no cross-row dependencies, so no order is promised across workers.
pub struct SnapshotDispatcher {
    pub workers: usize,
    pub counters: KvStore<SpreadCounter>,
}

impl SnapshotDispatcher {
    /// Well-formedness: at least one worker, distinct counter keys.
    pub open spec fn wf(&self) -> bool {
        self.workers >= 1 && self.counters.wf()
    }

    /// Creates a dispatcher.
    pub fn new(workers: usize) -> (r: SnapshotDispatcher)
        requires
            workers >= 1,
        ensures
            r.wf(),
            r.workers == workers,
    {
        SnapshotDispatcher { workers, counters: KvStore::new() }
    }

    /// The next worker for a table: its counter value modulo the worker
    /// count; the counter then advances by one (wrapping at the top).
    pub fn next_worker(&mut self, table_key_bytes: Vec<u8>) -> (r: usize)
        requires
            old(self).wf(),
        ensures
            final(self).wf(),
            final(self).workers == old(self).workers,
            r < old(self).workers,
            ({
                let prev = if old(self).counters@.contains_key(table_key_bytes@) {
                    old(self).counters@[table_key_bytes@]
                } else {
                    0u64
                };
                r == prev as int % (old(self).workers as int) && final(self).counters@
                    =~= old(self).counters@.insert(
                    table_key_bytes@,
                    (if prev == u64::MAX {
                        0u64
                    } else {
                        (prev + 1) as u64
                    }),
                )
            }),
    {
        let prev: u64 = match self.counters.get(&table_key_bytes) {
            Some(c) => c.n,
            None => 0,
        };
        let w = (prev % (self.workers as u64)) as usize;
        let next: u64 = if prev == u64::MAX {
            0
        } else {
            prev + 1
        };
        self.counters.set(table_key_bytes, SpreadCounter { n: next });
        w
    }
}

}
