use vstd::prelude::*;
use crate::event::{Col, ColValue, Event, Row, RowOp, ValModel, row_lookup, lookup_col};
use crate::kv::{KvStore, assoc_map, distinct_keys};
use crate::seqext::{lemma_filter_push, lemma_map_values_push};

verus! {

/// The write a merged sub-batch carries for one key: an absolute upsert
/// with the final row, or a delete.
#[derive(Debug)]
pub enum SinkOp {
    Upsert(Row),
    Delete,
}

/// The mathematical model of a sink write.
pub enum SinkOpModel {
    Upsert(Seq<(Seq<char>, ValModel)>),
    Delete,
}

impl View for SinkOp {
    type V = SinkOpModel;

    open spec fn view(&self) -> SinkOpModel {
        match self {
            SinkOp::Upsert(r) => SinkOpModel::Upsert(r@),
            SinkOp::Delete => SinkOpModel::Delete,
        }
    }
}

/// One row change keyed for merging: the partition-key bytes, the kind of
/// change, and the after-image (empty for a delete).
#[derive(Debug)]
pub struct KeyedChange {
    pub key: Vec<u8>,
    pub op: RowOp,
    pub row: Row,
}

impl View for KeyedChange {
    type V = (Seq<u8>, RowOp, Seq<(Seq<char>, ValModel)>);

    open spec fn view(&self) -> (Seq<u8>, RowOp, Seq<(Seq<char>, ValModel)>) {
        (self.key@, self.op, self.row@)
    }
}

/// The union of two rows' columns: the overlay wins on a shared name, the
/// base keeps the names the overlay does not touch.
pub open spec fn merged_rows(
    base: Seq<(Seq<char>, ValModel)>,
    over: Seq<(Seq<char>, ValModel)>,
) -> Seq<(Seq<char>, ValModel)> {
    base.filter(|p: (Seq<char>, ValModel)| row_lookup(over, p.0) is None) + over
}

/// Copies a column value; the copy models the same value.
pub fn clone_value(v: &ColValue) -> (r: ColValue)
    ensures
        r@ == v@,
{
    match v {
        ColValue::Null => ColValue::Null,
        ColValue::Int(i) => ColValue::Int(*i),
        ColValue::UInt(u) => ColValue::UInt(*u),
        ColValue::FloatBits(b) => ColValue::FloatBits(*b),
        ColValue::Decimal(s) => ColValue::Decimal(s.clone()),
        ColValue::Str(s) => ColValue::Str(s.clone()),
        ColValue::Bytes(b) => ColValue::Bytes(vstd::slice::slice_to_vec(b.as_slice())),
        ColValue::Timestamp(t) => ColValue::Timestamp(*t),
        ColValue::Json(s) => ColValue::Json(s.clone()),
    }
}

/// Copies a column; the copy models the same column.
pub fn clone_col(c: &Col) -> (r: Col)
    ensures
        r@ == c@,
{
    Col { name: c.name.clone(), value: clone_value(&c.value) }
}

/// Copies a row; the copy models the same row.
pub fn clone_row(r: &Row) -> (out: Row)
    ensures
        out@ == r@,
{
    let mut cols: Vec<Col> = Vec::new();
    let mut i: usize = 0;
    while i < r.cols.len()
        invariant
            i <= r.cols@.len(),
            cols@.map_values(|c: Col| c@) == r@.take(i as int),
        decreases r.cols@.len() - i,
    {
        let c2 = clone_col(&r.cols[i]);
        let ghost oldcols = cols@;
        let ghost c2v = c2@;
        cols.push(c2);
        proof {
            lemma_map_values_push(oldcols, |c: Col| c@, c2);
            assert(r@[i as int] == r.cols@[i as int]@);
            assert(c2v == r@[i as int]);
            assert(r@.take(i as int).push(r@[i as int]) =~= r@.take(i as int + 1));
            assert(cols@.map_values(|c: Col| c@) =~= r@.take(i as int + 1));
        }
        i += 1;
    }
    proof {
        assert(r@.take(r@.len() as int) =~= r@);
        assert(r@.len() == r.cols@.len());
    }
    Row { cols }
}

/// Builds the column union of `base` under `over`.
pub fn merge_rows(base: &Row, over: &Row) -> (r: Row)
    ensures
        r@ == merged_rows(base@, over@),
{
    let ghost overv = over@;
    let ghost pred = |p: (Seq<char>, ValModel)| row_lookup(overv, p.0) is None;
    let mut cols: Vec<Col> = Vec::new();
    let mut i: usize = 0;
    proof {
        assert(cols@.map_values(|c: Col| c@) =~= base@.take(0).filter(pred));
    }
    while i < base.cols.len()
        invariant
            overv == over@,
            pred == (|p: (Seq<char>, ValModel)| row_lookup(overv, p.0) is None),
            i <= base.cols@.len(),
            base@.len() == base.cols@.len(),
            cols@.map_values(|c: Col| c@) == base@.take(i as int).filter(pred),
        decreases base.cols@.len() - i,
    {
        let c = &base.cols[i];
        proof {
            assert(base@.take(i as int + 1).drop_last() =~= base@.take(i as int));
            assert(base@.take(i as int + 1).last() == base@[i as int]);
            assert(base@[i as int] == (c.name@, c.value@));
            lemma_filter_push(base@.take(i as int), pred, base@[i as int]);
        }
        let absent = match lookup_col(over, c.name.as_str()) {
            Some(_) => false,
            None => true,
        };
        if absent {
            let c2 = clone_col(c);
            let ghost oldcols = cols@;
            cols.push(c2);
            proof {
                lemma_map_values_push(oldcols, |c3: Col| c3@, c2);
                assert(cols@.map_values(|c3: Col| c3@) =~= base@.take(i as int).filter(pred).push(
                    (c.name@, c.value@),
                ));
            }
        }
        proof {
            assert(base@.take(i as int).push(base@[i as int]) =~= base@.take(i as int + 1));
        }
        i += 1;
    }
    proof {
        assert(base@.take(base@.len() as int) =~= base@);
    }
    let mut j: usize = 0;
    while j < over.cols.len()
        invariant
            overv == over@,
            pred == (|p: (Seq<char>, ValModel)| row_lookup(overv, p.0) is None),
            j <= over.cols@.len(),
            over@.len() == over.cols@.len(),
            cols@.map_values(|c: Col| c@) == base@.filter(pred) + over@.take(j as int),
        decreases over.cols@.len() - j,
    {
        let c2 = clone_col(&over.cols[j]);
        let ghost oldcols = cols@;
        cols.push(c2);
        proof {
            lemma_map_values_push(oldcols, |c3: Col| c3@, c2);
            assert(over@[j as int] == over.cols@[j as int]@);
            assert(over@.take(j as int).push(over@[j as int]) =~= over@.take(j as int + 1));
            assert(cols@.map_values(|c3: Col| c3@) =~= base@.filter(pred) + over@.take(j as int + 1));
        }
        j += 1;
    }
    proof {
        assert(over@.take(over@.len() as int) =~= over@);
    }
    Row { cols }
}

/// One step of the merge policy for a key `k`: a delete replaces whatever
/// was pending; an insert or update overlays the pending upsert, or starts
/// a fresh one after a delete or on a new key.
pub open spec fn merge_step(
    m: Map<Seq<u8>, SinkOpModel>,
    k: Seq<u8>,
    op: RowOp,
    r: Seq<(Seq<char>, ValModel)>,
) -> Map<Seq<u8>, SinkOpModel> {
    if op == RowOp::Delete {
        m.insert(k, SinkOpModel::Delete)
    } else if m.contains_key(k) && m[k] matches SinkOpModel::Upsert(prev) {
        m.insert(k, SinkOpModel::Upsert(merged_rows(m[k]->Upsert_0, r)))
    } else {
        m.insert(k, SinkOpModel::Upsert(r))
    }
}

/// The merge policy over a group of keyed changes, in order.
pub open spec fn merge_fold(s: Seq<(Seq<u8>, RowOp, Seq<(Seq<char>, ValModel)>)>) -> Map<
    Seq<u8>,
    SinkOpModel,
>
    decreases s.len(),
{
    if s.len() == 0 {
        Map::empty()
    } else {
        merge_step(merge_fold(s.drop_last()), s.last().0, s.last().1, s.last().2)
    }
}

/// Collapses a group of keyed changes to one write per key, as the merge
/// policy dictates: a key whose last change is a delete yields a single
/// delete; otherwise a single upsert carrying the union of the columns the
/// surviving changes touched, later values winning. Keys come out in
/// first-touch order, each exactly once.
pub fn merge_group(changes: Vec<KeyedChange>) -> (r: Vec<(Vec<u8>, SinkOp)>)
    ensures
        distinct_keys(r@),
        assoc_map(r@) == merge_fold(changes@.map_values(|c: KeyedChange| c@)),
{
    let ghost orig = changes@.map_values(|c: KeyedChange| c@);
    let mut store: KvStore<SinkOp> = KvStore::new();
    let mut rest = changes;
    let ghost mut done: Seq<(Seq<u8>, RowOp, Seq<(Seq<char>, ValModel)>)> = Seq::empty();
    proof {
        assert(done + rest@.map_values(|c: KeyedChange| c@) =~= orig);
        assert(store@ =~= merge_fold(done));
    }
    while rest.len() > 0
        invariant
            store.wf(),
            done + rest@.map_values(|c: KeyedChange| c@) == orig,
            store@ == merge_fold(done),
        decreases rest@.len(),
    {
        let ghost rest0 = rest@;
        let kc = rest.remove(0);
        let ghost kcv = kc@;
        proof {
            assert(rest@.map_values(|c: KeyedChange| c@) =~= rest0.map_values(
                |c: KeyedChange| c@,
            ).drop_first()) by {
                assert(forall|i: int| 0 <= i < rest@.len() ==> rest@[i] == rest0[i + 1]);
            }
            assert(done.push(kcv) + rest@.map_values(|c: KeyedChange| c@) =~= orig);
            assert(done.push(kcv).drop_last() =~= done);
            assert(done.push(kcv).last() == kcv);
        }
        let KeyedChange { key, op, row } = kc;
        if op == RowOp::Delete {
            store.set(key, SinkOp::Delete);
        } else {
            let merged: Option<Row> = match store.get(&key) {
                Some(pending) => match pending {
                    SinkOp::Upsert(prev) => Some(merge_rows(prev, &row)),
                    SinkOp::Delete => None,
                },
                None => None,
            };
            match merged {
                Some(m) => {
                    store.set(key, SinkOp::Upsert(m));
                },
                None => {
                    store.set(key, SinkOp::Upsert(row));
                },
            }
        }
        proof {
            done = done.push(kcv);
            assert(store@ =~= merge_fold(done));
        }
    }
    proof {
        assert(rest@.map_values(|c: KeyedChange| c@).len() == 0);
        assert(done =~= orig);
    }
    store.into_entries()
}

/// The keyed form of an event under a partition configuration: row
/// changes carry their partition key, their kind, and their after-image
/// (or an empty row); other events take no part in merging.
pub open spec fn keyed_model(cfg: crate::parallel::PartitionConfig, e: Event) -> Option<
    (Seq<u8>, RowOp, Seq<(Seq<char>, ValModel)>),
> {
    match e {
        Event::RowChange { op, after, .. } => match crate::parallel::event_key(cfg, e) {
            Some(k) => Some(
                (
                    k,
                    op,
                    match after {
                        Some(r) => r@,
                        None => Seq::empty(),
                    },
                ),
            ),
            None => None,
        },
        _ => None,
    }
}

/// Keys one event for merging, when the strategy keys it.
pub fn keyed_change_of(cfg: &crate::parallel::PartitionConfig, e: Event) -> (r: Option<
    KeyedChange,
>)
    ensures
        match r {
            Some(kc) => keyed_model(*cfg, e) == Some(kc@),
            None => keyed_model(*cfg, e) is None,
        },
{
    let key = match crate::parallel::key_for(cfg, &e) {
        Some(k) => k,
        None => {
            return None;
        },
    };
    match e {
        Event::RowChange { op, after, .. } => {
            let row = match after {
                Some(r) => r,
                None => Row { cols: Vec::new() },
            };
            proof {
                if after is None {
                    assert(row@ =~= Seq::<(Seq<char>, ValModel)>::empty());
                }
            }
            Some(KeyedChange { key, op, row })
        },
        _ => None,
    }
}

/// The model of a sink's table state: key bytes to row. A merged write is
/// absolute: an upsert binds the key to its row, a delete unbinds it.
pub open spec fn apply_op(
    st: Map<Seq<u8>, Seq<(Seq<char>, ValModel)>>,
    k: Seq<u8>,
    op: SinkOpModel,
) -> Map<Seq<u8>, Seq<(Seq<char>, ValModel)>> {
    match op {
        SinkOpModel::Upsert(r) => st.insert(k, r),
        SinkOpModel::Delete => st.remove(k),
    }
}

/// Applying a merged sub-batch to a sink state, in order.
pub open spec fn apply_ops(
    st: Map<Seq<u8>, Seq<(Seq<char>, ValModel)>>,
    ops: Seq<(Seq<u8>, SinkOpModel)>,
) -> Map<Seq<u8>, Seq<(Seq<char>, ValModel)>>
    decreases ops.len(),
{
    if ops.len() == 0 {
        st
    } else {
        apply_op(apply_ops(st, ops.drop_last()), ops.last().0, ops.last().1)
    }
}

/// The last write a sub-batch makes to a key, if any.
pub open spec fn find_op(ops: Seq<(Seq<u8>, SinkOpModel)>, k: Seq<u8>) -> Option<SinkOpModel>
    decreases ops.len(),
{
    if ops.len() == 0 {
        None
    } else if ops.last().0 == k {
        Some(ops.last().1)
    } else {
        find_op(ops.drop_last(), k)
    }
}

/// What a key holds after a sub-batch is applied: the sub-batch's last
/// write to it, or what the state held before.
pub proof fn lemma_apply_characterized(
    st: Map<Seq<u8>, Seq<(Seq<char>, ValModel)>>,
    ops: Seq<(Seq<u8>, SinkOpModel)>,
    k: Seq<u8>,
)
    ensures
        match find_op(ops, k) {
            Some(SinkOpModel::Upsert(r)) => apply_ops(st, ops).contains_key(k) && apply_ops(
                st,
                ops,
            )[k] == r,
            Some(SinkOpModel::Delete) => !apply_ops(st, ops).contains_key(k),
            None => apply_ops(st, ops).contains_key(k) == st.contains_key(k) && (st.contains_key(
                k,
            ) ==> apply_ops(st, ops)[k] == st[k]),
        },
    decreases ops.len(),
{
    if ops.len() > 0 {
        lemma_apply_characterized(st, ops.drop_last(), k);
    }
}

/// Applying a merged sub-batch is idempotent: the writes are absolute, so
/// a second application leaves the sink state it produced unchanged.
pub proof fn lemma_merge_apply_idempotent(
    st: Map<Seq<u8>, Seq<(Seq<char>, ValModel)>>,
    ops: Seq<(Seq<u8>, SinkOpModel)>,
)
    ensures
        apply_ops(apply_ops(st, ops), ops) == apply_ops(st, ops),
{
    let once = apply_ops(st, ops);
    let twice = apply_ops(once, ops);
    assert forall|k: Seq<u8>| #[trigger] twice.contains_key(k) == once.contains_key(k) by {
        lemma_apply_characterized(st, ops, k);
        lemma_apply_characterized(once, ops, k);
    }
    assert forall|k: Seq<u8>| once.contains_key(k) implies #[trigger] twice[k] == once[k] by {
        lemma_apply_characterized(st, ops, k);
        lemma_apply_characterized(once, ops, k);
    }
    assert(twice.dom() =~= once.dom());
    assert(twice =~= once);
}

/// An in-memory sink: the model target the merge policy is stated against
/// and tests observe.
pub struct MemSink {
    pub rows: KvStore<Row>,
}

impl MemSink {
    /// Well-formedness: distinct keys.
    pub open spec fn wf(&self) -> bool {
        self.rows.wf()
    }

    /// The modelled table state.
    pub open spec fn state(&self) -> Map<Seq<u8>, Seq<(Seq<char>, ValModel)>> {
        self.rows@
    }

    /// Creates an empty sink.
    pub fn new() -> (r: MemSink)
        ensures
            r.wf(),
            r.state() =~= Map::<Seq<u8>, Seq<(Seq<char>, ValModel)>>::empty(),
    {
        MemSink { rows: KvStore::new() }
    }

    /// Applies a merged sub-batch, write by write, in order.
    pub fn apply(&mut self, ops: Vec<(Vec<u8>, SinkOp)>)
        requires
            old(self).wf(),
        ensures
            final(self).wf(),
            final(self).state() == apply_ops(
                old(self).state(),
                ops@.map_values(|p: (Vec<u8>, SinkOp)| (p.0@, p.1@)),
            ),
    {
        let ghost orig = ops@.map_values(|p: (Vec<u8>, SinkOp)| (p.0@, p.1@));
        let ghost st0 = self.state();
        let mut rest = ops;
        let ghost mut done: Seq<(Seq<u8>, SinkOpModel)> = Seq::empty();
        proof {
            assert(done + rest@.map_values(|p: (Vec<u8>, SinkOp)| (p.0@, p.1@)) =~= orig);
            assert(self.state() =~= apply_ops(st0, done));
        }
        while rest.len() > 0
            invariant
                self.wf(),
                done + rest@.map_values(|p: (Vec<u8>, SinkOp)| (p.0@, p.1@)) == orig,
                self.state() == apply_ops(st0, done),
            decreases rest@.len(),
        {
            let ghost rest0 = rest@;
            let p = rest.remove(0);
            let ghost pv = (p.0@, p.1@);
            proof {
                assert(rest@.map_values(|q: (Vec<u8>, SinkOp)| (q.0@, q.1@)) =~= rest0.map_values(
                    |q: (Vec<u8>, SinkOp)| (q.0@, q.1@),
                ).drop_first()) by {
                    assert(forall|i: int| 0 <= i < rest@.len() ==> rest@[i] == rest0[i + 1]);
                }
                assert(done.push(pv) + rest@.map_values(|q: (Vec<u8>, SinkOp)| (q.0@, q.1@))
                    =~= orig);
                assert(done.push(pv).drop_last() =~= done);
            }
            let (k, op) = p;
            match op {
                SinkOp::Upsert(r) => {
                    self.rows.set(k, r);
                },
                SinkOp::Delete => {
                    self.rows.unbind(&k);
                },
            }
            proof {
                done = done.push(pv);
                assert(self.state() =~= apply_ops(st0, done));
            }
        }
        proof {
            assert(done =~= orig);
        }
    }

    /// How many rows the sink holds.
    pub fn row_count(&self) -> (r: usize)
        ensures
            r == self.rows.spec_entries().len(),
    {
        self.rows.len()
    }

    /// The row a key holds, if any.
    pub fn lookup(&self, k: &Vec<u8>) -> (r: Option<&Row>)
        requires
            self.wf(),
        ensures
            match r {
                Some(row) => self.state().contains_key(k@) && self.state()[k@] == row@,
                None => !self.state().contains_key(k@),
            },
    {
        self.rows.get(k)
    }
}

}
