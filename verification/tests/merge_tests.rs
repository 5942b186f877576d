use dt_core::config::ParallelType;
use dt_core::event::{Col, ColValue, Event, Row, RowOp};
use dt_core::merge::{KeyedChange, MemSink, SinkOp, clone_row, keyed_change_of, merge_group, merge_rows};
use dt_core::parallel::PartitionConfig;
use dt_core::position::Position;

fn row(cols: &[(&str, i64)]) -> Row {
    Row {
        cols: cols
            .iter()
            .map(|(n, v)| Col { name: n.to_string(), value: ColValue::Int(*v) })
            .collect(),
    }
}

fn upsert(key: &[u8], cols: &[(&str, i64)]) -> KeyedChange {
    KeyedChange { key: key.to_vec(), op: RowOp::Insert, row: row(cols) }
}

fn update(key: &[u8], cols: &[(&str, i64)]) -> KeyedChange {
    KeyedChange { key: key.to_vec(), op: RowOp::Update, row: row(cols) }
}

fn delete(key: &[u8]) -> KeyedChange {
    KeyedChange { key: key.to_vec(), op: RowOp::Delete, row: Row { cols: vec![] } }
}

fn col_of(r: &Row, name: &str) -> Option<i64> {
    r.cols.iter().rev().find(|c| c.name == name).map(|c| match c.value {
        ColValue::Int(v) => v,
        _ => panic!("integer column expected"),
    })
}

#[test]
fn merge_collapses_a_group_to_one_write_per_key() {
    // pk=1: insert v=1, update v=2, update v=3 -> one upsert with v=3
    // pk=2: insert v=5 then delete -> one delete
    let group = vec![
        upsert(b"1", &[("id", 1), ("v", 1)]),
        update(b"1", &[("id", 1), ("v", 2)]),
        upsert(b"2", &[("id", 2), ("v", 5)]),
        delete(b"2"),
        update(b"1", &[("id", 1), ("v", 3)]),
    ];
    let ops = merge_group(group);
    assert_eq!(ops.len(), 2);
    // keys come out in first-touch order
    assert_eq!(ops[0].0, b"1".to_vec());
    assert_eq!(ops[1].0, b"2".to_vec());
    match &ops[0].1 {
        SinkOp::Upsert(r) => {
            assert_eq!(col_of(r, "v"), Some(3));
            assert_eq!(col_of(r, "id"), Some(1));
        },
        SinkOp::Delete => panic!("pk=1 must end as an upsert"),
    }
    assert!(matches!(ops[1].1, SinkOp::Delete));

    // final sink row count = 1
    let mut sink = MemSink::new();
    sink.apply(ops);
    assert_eq!(sink.row_count(), 1);
    let kept = sink.lookup(&b"1".to_vec()).expect("pk=1 stays");
    assert_eq!(col_of(kept, "v"), Some(3));
    assert!(sink.lookup(&b"2".to_vec()).is_none());
}

#[test]
fn upsert_columns_are_the_union_of_touched_columns() {
    let base = row(&[("id", 1), ("a", 10), ("b", 20)]);
    let over = row(&[("id", 1), ("b", 21), ("c", 30)]);
    let merged = merge_rows(&base, &over);
    assert_eq!(col_of(&merged, "a"), Some(10));
    assert_eq!(col_of(&merged, "b"), Some(21));
    assert_eq!(col_of(&merged, "c"), Some(30));
    assert_eq!(col_of(&merged, "id"), Some(1));
}

#[test]
fn merged_batch_applies_idempotently() {
    let group = vec![
        upsert(b"1", &[("id", 1), ("v", 1)]),
        update(b"1", &[("id", 1), ("v", 2)]),
        upsert(b"2", &[("id", 2), ("v", 5)]),
        delete(b"2"),
        upsert(b"3", &[("id", 3), ("v", 7)]),
    ];
    let ops = merge_group(group);

    // build the same ops twice, apply once and then again
    let again: Vec<(Vec<u8>, SinkOp)> = ops
        .iter()
        .map(|(k, op)| {
            (
                k.clone(),
                match op {
                    SinkOp::Delete => SinkOp::Delete,
                    SinkOp::Upsert(r) => SinkOp::Upsert(clone_row(r)),
                },
            )
        })
        .collect();

    let mut sink = MemSink::new();
    sink.apply(ops);
    let count_once = sink.row_count();
    let v_once = sink.lookup(&b"1".to_vec()).and_then(|r| col_of(r, "v"));

    sink.apply(again);
    assert_eq!(sink.row_count(), count_once);
    assert_eq!(sink.lookup(&b"1".to_vec()).and_then(|r| col_of(r, "v")), v_once);
    assert!(sink.lookup(&b"2".to_vec()).is_none());
    assert_eq!(sink.lookup(&b"3".to_vec()).and_then(|r| col_of(r, "v")), Some(7));
}

#[test]
fn serial_insert_update_delete_leaves_table_empty() {
    // one key: insert, update, delete -> single delete, empty sink
    let group = vec![
        upsert(b"1", &[("id", 1), ("v", 10)]),
        update(b"1", &[("id", 1), ("v", 20)]),
        delete(b"1"),
    ];
    let ops = merge_group(group);
    assert_eq!(ops.len(), 1);
    assert!(matches!(ops[0].1, SinkOp::Delete));
    let mut sink = MemSink::new();
    sink.apply(ops);
    assert_eq!(sink.row_count(), 0);
}

#[test]
fn row_changes_key_and_merge_end_to_end() {
    let cfg = PartitionConfig {
        strategy: ParallelType::RdbMerge,
        workers: 2,
        pk_cols: vec!["id".to_string()],
    };
    let mk = |op: RowOp, pk: i64, v: i64, lsn: u64| Event::RowChange {
        schema: "db1".to_string(),
        table: "t".to_string(),
        op,
        before: None,
        after: Some(row(&[("id", pk), ("v", v)])),
        commit_ts: 1,
        position: Position::PgLsn { lsn },
    };
    let events = vec![
        mk(RowOp::Insert, 1, 1, 1),
        mk(RowOp::Update, 1, 2, 2),
        mk(RowOp::Insert, 2, 5, 3),
        mk(RowOp::Delete, 2, 5, 4),
        mk(RowOp::Update, 1, 3, 5),
    ];
    let group: Vec<KeyedChange> =
        events.into_iter().filter_map(|e| keyed_change_of(&cfg, e)).collect();
    assert_eq!(group.len(), 5);
    // equal primary keys got equal key bytes
    assert_eq!(group[0].key, group[1].key);
    assert_eq!(group[2].key, group[3].key);
    assert_ne!(group[0].key, group[2].key);
    let ops = merge_group(group);
    assert_eq!(ops.len(), 2);
    let mut sink = MemSink::new();
    sink.apply(ops);
    assert_eq!(sink.row_count(), 1);
}

#[test]
fn insert_after_delete_starts_fresh() {
    let group = vec![
        upsert(b"1", &[("id", 1), ("a", 1), ("b", 2)]),
        delete(b"1"),
        upsert(b"1", &[("id", 1), ("c", 3)]),
    ];
    let ops = merge_group(group);
    assert_eq!(ops.len(), 1);
    match &ops[0].1 {
        SinkOp::Upsert(r) => {
            // the delete cleared the earlier columns
            assert_eq!(col_of(r, "a"), None);
            assert_eq!(col_of(r, "c"), Some(3));
        },
        SinkOp::Delete => panic!("must end as an upsert"),
    }
}
