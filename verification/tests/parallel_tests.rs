use dt_core::config::ParallelType;
use dt_core::event::{Col, ColValue, Event, Row, RowOp};
use dt_core::parallel::{PartitionConfig, SnapshotDispatcher, partition_batch, split_at_barriers,
    worker_for};
use dt_core::position::Position;

fn pk_row(pk: i64, v: i64) -> Row {
    Row {
        cols: vec![
            Col { name: "id".to_string(), value: ColValue::Int(pk) },
            Col { name: "v".to_string(), value: ColValue::Int(v) },
        ],
    }
}

fn change(table: &str, pk: i64, v: i64, lsn: u64) -> Event {
    Event::RowChange {
        schema: "db1".to_string(),
        table: table.to_string(),
        op: RowOp::Insert,
        before: None,
        after: Some(pk_row(pk, v)),
        commit_ts: 1,
        position: Position::PgLsn { lsn },
    }
}

fn rdb_cfg(workers: usize) -> PartitionConfig {
    PartitionConfig {
        strategy: ParallelType::RdbPartition,
        workers,
        pk_cols: vec!["id".to_string()],
    }
}

#[test]
fn serial_sends_everything_to_worker_zero() {
    let cfg = PartitionConfig { strategy: ParallelType::Serial, workers: 4, pk_cols: vec![] };
    let batch = vec![change("t", 1, 1, 1), change("t", 2, 2, 2), change("u", 3, 3, 3)];
    let subs = partition_batch(&cfg, batch);
    assert_eq!(subs.len(), 4);
    assert_eq!(subs[0].len(), 3);
    assert_eq!(subs[1].len(), 0);
    assert_eq!(subs[2].len(), 0);
    assert_eq!(subs[3].len(), 0);
}

#[test]
fn equal_keys_land_on_one_worker_in_order() {
    let cfg = rdb_cfg(3);
    let batch = vec![
        change("t", 1, 10, 1),
        change("t", 2, 20, 2),
        change("t", 1, 11, 3),
        change("t", 1, 12, 4),
    ];
    let w1 = worker_for(&cfg, &batch[0]);
    let subs = partition_batch(&cfg, batch);
    // all three pk=1 events sit on worker w1, still in extractor order
    let vs: Vec<i64> = subs[w1]
        .iter()
        .filter_map(|e| match e {
            Event::RowChange { after: Some(r), .. } => match r.cols[1].value {
                ColValue::Int(v) => Some(v),
                _ => None,
            },
            _ => None,
        })
        .collect();
    assert!(vs.windows(2).all(|w| w[0] <= w[1]));
    let count_pk1: usize = subs
        .iter()
        .map(|s| {
            s.iter()
                .filter(|e| {
                    matches!(e, Event::RowChange { after: Some(r), .. }
                    if matches!(r.cols[0].value, ColValue::Int(1)))
                })
                .count()
        })
        .sum();
    assert_eq!(count_pk1, 3);
    // and they are all on the same worker
    for (w, s) in subs.iter().enumerate() {
        let n = s
            .iter()
            .filter(|e| {
                matches!(e, Event::RowChange { after: Some(r), .. }
                if matches!(r.cols[0].value, ColValue::Int(1)))
            })
            .count();
        if w == w1 {
            assert_eq!(n, 3);
        } else {
            assert_eq!(n, 0);
        }
    }
}

#[test]
fn table_strategy_pins_each_table_to_one_worker() {
    let cfg = PartitionConfig { strategy: ParallelType::Table, workers: 2, pk_cols: vec![] };
    let batch = vec![
        change("a", 1, 1, 1),
        change("b", 1, 1, 2),
        change("a", 2, 2, 3),
        change("b", 2, 2, 4),
    ];
    let wa = worker_for(&cfg, &batch[0]);
    let wb = worker_for(&cfg, &batch[1]);
    assert_eq!(wa, worker_for(&cfg, &batch[2]));
    assert_eq!(wb, worker_for(&cfg, &batch[3]));
    let subs = partition_batch(&cfg, batch);
    let total: usize = subs.iter().map(|s| s.len()).sum();
    assert_eq!(total, 4);
}

#[test]
fn checkpoint_markers_and_ddl_split_dispatch() {
    let batch = vec![
        change("t", 1, 1, 1),
        change("t", 2, 2, 2),
        Event::CheckpointMarker { position: Position::PgLsn { lsn: 3 } },
        change("t", 3, 3, 4),
        Event::Ddl {
            schema: "db1".to_string(),
            statement: "ALTER TABLE t ADD COLUMN c INT".to_string(),
            commit_ts: 5,
            position: Position::PgLsn { lsn: 5 },
        },
        change("t", 4, 4, 6),
    ];
    let groups = split_at_barriers(batch);
    assert_eq!(groups.len(), 5);
    assert_eq!(groups[0].len(), 2);
    assert!(matches!(groups[1][0], Event::CheckpointMarker { .. }));
    assert_eq!(groups[1].len(), 1);
    assert_eq!(groups[2].len(), 1);
    assert!(matches!(groups[3][0], Event::Ddl { .. }));
    assert_eq!(groups[4].len(), 1);
}

#[test]
fn snapshot_dispatch_round_robins_a_table() {
    let mut d = SnapshotDispatcher::new(3);
    let key = b"db1\0t".to_vec();
    assert_eq!(d.next_worker(key.clone()), 0);
    assert_eq!(d.next_worker(key.clone()), 1);
    assert_eq!(d.next_worker(key.clone()), 2);
    assert_eq!(d.next_worker(key.clone()), 0);
    // another table spreads independently
    assert_eq!(d.next_worker(b"db1\0u".to_vec()), 0);
    assert_eq!(d.next_worker(key), 1);
}
