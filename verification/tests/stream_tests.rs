use dt_core::event::{Event, Row, RowOp};
use dt_core::position::Position;
use dt_core::stream::StreamValidator;

fn row_change(pk: u64, ts: i64, lsn: u64) -> Event {
    Event::RowChange {
        schema: "db1".to_string(),
        table: "t".to_string(),
        op: RowOp::Insert,
        before: None,
        after: Some(Row { cols: vec![] }),
        commit_ts: ts,
        position: Position::PgLsn { lsn: lsn + pk * 0 },
    }
}

#[test]
fn validator_accepts_increasing_stream() {
    let mut v = StreamValidator::new();
    assert!(v.accept(&row_change(1, 10, 100)));
    assert!(v.accept(&row_change(2, 10, 101)));
    assert!(v.accept(&row_change(3, 11, 105)));
    assert!(v.accept(&Event::Heartbeat { position: Position::PgLsn { lsn: 106 }, wall_clock: 1 }));
    assert!(v.accept(&Event::CheckpointMarker { position: Position::PgLsn { lsn: 107 } }));
}

#[test]
fn validator_rejects_position_regression() {
    let mut v = StreamValidator::new();
    assert!(v.accept(&row_change(1, 10, 100)));
    // same position: not strictly increasing
    assert!(!v.accept(&row_change(2, 11, 100)));
    // earlier position
    assert!(!v.accept(&row_change(2, 11, 99)));
    // the stream can still go on past the rejected events
    assert!(v.accept(&row_change(2, 11, 101)));
}

#[test]
fn validator_rejects_commit_ts_regression() {
    let mut v = StreamValidator::new();
    assert!(v.accept(&row_change(1, 10, 100)));
    assert!(!v.accept(&row_change(2, 9, 101)));
    // equal timestamps are allowed: non-decreasing, not strict
    assert!(v.accept(&row_change(2, 10, 101)));
}

#[test]
fn validator_lets_file_batches_pass_between_positions() {
    let mut v = StreamValidator::new();
    assert!(v.accept(&row_change(1, 10, 100)));
    assert!(v.accept(&Event::FileBatch {
        schema: "db1".to_string(),
        table: "t".to_string(),
        uri: "part-0.dml".to_string(),
        row_count: 5,
        byte_size: 1000,
        insert_only: true,
    }));
    assert!(v.accept(&row_change(2, 10, 101)));
}
