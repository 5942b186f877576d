use dt_core::checkpoint::{CheckpointRecord, Checkpointer, ResumeFilter};
use dt_core::config::ConflictPolicyEnum;
use dt_core::event::{Event, Row, RowOp};
use dt_core::monitor::Monitor;
use dt_core::position::{PosOrder, Position};

fn change(lsn: u64) -> Event {
    Event::RowChange {
        schema: "db1".to_string(),
        table: "t".to_string(),
        op: RowOp::Insert,
        before: None,
        after: Some(Row { cols: vec![] }),
        commit_ts: 1,
        position: Position::PgLsn { lsn },
    }
}

#[test]
fn committed_position_is_the_acknowledged_barrier() {
    let mut cp = Checkpointer::new();
    cp.record_acked(&Position::PgLsn { lsn: 10 });
    cp.record_acked(&Position::PgLsn { lsn: 11 });
    // the marker's own position is acknowledged last, then committed
    cp.record_acked(&Position::PgLsn { lsn: 12 });
    cp.commit_barrier();
    let c = cp.committed.clone().expect("a barrier was committed");
    assert_eq!(c.compare(&Position::PgLsn { lsn: 12 }), PosOrder::Equal);
    // the committed position never passes the applied high-water mark
    let h = cp.applied_hi.clone().unwrap();
    assert_ne!(c.compare(&h), PosOrder::Greater);
}

#[test]
fn acks_out_of_order_keep_the_high_water_mark() {
    let mut cp = Checkpointer::new();
    cp.record_acked(&Position::PgLsn { lsn: 20 });
    cp.record_acked(&Position::PgLsn { lsn: 15 });
    cp.commit_barrier();
    let c = cp.committed.clone().unwrap();
    assert_eq!(c.compare(&Position::PgLsn { lsn: 20 }), PosOrder::Equal);
}

#[test]
fn a_committed_barrier_can_fill_the_store_record() {
    let mut cp = Checkpointer::new();
    cp.record_acked(&Position::PgLsn { lsn: 42 });
    cp.commit_barrier();
    let rec = CheckpointRecord {
        db_type: dt_core::config::DbType::Pg,
        position: cp.committed.clone().unwrap(),
        commit_ts: 7,
        updated_at: 1000,
    };
    assert_eq!(rec.position.compare(&Position::PgLsn { lsn: 42 }), PosOrder::Equal);
    assert_eq!(rec.commit_ts, 7);
}

#[test]
fn barrier_before_any_ack_commits_nothing() {
    let mut cp = Checkpointer::new();
    cp.commit_barrier();
    assert!(cp.committed.is_none());
}

#[test]
fn resume_filter_passes_only_events_past_the_committed_position() {
    let rf = ResumeFilter { resume: Some(Position::PgLsn { lsn: 10 }) };
    let batch = vec![change(9), change(10), change(11), change(12)];
    let out = rf.filter_resumed(batch);
    // the first sinked event lies strictly past the resume position
    assert_eq!(out.len(), 2);
    match &out[0] {
        Event::RowChange { position: Position::PgLsn { lsn }, .. } => assert_eq!(*lsn, 11),
        _ => panic!("a row change was expected"),
    }
}

#[test]
fn filter_without_resume_point_passes_everything() {
    let rf = ResumeFilter { resume: None };
    let out = rf.filter_resumed(vec![change(1), change(2)]);
    assert_eq!(out.len(), 2);
}

#[test]
fn ignore_policy_counts_a_conflict_and_goes_on() {
    let mut monitor = Monitor::new();
    let go_on = dt_core::monitor::settle_conflict(&ConflictPolicyEnum::Ignore, &mut monitor);
    assert!(go_on);
    assert_eq!(monitor.conflicts, 1);
    assert_eq!(monitor.errors, 0);
}

#[test]
fn interrupt_policy_halts_the_pipeline() {
    let mut monitor = Monitor::new();
    let go_on = dt_core::monitor::settle_conflict(&ConflictPolicyEnum::Interrupt, &mut monitor);
    assert!(!go_on);
    assert_eq!(monitor.errors, 1);
    assert_eq!(monitor.conflicts, 0);
}

#[test]
fn monitor_counts_batches_rows_and_bytes() {
    let mut m = Monitor::new();
    m.record_batch(3, 300);
    m.record_batch(2, 200);
    assert_eq!(m.rows, 5);
    assert_eq!(m.bytes, 500);
    assert_eq!(m.batches, 2);
    // counters saturate instead of wrapping
    m.record_batch(u64::MAX, 1);
    assert_eq!(m.rows, u64::MAX);
}
