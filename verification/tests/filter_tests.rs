use dt_core::event::{Event, Row, RowOp};
use dt_core::filter::RowFilter;
use dt_core::position::Position;

fn change(schema: &str, table: &str, lsn: u64) -> Event {
    Event::RowChange {
        schema: schema.to_string(),
        table: table.to_string(),
        op: RowOp::Insert,
        before: None,
        after: Some(Row { cols: vec![] }),
        commit_ts: 1,
        position: Position::PgLsn { lsn },
    }
}

fn is_change_of(e: &Event, schema: &str, table: &str) -> bool {
    matches!(e, Event::RowChange { schema: s, table: t, .. } if s == schema && t == table)
}

#[test]
fn denied_table_produces_no_events() {
    let f = RowFilter {
        allow: vec![],
        deny: vec![("db1".to_string(), "secret".to_string())],
        deny_dbs: vec![],
    };
    let batch = vec![
        change("db1", "secret", 1),
        change("db1", "open", 2),
        change("db1", "secret", 3),
    ];
    let out = f.filter_batch(batch);
    assert_eq!(out.len(), 1);
    assert!(out.iter().all(|e| !is_change_of(e, "db1", "secret")));
    assert!(is_change_of(&out[0], "db1", "open"));
}

#[test]
fn allow_list_overrides_deny_list() {
    let f = RowFilter {
        allow: vec![("db1".to_string(), "t".to_string())],
        deny: vec![("db1".to_string(), "t".to_string())],
        deny_dbs: vec![],
    };
    assert!(f.admits_pair("db1", "t"));
    let out = f.filter_batch(vec![change("db1", "t", 1)]);
    assert_eq!(out.len(), 1);
}

#[test]
fn heartbeats_and_markers_always_pass() {
    let f = RowFilter {
        allow: vec![],
        deny: vec![("db1".to_string(), "t".to_string())],
        deny_dbs: vec![0, 1, 2, 3],
    };
    let batch = vec![
        Event::Heartbeat { position: Position::PgLsn { lsn: 1 }, wall_clock: 5 },
        change("db1", "t", 2),
        Event::CheckpointMarker { position: Position::PgLsn { lsn: 3 } },
    ];
    let out = f.filter_batch(batch);
    assert_eq!(out.len(), 2);
    assert!(matches!(out[0], Event::Heartbeat { .. }));
    assert!(matches!(out[1], Event::CheckpointMarker { .. }));
}

#[test]
fn a_fresh_filter_admits_everything() {
    let f = RowFilter::admit_all();
    let out = f.filter_batch(vec![change("any", "thing", 1), change("x", "y", 2)]);
    assert_eq!(out.len(), 2);
}

#[test]
fn redis_events_filter_by_db_index() {
    let f = RowFilter { allow: vec![], deny: vec![], deny_dbs: vec![2] };
    let keep = Event::Redis {
        db: 1,
        cmd: "SET".to_string(),
        args: vec!["k".to_string(), "v".to_string()],
        position: Position::RedisOffset { repl_id: b"r".to_vec(), offset: 1 },
    };
    let drop = Event::Redis {
        db: 2,
        cmd: "SET".to_string(),
        args: vec!["k".to_string(), "v".to_string()],
        position: Position::RedisOffset { repl_id: b"r".to_vec(), offset: 2 },
    };
    let out = f.filter_batch(vec![keep, drop]);
    assert_eq!(out.len(), 1);
    assert!(matches!(&out[0], Event::Redis { db: 1, .. }));
}
