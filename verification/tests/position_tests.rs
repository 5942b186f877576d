use dt_core::position::{PosOrder, Position};

fn binlog(file: &str, offset: u64) -> Position {
    Position::Binlog { file: file.as_bytes().to_vec(), offset }
}

#[test]
fn binlog_orders_by_file_then_offset() {
    let a = binlog("mysql-bin.000001", 500);
    let b = binlog("mysql-bin.000002", 4);
    let c = binlog("mysql-bin.000002", 90);
    assert_eq!(a.compare(&b), PosOrder::Less);
    assert_eq!(b.compare(&c), PosOrder::Less);
    assert_eq!(c.compare(&b), PosOrder::Greater);
    assert_eq!(b.compare(&b.duplicate()), PosOrder::Equal);
    assert!(a.is_before(&c));
    assert!(!c.is_before(&a));
}

#[test]
fn pg_lsn_orders_numerically() {
    let a = Position::PgLsn { lsn: 7 };
    let b = Position::PgLsn { lsn: 8 };
    assert_eq!(a.compare(&b), PosOrder::Less);
    assert_eq!(b.compare(&a), PosOrder::Greater);
    assert_eq!(a.compare(&Position::PgLsn { lsn: 7 }), PosOrder::Equal);
}

#[test]
fn mongo_token_orders_bytewise() {
    let a = Position::MongoToken { token: vec![1, 2] };
    let b = Position::MongoToken { token: vec![1, 2, 0] };
    let c = Position::MongoToken { token: vec![2] };
    assert_eq!(a.compare(&b), PosOrder::Less);
    assert_eq!(b.compare(&c), PosOrder::Less);
    assert_eq!(c.compare(&a), PosOrder::Greater);
}

#[test]
fn redis_orders_by_repl_id_then_offset() {
    let a = Position::RedisOffset { repl_id: b"aaa".to_vec(), offset: 100 };
    let b = Position::RedisOffset { repl_id: b"aaa".to_vec(), offset: 101 };
    let c = Position::RedisOffset { repl_id: b"bbb".to_vec(), offset: 1 };
    assert_eq!(a.compare(&b), PosOrder::Less);
    assert_eq!(b.compare(&c), PosOrder::Less);
}

#[test]
fn positions_of_different_sources_are_incomparable() {
    let a = binlog("mysql-bin.000001", 0);
    let b = Position::PgLsn { lsn: 0 };
    let c = Position::MongoToken { token: vec![] };
    assert_eq!(a.compare(&b), PosOrder::Incomparable);
    assert_eq!(b.compare(&c), PosOrder::Incomparable);
    assert!(!a.is_before(&b));
    assert!(!b.is_before(&a));
}
