use dt_core::event::Event;
use dt_core::foxlake::{FoxlakeMerger, S3Config};
use dt_core::monitor::Monitor;
use dt_core::position::Position;

fn file_batch(uri: &str, rows: u64, bytes: u64, insert_only: bool) -> Event {
    Event::FileBatch {
        schema: "db1".to_string(),
        table: "t1".to_string(),
        uri: uri.to_string(),
        row_count: rows,
        byte_size: bytes,
        insert_only,
    }
}

fn merger() -> FoxlakeMerger {
    FoxlakeMerger {
        batch_size: 16,
        monitor: Monitor::new(),
        s3_config: S3Config {
            endpoint: "https://s3.local".to_string(),
            root_url: "s3://bucket/stage".to_string(),
            access_key: "AK".to_string(),
            secret_key: "SK".to_string(),
        },
    }
}

#[test]
fn three_files_make_one_directive_with_full_merge() {
    let mut m = merger();
    let data = vec![
        file_batch("part-0.dml", 10, 100, true),
        file_batch("part-1.dml", 20, 200, true),
        file_batch("part-2.dml", 30, 300, false),
    ];
    let d = m.sink_raw(&data).expect("a non-empty batch yields a directive");
    assert_eq!(d.row_count, 60);
    assert_eq!(d.data_size, 600);
    let expected = "MERGE INTO TABLE `db1`.`t1` USING URI = 's3://bucket/stage/' ENDPOINT = 'https://s3.local' CREDENTIALS = (ACCESS_KEY_ID='AK' SECRET_ACCESS_KEY='SK') FILES=('part-0.dml','part-1.dml','part-2.dml') FILE_FORMAT = (TYPE='DML_CHANGE_LOG') INSERT_ONLY = FALSE;";
    assert_eq!(d.sql, expected);
    // the monitor accounts the aggregate row and byte counts
    assert_eq!(m.monitor.rows, 60);
    assert_eq!(m.monitor.bytes, 600);
    assert_eq!(m.monitor.batches, 1);
}

#[test]
fn all_insert_only_members_keep_insert_only() {
    let m = merger();
    let data = vec![file_batch("a.dml", 1, 1, true), file_batch("b.dml", 2, 2, true)];
    let d = m.batch_merge(&data);
    assert!(d.sql.ends_with("INSERT_ONLY = TRUE;"));
    assert!(d.sql.contains("FILES=('a.dml','b.dml')"));
}

#[test]
fn empty_batch_yields_nothing_and_counts_nothing() {
    let mut m = merger();
    let d = m.sink_raw(&vec![]);
    assert!(d.is_none());
    assert_eq!(m.monitor.rows, 0);
    assert_eq!(m.monitor.batches, 0);
}

#[test]
fn non_file_events_do_not_enter_the_directive() {
    let m = merger();
    let data = vec![
        Event::Heartbeat { position: Position::PgLsn { lsn: 1 }, wall_clock: 0 },
        file_batch("only.dml", 7, 70, false),
    ];
    let d = m.batch_merge(&data);
    assert_eq!(d.row_count, 7);
    assert_eq!(d.data_size, 70);
    assert!(d.sql.contains("FILES=('only.dml')"));
    assert!(d.sql.ends_with("INSERT_ONLY = FALSE;"));
}
