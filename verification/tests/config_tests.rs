use dt_core::config::{ConflictPolicyEnum, DbType, ExtractType, ParallelType, SinkType};

#[test]
fn db_type_names_round_trip() {
    let names = ["mysql", "pg", "kafka", "mongo", "redis", "starrocks", "foxlake"];
    for name in names {
        let d = DbType::parse(name).expect("known name");
        assert_eq!(d.as_str(), name);
    }
    assert_eq!(DbType::parse("mysql"), Some(DbType::Mysql));
    assert_eq!(DbType::parse("oracle"), None);
    assert_eq!(DbType::parse(""), None);
}

#[test]
fn db_type_default_is_mysql() {
    assert_eq!(DbType::default(), DbType::Mysql);
}

#[test]
fn extract_type_names_round_trip() {
    let names = [
        "snapshot",
        "cdc",
        "check_log",
        "struct",
        "snapshot_file",
        "scan",
        "reshard",
        "foxlake_s3",
    ];
    for name in names {
        let e = ExtractType::parse(name).expect("known name");
        assert_eq!(e.as_str(), name);
    }
    assert_eq!(ExtractType::parse("cdc"), Some(ExtractType::Cdc));
    assert_eq!(ExtractType::parse("dump"), None);
}

#[test]
fn sink_type_names_round_trip() {
    let names = ["dummy", "write", "check", "struct", "statistic", "sql", "push", "merge"];
    for name in names {
        let t = SinkType::parse(name).expect("known name");
        assert_eq!(t.as_str(), name);
    }
    assert_eq!(SinkType::parse("merge"), Some(SinkType::Merge));
    assert_eq!(SinkType::parse("writeback"), None);
}

#[test]
fn parallel_type_names_round_trip() {
    let names = [
        "serial",
        "snapshot",
        "rdb_partition",
        "rdb_merge",
        "rdb_check",
        "table",
        "mongo",
        "redis",
    ];
    for name in names {
        let p = ParallelType::parse(name).expect("known name");
        assert_eq!(p.as_str(), name);
    }
    assert_eq!(ParallelType::parse("rdb_merge"), Some(ParallelType::RdbMerge));
    assert_eq!(ParallelType::parse("rdb"), None);
}

#[test]
fn conflict_policy_unknown_coerces_to_interrupt() {
    assert_eq!(ConflictPolicyEnum::from_str("ignore"), ConflictPolicyEnum::Ignore);
    assert_eq!(ConflictPolicyEnum::from_str("interrupt"), ConflictPolicyEnum::Interrupt);
    // fail-safe: any unknown policy is the strict one
    assert_eq!(ConflictPolicyEnum::from_str("lenient"), ConflictPolicyEnum::Interrupt);
    assert_eq!(ConflictPolicyEnum::from_str(""), ConflictPolicyEnum::Interrupt);
    assert_eq!(ConflictPolicyEnum::Ignore.as_str(), "ignore");
    assert_eq!(ConflictPolicyEnum::Interrupt.as_str(), "interrupt");
}
