use vstd::prelude::*;
use crate::strutil::str_eq;

verus! {

/// The database engines a task can connect to.
#[derive(Clone, Copy, PartialEq, Eq, Structural, Debug)]
pub enum DbType {
    Mysql,
    Pg,
    Kafka,
    Mongo,
    Redis,
    StarRocks,
    Foxlake,
}

/// The textual name of each database engine, as it appears in configuration.
pub open spec fn db_type_str(d: DbType) -> Seq<char> {
    match d {
        DbType::Mysql => "mysql"@,
        DbType::Pg => "pg"@,
        DbType::Kafka => "kafka"@,
        DbType::Mongo => "mongo"@,
        DbType::Redis => "redis"@,
        DbType::StarRocks => "starrocks"@,
        DbType::Foxlake => "foxlake"@,
    }
}

impl DbType {
    /// The configuration name of this engine.
    pub fn as_str(&self) -> (r: &'static str)
        ensures
            r@ == db_type_str(*self),
    {
        match self {
            DbType::Mysql => "mysql",
            DbType::Pg => "pg",
            DbType::Kafka => "kafka",
            DbType::Mongo => "mongo",
            DbType::Redis => "redis",
            DbType::StarRocks => "starrocks",
            DbType::Foxlake => "foxlake",
        }
    }

    /// Parses a configuration name; fails exactly on unknown names.
    pub fn parse(s: &str) -> (r: Option<DbType>)
        ensures
            forall|d: DbType| r == Some(d) <==> s@ == db_type_str(d),
    {
        proof {
            reveal_strlit("mysql");
            reveal_strlit("pg");
            reveal_strlit("kafka");
            reveal_strlit("mongo");
            reveal_strlit("redis");
            reveal_strlit("starrocks");
            reveal_strlit("foxlake");
            assert(("mysql"@).len() == 5);
            assert(("pg"@).len() == 2);
            assert(("kafka"@).len() == 5);
            assert(("mongo"@).len() == 5);
            assert(("redis"@).len() == 5);
            assert(("starrocks"@).len() == 9);
            assert(("foxlake"@).len() == 7);
            assert(("mysql"@)[0] == 'm' && ("mysql"@)[1] == 'y');
            assert(("kafka"@)[0] == 'k');
            assert(("mongo"@)[0] == 'm' && ("mongo"@)[1] == 'o');
            assert(("redis"@)[0] == 'r');
        }
        if str_eq(s, "mysql") {
            Some(DbType::Mysql)
        } else if str_eq(s, "pg") {
            Some(DbType::Pg)
        } else if str_eq(s, "kafka") {
            Some(DbType::Kafka)
        } else if str_eq(s, "mongo") {
            Some(DbType::Mongo)
        } else if str_eq(s, "redis") {
            Some(DbType::Redis)
        } else if str_eq(s, "starrocks") {
            Some(DbType::StarRocks)
        } else if str_eq(s, "foxlake") {
            Some(DbType::Foxlake)
        } else {
            None
        }
    }
}

impl Default for DbType {
    /// The default engine is MySQL.
    fn default() -> (r: Self)
        ensures
            r == DbType::Mysql,
    {
        DbType::Mysql
    }
}

/// How the extractor reads the source.
#[derive(Clone, Copy, PartialEq, Eq, Structural, Debug)]
pub enum ExtractType {
    Snapshot,
    Cdc,
    CheckLog,
    Struct,
    SnapshotFile,
    Scan,
    Reshard,
    FoxlakeS3,
}

/// The textual name of each extract mode, as it appears in configuration.
pub open spec fn extract_type_str(e: ExtractType) -> Seq<char> {
    match e {
        ExtractType::Snapshot => "snapshot"@,
        ExtractType::Cdc => "cdc"@,
        ExtractType::CheckLog => "check_log"@,
        ExtractType::Struct => "struct"@,
        ExtractType::SnapshotFile => "snapshot_file"@,
        ExtractType::Scan => "scan"@,
        ExtractType::Reshard => "reshard"@,
        ExtractType::FoxlakeS3 => "foxlake_s3"@,
    }
}

impl ExtractType {
    /// The configuration name of this extract mode.
    pub fn as_str(&self) -> (r: &'static str)
        ensures
            r@ == extract_type_str(*self),
    {
        match self {
            ExtractType::Snapshot => "snapshot",
            ExtractType::Cdc => "cdc",
            ExtractType::CheckLog => "check_log",
            ExtractType::Struct => "struct",
            ExtractType::SnapshotFile => "snapshot_file",
            ExtractType::Scan => "scan",
            ExtractType::Reshard => "reshard",
            ExtractType::FoxlakeS3 => "foxlake_s3",
        }
    }

    /// Parses a configuration name; fails exactly on unknown names.
    pub fn parse(s: &str) -> (r: Option<ExtractType>)
        ensures
            forall|e: ExtractType| r == Some(e) <==> s@ == extract_type_str(e),
    {
        proof {
            reveal_strlit("snapshot");
            reveal_strlit("cdc");
            reveal_strlit("check_log");
            reveal_strlit("struct");
            reveal_strlit("snapshot_file");
            reveal_strlit("scan");
            reveal_strlit("reshard");
            reveal_strlit("foxlake_s3");
            assert(("snapshot"@).len() == 8);
            assert(("cdc"@).len() == 3);
            assert(("check_log"@).len() == 9);
            assert(("struct"@).len() == 6);
            assert(("snapshot_file"@).len() == 13);
            assert(("scan"@).len() == 4);
            assert(("reshard"@).len() == 7);
            assert(("foxlake_s3"@).len() == 10);
        }
        if str_eq(s, "snapshot") {
            Some(ExtractType::Snapshot)
        } else if str_eq(s, "cdc") {
            Some(ExtractType::Cdc)
        } else if str_eq(s, "check_log") {
            Some(ExtractType::CheckLog)
        } else if str_eq(s, "struct") {
            Some(ExtractType::Struct)
        } else if str_eq(s, "snapshot_file") {
            Some(ExtractType::SnapshotFile)
        } else if str_eq(s, "scan") {
            Some(ExtractType::Scan)
        } else if str_eq(s, "reshard") {
            Some(ExtractType::Reshard)
        } else if str_eq(s, "foxlake_s3") {
            Some(ExtractType::FoxlakeS3)
        } else {
            None
        }
    }
}

/// What the sinker does with a sub-batch.
#[derive(Clone, Copy, PartialEq, Eq, Structural, Debug)]
pub enum SinkType {
    Dummy,
    Write,
    Check,
    Struct,
    Statistic,
    Sql,
    Push,
    Merge,
}

/// The textual name of each sink mode, as it appears in configuration.
pub open spec fn sink_type_str(t: SinkType) -> Seq<char> {
    match t {
        SinkType::Dummy => "dummy"@,
        SinkType::Write => "write"@,
        SinkType::Check => "check"@,
        SinkType::Struct => "struct"@,
        SinkType::Statistic => "statistic"@,
        SinkType::Sql => "sql"@,
        SinkType::Push => "push"@,
        SinkType::Merge => "merge"@,
    }
}

impl SinkType {
    /// The configuration name of this sink mode.
    pub fn as_str(&self) -> (r: &'static str)
        ensures
            r@ == sink_type_str(*self),
    {
        match self {
            SinkType::Dummy => "dummy",
            SinkType::Write => "write",
            SinkType::Check => "check",
            SinkType::Struct => "struct",
            SinkType::Statistic => "statistic",
            SinkType::Sql => "sql",
            SinkType::Push => "push",
            SinkType::Merge => "merge",
        }
    }

    /// Parses a configuration name; fails exactly on unknown names.
    pub fn parse(s: &str) -> (r: Option<SinkType>)
        ensures
            forall|t: SinkType| r == Some(t) <==> s@ == sink_type_str(t),
    {
        proof {
            reveal_strlit("dummy");
            reveal_strlit("write");
            reveal_strlit("check");
            reveal_strlit("struct");
            reveal_strlit("statistic");
            reveal_strlit("sql");
            reveal_strlit("push");
            reveal_strlit("merge");
            assert(("dummy"@).len() == 5);
            assert(("write"@).len() == 5);
            assert(("check"@).len() == 5);
            assert(("struct"@).len() == 6);
            assert(("statistic"@).len() == 9);
            assert(("sql"@).len() == 3);
            assert(("push"@).len() == 4);
            assert(("merge"@).len() == 5);
            assert(("dummy"@)[0] == 'd');
            assert(("write"@)[0] == 'w');
            assert(("check"@)[0] == 'c');
            assert(("merge"@)[0] == 'm');
        }
        if str_eq(s, "dummy") {
            Some(SinkType::Dummy)
        } else if str_eq(s, "write") {
            Some(SinkType::Write)
        } else if str_eq(s, "check") {
            Some(SinkType::Check)
        } else if str_eq(s, "struct") {
            Some(SinkType::Struct)
        } else if str_eq(s, "statistic") {
            Some(SinkType::Statistic)
        } else if str_eq(s, "sql") {
            Some(SinkType::Sql)
        } else if str_eq(s, "push") {
            Some(SinkType::Push)
        } else if str_eq(s, "merge") {
            Some(SinkType::Merge)
        } else {
            None
        }
    }
}

/// How a batch of events is split over the sinker workers.
#[derive(Clone, Copy, PartialEq, Eq, Structural, Debug)]
pub enum ParallelType {
    Serial,
    Snapshot,
    RdbPartition,
    RdbMerge,
    RdbCheck,
    Table,
    Mongo,
    Redis,
}

/// The textual name of each parallel strategy, as it appears in configuration.
pub open spec fn parallel_type_str(p: ParallelType) -> Seq<char> {
    match p {
        ParallelType::Serial => "serial"@,
        ParallelType::Snapshot => "snapshot"@,
        ParallelType::RdbPartition => "rdb_partition"@,
        ParallelType::RdbMerge => "rdb_merge"@,
        ParallelType::RdbCheck => "rdb_check"@,
        ParallelType::Table => "table"@,
        ParallelType::Mongo => "mongo"@,
        ParallelType::Redis => "redis"@,
    }
}

impl ParallelType {
    /// The configuration name of this strategy.
    pub fn as_str(&self) -> (r: &'static str)
        ensures
            r@ == parallel_type_str(*self),
    {
        match self {
            ParallelType::Serial => "serial",
            ParallelType::Snapshot => "snapshot",
            ParallelType::RdbPartition => "rdb_partition",
            ParallelType::RdbMerge => "rdb_merge",
            ParallelType::RdbCheck => "rdb_check",
            ParallelType::Table => "table",
            ParallelType::Mongo => "mongo",
            ParallelType::Redis => "redis",
        }
    }

    /// Parses a configuration name; fails exactly on unknown names.
    pub fn parse(s: &str) -> (r: Option<ParallelType>)
        ensures
            forall|p: ParallelType| r == Some(p) <==> s@ == parallel_type_str(p),
    {
        proof {
            reveal_strlit("serial");
            reveal_strlit("snapshot");
            reveal_strlit("rdb_partition");
            reveal_strlit("rdb_merge");
            reveal_strlit("rdb_check");
            reveal_strlit("table");
            reveal_strlit("mongo");
            reveal_strlit("redis");
            assert(("serial"@).len() == 6);
            assert(("snapshot"@).len() == 8);
            assert(("rdb_partition"@).len() == 13);
            assert(("rdb_merge"@).len() == 9);
            assert(("rdb_check"@).len() == 9);
            assert(("table"@).len() == 5);
            assert(("mongo"@).len() == 5);
            assert(("redis"@).len() == 5);
            assert(("rdb_merge"@)[4] == 'm');
            assert(("rdb_check"@)[4] == 'c');
            assert(("table"@)[0] == 't');
            assert(("mongo"@)[0] == 'm');
            assert(("redis"@)[0] == 'r');
        }
        if str_eq(s, "serial") {
            Some(ParallelType::Serial)
        } else if str_eq(s, "snapshot") {
            Some(ParallelType::Snapshot)
        } else if str_eq(s, "rdb_partition") {
            Some(ParallelType::RdbPartition)
        } else if str_eq(s, "rdb_merge") {
            Some(ParallelType::RdbMerge)
        } else if str_eq(s, "rdb_check") {
            Some(ParallelType::RdbCheck)
        } else if str_eq(s, "table") {
            Some(ParallelType::Table)
        } else if str_eq(s, "mongo") {
            Some(ParallelType::Mongo)
        } else if str_eq(s, "redis") {
            Some(ParallelType::Redis)
        } else {
            None
        }
    }
}

/// How a sinker conflict is handled.
#[derive(Clone, Copy, PartialEq, Eq, Structural, Debug)]
pub enum ConflictPolicyEnum {
    Ignore,
    Interrupt,
}

/// The textual name of each conflict policy, as it appears in configuration.
pub open spec fn conflict_policy_str(p: ConflictPolicyEnum) -> Seq<char> {
    match p {
        ConflictPolicyEnum::Ignore => "ignore"@,
        ConflictPolicyEnum::Interrupt => "interrupt"@,
    }
}

impl ConflictPolicyEnum {
    /// The configuration name of this policy.
    pub fn as_str(&self) -> (r: &'static str)
        ensures
            r@ == conflict_policy_str(*self),
    {
        match self {
            ConflictPolicyEnum::Ignore => "ignore",
            ConflictPolicyEnum::Interrupt => "interrupt",
        }
    }

    /// Parses a policy name. Any name other than `ignore` coerces to
    /// `Interrupt`: an unknown policy fails safe to the strict behaviour.
    pub fn from_str(s: &str) -> (r: ConflictPolicyEnum)
        ensures
            r == (if s@ == "ignore"@ {
                ConflictPolicyEnum::Ignore
            } else {
                ConflictPolicyEnum::Interrupt
            }),
    {
        if str_eq(s, "ignore") {
            ConflictPolicyEnum::Ignore
        } else {
            ConflictPolicyEnum::Interrupt
        }
    }
}

}
