use vstd::prelude::*;
use vstd::string::StringExecFns;
use crate::event::Event;
use crate::monitor::{Monitor, sat_add};

verus! {

/// Where the staged files live and how the analytical engine reaches them.
pub struct S3Config {
    pub endpoint: String,
    pub root_url: String,
    pub access_key: String,
    pub secret_key: String,
}

/// The rows of all staged-file events of a batch, in order.
pub open spec fn fb_rows(s: Seq<Event>) -> int
    decreases s.len(),
{
    if s.len() == 0 {
        0
    } else {
        fb_rows(s.drop_last()) + (match s.last() {
            Event::FileBatch { row_count, .. } => row_count as int,
            _ => 0,
        })
    }
}

/// The bytes of all staged-file events of a batch, in order.
pub open spec fn fb_bytes(s: Seq<Event>) -> int
    decreases s.len(),
{
    if s.len() == 0 {
        0
    } else {
        fb_bytes(s.drop_last()) + (match s.last() {
            Event::FileBatch { byte_size, .. } => byte_size as int,
            _ => 0,
        })
    }
}

/// Whether every staged-file event of a batch is insert-only: one member
/// that is not forces full merge semantics.
pub open spec fn fb_insert_only(s: Seq<Event>) -> bool
    decreases s.len(),
{
    if s.len() == 0 {
        true
    } else {
        fb_insert_only(s.drop_last()) && (match s.last() {
            Event::FileBatch { insert_only, .. } => insert_only,
            _ => true,
        })
    }
}

/// The staged file names of a batch, in order.
pub open spec fn fb_files(s: Seq<Event>) -> Seq<Seq<char>>
    decreases s.len(),
{
    if s.len() == 0 {
        Seq::empty()
    } else {
        match s.last() {
            Event::FileBatch { uri, .. } => fb_files(s.drop_last()).push(uri@),
            _ => fb_files(s.drop_last()),
        }
    }
}

/// The schema of the last staged-file event, or nothing before one is seen.
pub open spec fn fb_last_schema(s: Seq<Event>) -> Seq<char>
    decreases s.len(),
{
    if s.len() == 0 {
        Seq::empty()
    } else {
        match s.last() {
            Event::FileBatch { schema, .. } => schema@,
            _ => fb_last_schema(s.drop_last()),
        }
    }
}

/// The table of the last staged-file event, or nothing before one is seen.
pub open spec fn fb_last_table(s: Seq<Event>) -> Seq<char>
    decreases s.len(),
{
    if s.len() == 0 {
        Seq::empty()
    } else {
        match s.last() {
            Event::FileBatch { table, .. } => table@,
            _ => fb_last_table(s.drop_last()),
        }
    }
}

/// The staged-file sums never fall below zero.
pub proof fn lemma_fb_nonneg(s: Seq<Event>)
    ensures
        fb_rows(s) >= 0,
        fb_bytes(s) >= 0,
    decreases s.len(),
{
    if s.len() > 0 {
        lemma_fb_nonneg(s.drop_last());
    }
}

/// The staged-file sums over a prefix never pass the sums over the whole
/// batch.
pub proof fn lemma_fb_prefix_bounds(s: Seq<Event>, i: int)
    requires
        0 <= i <= s.len(),
    ensures
        0 <= fb_rows(s.take(i)) <= fb_rows(s),
        0 <= fb_bytes(s.take(i)) <= fb_bytes(s),
    decreases s.len() - i,
{
    lemma_fb_nonneg(s.take(i));
    if i == s.len() {
        assert(s.take(i) =~= s);
    } else {
        lemma_fb_prefix_bounds(s, i + 1);
        assert(s.take(i + 1).drop_last() =~= s.take(i));
        assert(s.take(i + 1).last() == s[i]);
    }
}

/// The file list quoted for the merge directive: each name in single
/// quotes, the names joined by commas.
pub open spec fn quoted_files(files: Seq<Seq<char>>) -> Seq<char>
    decreases files.len(),
{
    if files.len() == 0 {
        Seq::empty()
    } else if files.len() == 1 {
        "'"@ + files[0] + "'"@
    } else {
        quoted_files(files.drop_last()) + ","@ + "'"@ + files.last() + "'"@
    }
}

/// The merge directive sent to the analytical engine, as its statement
/// text: one `MERGE INTO` referencing every staged file of the batch.
pub open spec fn merge_sql(
    schema: Seq<char>,
    table: Seq<char>,
    root_url: Seq<char>,
    endpoint: Seq<char>,
    access_key: Seq<char>,
    secret_key: Seq<char>,
    files: Seq<Seq<char>>,
    insert_only: bool,
) -> Seq<char> {
    "MERGE INTO TABLE `"@ + schema + "`.`"@ + table + "` USING URI = '"@ + root_url + "/' ENDPOINT = '"@
        + endpoint + "' CREDENTIALS = (ACCESS_KEY_ID='"@ + access_key + "' SECRET_ACCESS_KEY='"@
        + secret_key + "') FILES=("@ + quoted_files(files)
        + ") FILE_FORMAT = (TYPE='DML_CHANGE_LOG') INSERT_ONLY = "@ + (if insert_only {
        "TRUE"@
    } else {
        "FALSE"@
    }) + ";"@
}

/// Builds the merge directive statement for the given schema, table and
/// staged files.
pub fn build_merge_sql(
    s3: &S3Config,
    schema: &str,
    table: &str,
    files: &Vec<String>,
    insert_only: bool,
) -> (r: String)
    ensures
        r@ == merge_sql(
            schema@,
            table@,
            s3.root_url@,
            s3.endpoint@,
            s3.access_key@,
            s3.secret_key@,
            files@.map_values(|f: String| f@),
            insert_only,
        ),
{
    let ghost filesv = files@.map_values(|f: String| f@);
    let mut q = String::new();
    q.append("MERGE INTO TABLE `");
    q.append(schema);
    q.append("`.`");
    q.append(table);
    q.append("` USING URI = '");
    q.append(s3.root_url.as_str());
    q.append("/' ENDPOINT = '");
    q.append(s3.endpoint.as_str());
    q.append("' CREDENTIALS = (ACCESS_KEY_ID='");
    q.append(s3.access_key.as_str());
    q.append("' SECRET_ACCESS_KEY='");
    q.append(s3.secret_key.as_str());
    q.append("') FILES=(");
    let ghost head = q@;
    let mut i: usize = 0;
    while i < files.len()
        invariant
            filesv == files@.map_values(|f: String| f@),
            i <= files@.len(),
            q@ == head + quoted_files(filesv.take(i as int)),
        decreases files@.len() - i,
    {
        if i > 0 {
            q.append(",");
        }
        q.append("'");
        q.append(files[i].as_str());
        q.append("'");
        proof {
            assert(filesv.take(i as int + 1).drop_last() =~= filesv.take(i as int));
            assert(filesv.take(i as int + 1).last() == filesv[i as int]);
            assert(filesv[i as int] == files@[i as int]@);
            if i == 0 {
                assert(quoted_files(filesv.take(1)) == "'"@ + filesv[0] + "'"@);
                assert(q@ =~= head + quoted_files(filesv.take(i as int + 1)));
            } else {
                assert(q@ =~= head + quoted_files(filesv.take(i as int + 1)));
            }
        }
        i += 1;
    }
    proof {
        assert(filesv.take(filesv.len() as int) =~= filesv);
    }
    q.append(") FILE_FORMAT = (TYPE='DML_CHANGE_LOG') INSERT_ONLY = ");
    if insert_only {
        q.append("TRUE");
    } else {
        q.append("FALSE");
    }
    q.append(";");
    proof {
        assert(q@ =~= merge_sql(
            schema@,
            table@,
            s3.root_url@,
            s3.endpoint@,
            s3.access_key@,
            s3.secret_key@,
            filesv,
            insert_only,
        ));
    }
    q
}

/// One merge directive, ready to send: the statement and the row and byte
/// totals it accounts for.
pub struct MergeDirective {
    pub sql: String,
    pub row_count: u64,
    pub data_size: u64,
}

/// Batches staged-file events for the analytical sink and shapes them
/// into single merge directives; the statement itself is executed by the
/// embedding program.
pub struct FoxlakeMerger {
    pub batch_size: usize,
    pub monitor: Monitor,
    pub s3_config: S3Config,
}

impl FoxlakeMerger {
    /// Shapes one batch of staged-file events into a single merge
    /// directive: the files of every member, the schema and table of the
    /// last member, insert-only exactly when every member is, and the
    /// summed row and byte counts.
    pub fn batch_merge(&self, data: &Vec<Event>) -> (r: MergeDirective)
        requires
            fb_rows(data@) <= u64::MAX,
            fb_bytes(data@) <= u64::MAX,
        ensures
            r.row_count as int == fb_rows(data@),
            r.data_size as int == fb_bytes(data@),
            r.sql@ == merge_sql(
                fb_last_schema(data@),
                fb_last_table(data@),
                self.s3_config.root_url@,
                self.s3_config.endpoint@,
                self.s3_config.access_key@,
                self.s3_config.secret_key@,
                fb_files(data@),
                fb_insert_only(data@),
            ),
    {
        let mut all_row_count: u64 = 0;
        let mut all_data_size: u64 = 0;
        let mut schema = String::new();
        let mut tb = String::new();
        let mut s3_files: Vec<String> = Vec::new();
        let mut insert_only = true;
        let mut i: usize = 0;
        proof {
            assert(data@.take(0) =~= Seq::<Event>::empty());
        }
        while i < data.len()
            invariant
                i <= data@.len(),
                fb_rows(data@) <= u64::MAX,
                fb_bytes(data@) <= u64::MAX,
                all_row_count as int == fb_rows(data@.take(i as int)),
                all_data_size as int == fb_bytes(data@.take(i as int)),
                insert_only == fb_insert_only(data@.take(i as int)),
                s3_files@.map_values(|f: String| f@) == fb_files(data@.take(i as int)),
                schema@ == fb_last_schema(data@.take(i as int)),
                tb@ == fb_last_table(data@.take(i as int)),
            decreases data@.len() - i,
        {
            proof {
                assert(data@.take(i as int + 1).drop_last() =~= data@.take(i as int));
                assert(data@.take(i as int + 1).last() == data@[i as int]);
                lemma_fb_prefix_bounds(data@, i as int + 1);
            }
            match &data[i] {
                Event::FileBatch { schema: s, table: t, uri, row_count, byte_size, insert_only: io,
                } => {
                    all_row_count = all_row_count + *row_count;
                    all_data_size = all_data_size + *byte_size;
                    schema = s.clone();
                    tb = t.clone();
                    let ghost old_files = s3_files@;
                    s3_files.push(uri.clone());
                    insert_only = insert_only && *io;
                    proof {
                        crate::seqext::lemma_map_values_push(
                            old_files,
                            |f: String| f@,
                            s3_files@[old_files.len() as int],
                        );
                        assert(s3_files@.map_values(|f: String| f@) =~= fb_files(
                            data@.take(i as int + 1),
                        ));
                    }
                },
                _ => {},
            }
            i += 1;
        }
        proof {
            assert(data@.take(data@.len() as int) =~= data@);
        }
        let sql = build_merge_sql(&self.s3_config, schema.as_str(), tb.as_str(), &s3_files,
            insert_only);
        MergeDirective { sql, row_count: all_row_count, data_size: all_data_size }
    }

    /// Takes one batch from the pipeline: an empty batch yields nothing
    /// and leaves the counters alone; otherwise one directive comes back
    /// and the monitor accounts the batch's rows and bytes.
    pub fn sink_raw(&mut self, data: &Vec<Event>) -> (r: Option<MergeDirective>)
        requires
            fb_rows(data@) <= u64::MAX,
            fb_bytes(data@) <= u64::MAX,
        ensures
            final(self).s3_config == old(self).s3_config,
            final(self).batch_size == old(self).batch_size,
            data@.len() == 0 ==> r is None && final(self).monitor == old(self).monitor,
            data@.len() > 0 ==> (match r {
                Some(d) => d.row_count as int == fb_rows(data@) && d.data_size as int == fb_bytes(
                    data@,
                ) && d.sql@ == merge_sql(
                    fb_last_schema(data@),
                    fb_last_table(data@),
                    old(self).s3_config.root_url@,
                    old(self).s3_config.endpoint@,
                    old(self).s3_config.access_key@,
                    old(self).s3_config.secret_key@,
                    fb_files(data@),
                    fb_insert_only(data@),
                ) && final(self).monitor.rows as int == sat_add(
                    old(self).monitor.rows as int,
                    fb_rows(data@),
                ) && final(self).monitor.bytes as int == sat_add(
                    old(self).monitor.bytes as int,
                    fb_bytes(data@),
                ),
                None => false,
            }),
    {
        if data.len() == 0 {
            return None;
        }
        self.batch_sink(data)
    }

    /// Builds the directive for one non-empty batch and accounts it.
    fn batch_sink(&mut self, data: &Vec<Event>) -> (r: Option<MergeDirective>)
        requires
            fb_rows(data@) <= u64::MAX,
            fb_bytes(data@) <= u64::MAX,
        ensures
            final(self).s3_config == old(self).s3_config,
            final(self).batch_size == old(self).batch_size,
            match r {
                Some(d) => d.row_count as int == fb_rows(data@) && d.data_size as int == fb_bytes(
                    data@,
                ) && d.sql@ == merge_sql(
                    fb_last_schema(data@),
                    fb_last_table(data@),
                    old(self).s3_config.root_url@,
                    old(self).s3_config.endpoint@,
                    old(self).s3_config.access_key@,
                    old(self).s3_config.secret_key@,
                    fb_files(data@),
                    fb_insert_only(data@),
                ) && final(self).monitor.rows as int == sat_add(
                    old(self).monitor.rows as int,
                    fb_rows(data@),
                ) && final(self).monitor.bytes as int == sat_add(
                    old(self).monitor.bytes as int,
                    fb_bytes(data@),
                ),
                None => false,
            },
    {
        let d = self.batch_merge(data);
        self.monitor.record_batch(d.row_count, d.data_size);
        Some(d)
    }
}

}
