use vstd::prelude::*;
use vstd::string::StringSliceAdditionalSpecFns;
use crate::position::Position;

verus! {

/// The kind of a row-level change.
#[derive(Clone, Copy, PartialEq, Eq, Structural, Debug)]
pub enum RowOp {
    Insert,
    Update,
    Delete,
}

/// A value in the engine's sum-typed value domain. Floating-point values
/// are carried by their IEEE-754 bit pattern so that every value is plain
/// data; decimals and JSON are carried in their textual form.
#[derive(Debug)]
pub enum ColValue {
    Null,
    Int(i64),
    UInt(u64),
    FloatBits(u64),
    Decimal(String),
    Str(String),
    Bytes(Vec<u8>),
    Timestamp(i64),
    Json(String),
}

/// The mathematical model of a column value.
pub enum ValModel {
    Null,
    Int(int),
    UInt(int),
    FloatBits(int),
    Decimal(Seq<char>),
    Str(Seq<char>),
    Bytes(Seq<u8>),
    Timestamp(int),
    Json(Seq<char>),
}

impl View for ColValue {
    type V = ValModel;

    open spec fn view(&self) -> ValModel {
        match self {
            ColValue::Null => ValModel::Null,
            ColValue::Int(i) => ValModel::Int(*i as int),
            ColValue::UInt(u) => ValModel::UInt(*u as int),
            ColValue::FloatBits(b) => ValModel::FloatBits(*b as int),
            ColValue::Decimal(s) => ValModel::Decimal(s@),
            ColValue::Str(s) => ValModel::Str(s@),
            ColValue::Bytes(b) => ValModel::Bytes(b@),
            ColValue::Timestamp(t) => ValModel::Timestamp(*t as int),
            ColValue::Json(s) => ValModel::Json(s@),
        }
    }
}

/// One named column of a row.
#[derive(Debug)]
pub struct Col {
    pub name: String,
    pub value: ColValue,
}

impl View for Col {
    type V = (Seq<char>, ValModel);

    open spec fn view(&self) -> (Seq<char>, ValModel) {
        (self.name@, self.value@)
    }
}

/// A row: named columns in source order. Column order carries no meaning;
/// a later column with the same name supersedes an earlier one.
#[derive(Debug)]
pub struct Row {
    pub cols: Vec<Col>,
}

impl View for Row {
    type V = Seq<(Seq<char>, ValModel)>;

    open spec fn view(&self) -> Seq<(Seq<char>, ValModel)> {
        self.cols@.map_values(|c: Col| c@)
    }
}

/// The value a row gives a column name: the last occurrence wins.
pub open spec fn row_lookup(r: Seq<(Seq<char>, ValModel)>, name: Seq<char>) -> Option<ValModel>
    decreases r.len(),
{
    if r.len() == 0 {
        None
    } else if r.last().0 == name {
        Some(r.last().1)
    } else {
        row_lookup(r.drop_last(), name)
    }
}

/// One change record flowing through the pipeline.
#[derive(Debug)]
pub enum Event {
    /// A row-level insert, update or delete. `before` is populated only when
    /// the source provides pre-images; otherwise the primary key is read
    /// from `after`.
    RowChange {
        schema: String,
        table: String,
        op: RowOp,
        before: Option<Row>,
        after: Option<Row>,
        commit_ts: i64,
        position: Position,
    },
    /// A schema change statement, always serialized through worker zero.
    Ddl { schema: String, statement: String, commit_ts: i64, position: Position },
    /// A liveness tick emitted even when the source is idle.
    Heartbeat { position: Position, wall_clock: i64 },
    /// An opaque Redis command.
    Redis { db: u32, cmd: String, args: Vec<String>, position: Position },
    /// A reference to a pre-staged file for an analytical sink.
    FileBatch {
        schema: String,
        table: String,
        uri: String,
        row_count: u64,
        byte_size: u64,
        insert_only: bool,
    },
    /// A synthetic commit barrier inserted by the extractor.
    CheckpointMarker { position: Position },
}

/// The source position of an event, when it has one. File batches are
/// staged out of band and carry no source position.
pub open spec fn position_of(e: Event) -> Option<Position> {
    match e {
        Event::RowChange { position, .. } => Some(position),
        Event::Ddl { position, .. } => Some(position),
        Event::Heartbeat { position, .. } => Some(position),
        Event::Redis { position, .. } => Some(position),
        Event::FileBatch { .. } => None,
        Event::CheckpointMarker { position } => Some(position),
    }
}

/// The commit timestamp of an event, when it has one.
pub open spec fn commit_ts_of(e: Event) -> Option<int> {
    match e {
        Event::RowChange { commit_ts, .. } => Some(commit_ts as int),
        Event::Ddl { commit_ts, .. } => Some(commit_ts as int),
        _ => None,
    }
}

impl Event {
    /// The source position of this event, when it has one.
    pub fn position(&self) -> (r: Option<&Position>)
        ensures
            match r {
                Some(p) => position_of(*self) == Some(*p),
                None => position_of(*self) is None,
            },
    {
        match self {
            Event::RowChange { position, .. } => Some(position),
            Event::Ddl { position, .. } => Some(position),
            Event::Heartbeat { position, .. } => Some(position),
            Event::Redis { position, .. } => Some(position),
            Event::FileBatch { .. } => None,
            Event::CheckpointMarker { position } => Some(position),
        }
    }

    /// The commit timestamp of this event, when it has one.
    pub fn commit_ts(&self) -> (r: Option<i64>)
        ensures
            match r {
                Some(t) => commit_ts_of(*self) == Some(t as int),
                None => commit_ts_of(*self) is None,
            },
    {
        match self {
            Event::RowChange { commit_ts, .. } => Some(*commit_ts),
            Event::Ddl { commit_ts, .. } => Some(*commit_ts),
            _ => None,
        }
    }
}

/// The decimal digit bytes of a non-negative number, most significant first.
pub open spec fn dec_digits(n: int) -> Seq<u8>
    recommends
        n >= 0,
    decreases n,
{
    if n < 10 {
        seq![(n + 0x30) as u8]
    } else {
        dec_digits(n / 10).push((n % 10 + 0x30) as u8)
    }
}

/// The decimal digit bytes of an integer, with a leading minus sign when
/// it is negative.
pub open spec fn dec_digits_signed(n: int) -> Seq<u8> {
    if n < 0 {
        seq![0x2du8] + dec_digits(-n)
    } else {
        dec_digits(n)
    }
}

/// Appends the decimal digits of `n`.
pub fn push_dec_u64(n: u64, out: &mut Vec<u8>)
    ensures
        final(out)@ == old(out)@ + dec_digits(n as int),
    decreases n,
{
    if n >= 10 {
        push_dec_u64(n / 10, out);
    }
    out.push((n % 10) as u8 + 0x30);
    proof {
        assert(out@ =~= old(out)@ + dec_digits(n as int));
    }
}

/// Appends the decimal digits of `n`, sign included.
pub fn push_dec_i64(n: i64, out: &mut Vec<u8>)
    ensures
        final(out)@ == old(out)@ + dec_digits_signed(n as int),
{
    if n < 0 {
        out.push(0x2d);
        let m: u64 = (-(n as i128)) as u64;
        push_dec_u64(m, out);
        assert(out@ =~= old(out)@ + dec_digits_signed(n as int));
    } else {
        push_dec_u64(n as u64, out);
    }
}

/// Appends the bytes of a string slice (its UTF-8 encoding).
pub fn push_str_bytes(s: &str, out: &mut Vec<u8>)
    ensures
        final(out)@ == old(out)@ + s.spec_bytes(),
{
    let bs: &[u8] = s.as_bytes();
    let mut i: usize = 0;
    while i < bs.len()
        invariant
            i <= bs@.len(),
            bs@ == s.spec_bytes(),
            out@ == old(out)@ + bs@.take(i as int),
        decreases bs@.len() - i,
    {
        out.push(bs[i]);
        proof {
            assert(out@ =~= old(out)@ + bs@.take(i as int + 1));
        }
        i += 1;
    }
    proof {
        assert(bs@.take(bs@.len() as int) =~= bs@);
    }
}

/// The identifying bytes of a column value, used to build partition keys.
/// Textual values contribute their UTF-8 bytes, numeric values their
/// decimal digits, binary values their raw bytes, and null nothing.
pub open spec fn val_key_bytes(v: ValModel) -> Seq<u8> {
    match v {
        ValModel::Null => Seq::empty(),
        ValModel::Int(i) => dec_digits_signed(i),
        ValModel::UInt(u) => dec_digits(u),
        ValModel::FloatBits(b) => dec_digits(b),
        ValModel::Decimal(s) => vstd::utf8::encode_utf8(s),
        ValModel::Str(s) => vstd::utf8::encode_utf8(s),
        ValModel::Bytes(b) => b,
        ValModel::Timestamp(t) => dec_digits_signed(t),
        ValModel::Json(s) => vstd::utf8::encode_utf8(s),
    }
}

/// Appends the identifying bytes of a column value.
pub fn push_val_key(v: &ColValue, out: &mut Vec<u8>)
    ensures
        final(out)@ == old(out)@ + val_key_bytes(v@),
{
    match v {
        ColValue::Null => {
            assert(out@ =~= old(out)@ + val_key_bytes(v@));
        },
        ColValue::Int(i) => {
            push_dec_i64(*i, out);
        },
        ColValue::UInt(u) => {
            push_dec_u64(*u, out);
        },
        ColValue::FloatBits(b) => {
            push_dec_u64(*b, out);
        },
        ColValue::Decimal(s) => {
            push_str_bytes(s.as_str(), out);
        },
        ColValue::Str(s) => {
            push_str_bytes(s.as_str(), out);
        },
        ColValue::Bytes(b) => {
            let mut i: usize = 0;
            while i < b.len()
                invariant
                    i <= b@.len(),
                    out@ == old(out)@ + b@.take(i as int),
                decreases b@.len() - i,
            {
                out.push(b[i]);
                proof {
                    assert(out@ =~= old(out)@ + b@.take(i as int + 1));
                }
                i += 1;
            }
            proof {
                assert(b@.take(b@.len() as int) =~= b@);
            }
        },
        ColValue::Timestamp(t) => {
            push_dec_i64(*t, out);
        },
        ColValue::Json(s) => {
            push_str_bytes(s.as_str(), out);
        },
    }
}

/// The key contribution of one primary-key column of a row: the value's
/// identifying bytes, or nothing when the row does not carry the column.
pub open spec fn pk_part(r: Seq<(Seq<char>, ValModel)>, name: Seq<char>) -> Seq<u8> {
    match row_lookup(r, name) {
        Some(v) => val_key_bytes(v),
        None => Seq::empty(),
    }
}

/// The partition-key bytes of a row under a list of primary-key columns:
/// the columns' identifying bytes joined by a NUL byte.
pub open spec fn pk_bytes(r: Seq<(Seq<char>, ValModel)>, pk: Seq<Seq<char>>) -> Seq<u8>
    decreases pk.len(),
{
    if pk.len() == 0 {
        Seq::empty()
    } else if pk.len() == 1 {
        pk_part(r, pk[0])
    } else {
        pk_bytes(r, pk.drop_last()) + seq![0u8] + pk_part(r, pk.last())
    }
}

/// Finds the value of a column by name; the last occurrence wins.
pub fn lookup_col<'a>(row: &'a Row, name: &str) -> (r: Option<&'a ColValue>)
    ensures
        match r {
            Some(v) => row_lookup(row@, name@) == Some(v@),
            None => row_lookup(row@, name@) is None,
        },
{
    let n = row.cols.len();
    let mut i: usize = n;
    proof {
        assert(row@.take(n as int) =~= row@);
    }
    while i > 0
        invariant
            i <= row.cols@.len(),
            row_lookup(row@, name@) == row_lookup(row@.take(i as int), name@),
        decreases i,
    {
        i -= 1;
        let c = &row.cols[i];
        proof {
            assert(row@.take(i as int + 1).last() == row@[i as int]);
            assert(row@.take(i as int + 1).drop_last() =~= row@.take(i as int));
            assert(row@[i as int] == (c.name@, c.value@));
        }
        if crate::strutil::str_eq(c.name.as_str(), name) {
            return Some(&c.value);
        }
    }
    proof {
        assert(row@.take(0).len() == 0);
    }
    None
}

/// Appends the partition-key bytes of a row for the given primary-key
/// column names.
pub fn push_pk_bytes(row: &Row, pk: &Vec<String>, out: &mut Vec<u8>)
    ensures
        final(out)@ == old(out)@ + pk_bytes(row@, pk@.map_values(|s: String| s@)),
{
    let ghost pkv = pk@.map_values(|s: String| s@);
    let mut i: usize = 0;
    while i < pk.len()
        invariant
            i <= pk@.len(),
            pkv == pk@.map_values(|s: String| s@),
            out@ == old(out)@ + pk_bytes(row@, pkv.take(i as int)),
        decreases pk@.len() - i,
    {
        if i > 0 {
            out.push(0u8);
        }
        let name: &String = &pk[i];
        match lookup_col(row, name.as_str()) {
            Some(v) => {
                push_val_key(v, out);
            },
            None => {},
        }
        proof {
            assert(pkv.take(i as int + 1).last() == pkv[i as int]);
            assert(pkv.take(i as int + 1).drop_last() =~= pkv.take(i as int));
            assert(pkv[i as int] == pk@[i as int]@);
            if i == 0 {
                assert(pk_bytes(row@, pkv.take(1)) == pk_part(row@, pkv[0]));
                assert(out@ =~= old(out)@ + pk_bytes(row@, pkv.take(i as int + 1)));
            } else {
                assert(out@ =~= old(out)@ + pk_bytes(row@, pkv.take(i as int + 1)));
            }
        }
        i += 1;
    }
    proof {
        assert(pkv.take(pkv.len() as int) =~= pkv);
    }
}

/// One step of the stable key hash: multiply by 31 and add the next byte,
/// modulo two to the sixty-fourth.
pub open spec fn hash_step(h: int, b: int) -> int {
    (h * 31 + b) % 0x1_0000_0000_0000_0000
}

/// The stable key hash of a byte sequence, used to pin a partition key to
/// a worker. It depends on the bytes alone, so one key always lands on
/// one worker.
pub open spec fn hash_of(s: Seq<u8>) -> int
    decreases s.len(),
{
    if s.len() == 0 {
        5381
    } else {
        hash_step(hash_of(s.drop_last()), s.last() as int)
    }
}

/// Computes the stable key hash of `bytes`.
pub fn hash_bytes(bytes: &Vec<u8>) -> (r: u64)
    ensures
        r as int == hash_of(bytes@),
{
    let mut h: u64 = 5381;
    let mut i: usize = 0;
    while i < bytes.len()
        invariant
            i <= bytes@.len(),
            h as int == hash_of(bytes@.take(i as int)),
        decreases bytes@.len() - i,
    {
        let wide: u128 = (h as u128) * 31 + (bytes[i] as u128);
        let next: u128 = wide % 0x1_0000_0000_0000_0000;
        proof {
            assert(bytes@.take(i as int + 1).last() == bytes@[i as int]);
            assert(bytes@.take(i as int + 1).drop_last() =~= bytes@.take(i as int));
        }
        h = next as u64;
        i += 1;
    }
    proof {
        assert(bytes@.take(bytes@.len() as int) =~= bytes@);
    }
    h
}

}
