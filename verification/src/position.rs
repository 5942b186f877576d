use vstd::prelude::*;

verus! {

/// A resumable cursor into a source stream. Each supported engine has its
/// own coordinate space; positions of different variants are incomparable,
/// positions within one variant are totally ordered.
#[derive(Clone, Debug)]
pub enum Position {
    /// MySQL binlog coordinates: log file name bytes and an offset in it.
    Binlog { file: Vec<u8>, offset: u64 },
    /// PostgreSQL log sequence number.
    PgLsn { lsn: u64 },
    /// MongoDB resume token, ordered bytewise.
    MongoToken { token: Vec<u8> },
    /// Redis replication id and replication offset.
    RedisOffset { repl_id: Vec<u8>, offset: u64 },
}

/// Strict lexicographic order on byte sequences.
pub open spec fn lex_lt(a: Seq<u8>, b: Seq<u8>) -> bool
    decreases a.len(),
{
    if b.len() == 0 {
        false
    } else if a.len() == 0 {
        true
    } else if a[0] < b[0] {
        true
    } else if a[0] > b[0] {
        false
    } else {
        lex_lt(a.drop_first(), b.drop_first())
    }
}

/// Whether two positions come from the same coordinate space.
pub open spec fn same_source(a: Position, b: Position) -> bool {
    match (a, b) {
        (Position::Binlog { .. }, Position::Binlog { .. }) => true,
        (Position::PgLsn { .. }, Position::PgLsn { .. }) => true,
        (Position::MongoToken { .. }, Position::MongoToken { .. }) => true,
        (Position::RedisOffset { .. }, Position::RedisOffset { .. }) => true,
        _ => false,
    }
}

/// Equality of positions, over their coordinate values.
pub open spec fn pos_eq(a: Position, b: Position) -> bool {
    match (a, b) {
        (Position::Binlog { file: f1, offset: o1 }, Position::Binlog { file: f2, offset: o2 }) =>
            f1@ == f2@ && o1 == o2,
        (Position::PgLsn { lsn: l1 }, Position::PgLsn { lsn: l2 }) => l1 == l2,
        (Position::MongoToken { token: t1 }, Position::MongoToken { token: t2 }) => t1@ == t2@,
        (
            Position::RedisOffset { repl_id: r1, offset: o1 },
            Position::RedisOffset { repl_id: r2, offset: o2 },
        ) => r1@ == r2@ && o1 == o2,
        _ => false,
    }
}

/// Strict order on positions of one coordinate space; false across spaces.
pub open spec fn pos_lt(a: Position, b: Position) -> bool {
    match (a, b) {
        (Position::Binlog { file: f1, offset: o1 }, Position::Binlog { file: f2, offset: o2 }) =>
            lex_lt(f1@, f2@) || (f1@ == f2@ && o1 < o2),
        (Position::PgLsn { lsn: l1 }, Position::PgLsn { lsn: l2 }) => l1 < l2,
        (Position::MongoToken { token: t1 }, Position::MongoToken { token: t2 }) => lex_lt(
            t1@,
            t2@,
        ),
        (
            Position::RedisOffset { repl_id: r1, offset: o1 },
            Position::RedisOffset { repl_id: r2, offset: o2 },
        ) => lex_lt(r1@, r2@) || (r1@ == r2@ && o1 < o2),
        _ => false,
    }
}

/// Non-strict order on positions of one coordinate space.
pub open spec fn pos_le(a: Position, b: Position) -> bool {
    pos_lt(a, b) || pos_eq(a, b)
}

/// The outcome of comparing two positions.
#[derive(Clone, Copy, PartialEq, Eq, Structural, Debug)]
pub enum PosOrder {
    Less,
    Equal,
    Greater,
    /// The positions belong to different coordinate spaces.
    Incomparable,
}

/// Lexicographic order is transitive.
pub proof fn lemma_lex_lt_trans(a: Seq<u8>, b: Seq<u8>, c: Seq<u8>)
    requires
        lex_lt(a, b),
        lex_lt(b, c),
    ensures
        lex_lt(a, c),
    decreases a.len(),
{
    if c.len() == 0 || b.len() == 0 {
        // lex_lt(b, c) forces c nonempty; lex_lt(a, b) forces b nonempty
    } else if a.len() == 0 {
    } else {
        if a[0] < b[0] {
            if b[0] < c[0] {
            } else {
                assert(b[0] == c[0]);
            }
        } else {
            assert(a[0] == b[0]);
            if b[0] < c[0] {
            } else {
                assert(b[0] == c[0]);
                lemma_lex_lt_trans(a.drop_first(), b.drop_first(), c.drop_first());
            }
        }
    }
}

/// Lexicographic order is irreflexive.
pub proof fn lemma_lex_lt_irrefl(a: Seq<u8>)
    ensures
        !lex_lt(a, a),
    decreases a.len(),
{
    if a.len() > 0 {
        lemma_lex_lt_irrefl(a.drop_first());
    }
}

/// Two byte sequences that neither orders below the other are equal.
pub proof fn lemma_lex_lt_total(a: Seq<u8>, b: Seq<u8>)
    requires
        !lex_lt(a, b),
        !lex_lt(b, a),
    ensures
        a == b,
    decreases a.len(),
{
    if a.len() == 0 && b.len() == 0 {
        assert(a =~= b);
    } else if a.len() == 0 || b.len() == 0 {
    } else {
        assert(a[0] == b[0]);
        lemma_lex_lt_total(a.drop_first(), b.drop_first());
        assert(a =~= b) by {
            assert(a.drop_first() == b.drop_first());
            assert(forall|i: int|
                1 <= i < a.len() ==> a[i] == a.drop_first()[i - 1] && b[i] == b.drop_first()[i
                    - 1]);
        }
    }
}

/// The strict order on positions is transitive.
pub proof fn lemma_pos_lt_trans(a: Position, b: Position, c: Position)
    requires
        pos_lt(a, b),
        pos_lt(b, c),
    ensures
        pos_lt(a, c),
{
    match (a, b, c) {
        (
            Position::Binlog { file: f1, offset: o1 },
            Position::Binlog { file: f2, offset: o2 },
            Position::Binlog { file: f3, offset: o3 },
        ) => {
            if lex_lt(f1@, f2@) && lex_lt(f2@, f3@) {
                lemma_lex_lt_trans(f1@, f2@, f3@);
            } else if lex_lt(f1@, f2@) {
                assert(f2@ == f3@);
                assert(lex_lt(f1@, f3@));
            } else if lex_lt(f2@, f3@) {
                assert(f1@ == f2@);
                assert(lex_lt(f1@, f3@));
            } else {
                assert(f1@ == f2@ && f2@ == f3@ && o1 < o2 && o2 < o3);
            }
        },
        (
            Position::MongoToken { token: f1 },
            Position::MongoToken { token: f2 },
            Position::MongoToken { token: f3 },
        ) => {
            lemma_lex_lt_trans(f1@, f2@, f3@);
        },
        (
            Position::RedisOffset { repl_id: f1, offset: o1 },
            Position::RedisOffset { repl_id: f2, offset: o2 },
            Position::RedisOffset { repl_id: f3, offset: o3 },
        ) => {
            if lex_lt(f1@, f2@) && lex_lt(f2@, f3@) {
                lemma_lex_lt_trans(f1@, f2@, f3@);
            } else if lex_lt(f1@, f2@) {
                assert(f2@ == f3@);
                assert(lex_lt(f1@, f3@));
            } else if lex_lt(f2@, f3@) {
                assert(f1@ == f2@);
                assert(lex_lt(f1@, f3@));
            } else {
                assert(f1@ == f2@ && f2@ == f3@ && o1 < o2 && o2 < o3);
            }
        },
        _ => {},
    }
}

/// The strict order on positions is irreflexive, so `pos_lt` and `pos_eq`
/// never hold together.
pub proof fn lemma_pos_lt_irrefl(a: Position, b: Position)
    ensures
        pos_eq(a, b) ==> !pos_lt(a, b),
{
    match (a, b) {
        (Position::Binlog { file: f1, .. }, Position::Binlog { file: f2, .. }) => {
            lemma_lex_lt_irrefl(f1@);
        },
        (Position::MongoToken { token: f1 }, Position::MongoToken { token: f2 }) => {
            lemma_lex_lt_irrefl(f1@);
        },
        (Position::RedisOffset { repl_id: f1, .. }, Position::RedisOffset { repl_id: f2, .. }) => {
            lemma_lex_lt_irrefl(f1@);
        },
        _ => {},
    }
}

/// Within one coordinate space the order is total: positions that neither
/// `pos_lt` orders are equal.
pub proof fn lemma_pos_order_total(a: Position, b: Position)
    requires
        same_source(a, b),
        !pos_lt(a, b),
        !pos_lt(b, a),
    ensures
        pos_eq(a, b),
{
    match (a, b) {
        (Position::Binlog { file: f1, offset: o1 }, Position::Binlog { file: f2, offset: o2 }) => {
            lemma_lex_lt_total(f1@, f2@);
        },
        (Position::MongoToken { token: f1 }, Position::MongoToken { token: f2 }) => {
            lemma_lex_lt_total(f1@, f2@);
        },
        (
            Position::RedisOffset { repl_id: f1, offset: o1 },
            Position::RedisOffset { repl_id: f2, offset: o2 },
        ) => {
            lemma_lex_lt_total(f1@, f2@);
        },
        _ => {},
    }
}

/// Position equality is reflexive.
pub proof fn lemma_pos_eq_refl(a: Position)
    ensures
        pos_eq(a, a),
{
}

/// Equal positions order the same way against any third position.
pub proof fn lemma_pos_eq_lt_congr(a: Position, b: Position, c: Position)
    requires
        pos_eq(a, b),
    ensures
        pos_lt(a, c) == pos_lt(b, c),
        pos_lt(c, a) == pos_lt(c, b),
{
}

/// A position no later than a second one is strictly before whatever the
/// second one is strictly before.
pub proof fn lemma_pos_le_lt_trans(a: Position, b: Position, c: Position)
    requires
        pos_le(a, b),
        pos_lt(b, c),
    ensures
        pos_lt(a, c),
{
    if pos_lt(a, b) {
        lemma_pos_lt_trans(a, b, c);
    } else {
        lemma_pos_eq_lt_congr(a, b, c);
    }
}

/// Compares two byte vectors lexicographically.
fn bytes_compare(a: &Vec<u8>, b: &Vec<u8>) -> (r: PosOrder)
    ensures
        r == PosOrder::Less <==> lex_lt(a@, b@),
        r == PosOrder::Greater <==> lex_lt(b@, a@),
        r == PosOrder::Equal <==> a@ == b@,
        r != PosOrder::Incomparable,
{
    proof {
        lemma_lex_lt_irrefl(a@);
        assert(a@.skip(0) =~= a@);
        assert(b@.skip(0) =~= b@);
    }
    let mut i: usize = 0;
    let n: usize = if a.len() < b.len() {
        a.len()
    } else {
        b.len()
    };
    while i < n
        invariant
            i <= n,
            n <= a@.len(),
            n <= b@.len(),
            n == a@.len() || n == b@.len(),
            lex_lt(a@, b@) == lex_lt(a@.skip(i as int), b@.skip(i as int)),
            lex_lt(b@, a@) == lex_lt(b@.skip(i as int), a@.skip(i as int)),
            a@.take(i as int) =~= b@.take(i as int),
        decreases n - i,
    {
        let x = a[i];
        let y = b[i];
        proof {
            assert(a@.skip(i as int)[0] == a@[i as int]);
            assert(b@.skip(i as int)[0] == b@[i as int]);
            assert(a@.skip(i as int).drop_first() =~= a@.skip(i as int + 1));
            assert(b@.skip(i as int).drop_first() =~= b@.skip(i as int + 1));
        }
        if x < y {
            assert(lex_lt(a@.skip(i as int), b@.skip(i as int)));
            assert(!lex_lt(b@.skip(i as int), a@.skip(i as int)));
            assert(a@ != b@) by {
                assert(a@[i as int] != b@[i as int]);
            }
            return PosOrder::Less;
        } else if x > y {
            assert(lex_lt(b@.skip(i as int), a@.skip(i as int)));
            assert(!lex_lt(a@.skip(i as int), b@.skip(i as int)));
            assert(a@ != b@) by {
                assert(a@[i as int] != b@[i as int]);
            }
            return PosOrder::Greater;
        }
        proof {
            assert(a@.take(i as int + 1) =~= b@.take(i as int + 1)) by {
                assert(forall|j: int|
                    0 <= j < i ==> a@.take(i as int + 1)[j] == a@.take(i as int)[j] && b@.take(
                        i as int + 1,
                    )[j] == b@.take(i as int)[j]);
            }
        }
        i += 1;
    }
    if a.len() < b.len() {
        assert(a@.skip(i as int).len() == 0);
        assert(b@.skip(i as int).len() > 0);
        assert(a@ != b@) by {
            assert(a@.len() != b@.len());
        }
        PosOrder::Less
    } else if a.len() > b.len() {
        assert(b@.skip(i as int).len() == 0);
        assert(a@.skip(i as int).len() > 0);
        assert(a@ != b@) by {
            assert(a@.len() != b@.len());
        }
        PosOrder::Greater
    } else {
        assert(a@ =~= b@) by {
            assert(a@.take(i as int) =~= a@);
            assert(b@.take(i as int) =~= b@);
        }
        PosOrder::Equal
    }
}

impl Position {
    /// Compares two positions. Positions of different coordinate spaces are
    /// incomparable; within one space the comparison is total.
    pub fn compare(&self, other: &Position) -> (r: PosOrder)
        ensures
            r == PosOrder::Less <==> pos_lt(*self, *other),
            r == PosOrder::Greater <==> pos_lt(*other, *self),
            r == PosOrder::Equal <==> pos_eq(*self, *other),
            r == PosOrder::Incomparable <==> !same_source(*self, *other),
    {
        proof {
            lemma_pos_lt_irrefl(*self, *other);
            lemma_pos_lt_irrefl(*other, *self);
            if same_source(*self, *other) && !pos_lt(*self, *other) && !pos_lt(*other, *self) {
                lemma_pos_order_total(*self, *other);
            }
        }
        match (self, other) {
            (
                Position::Binlog { file: f1, offset: o1 },
                Position::Binlog { file: f2, offset: o2 },
            ) => {
                let fc = bytes_compare(f1, f2);
                if fc == PosOrder::Equal {
                    if *o1 < *o2 {
                        PosOrder::Less
                    } else if *o1 > *o2 {
                        PosOrder::Greater
                    } else {
                        PosOrder::Equal
                    }
                } else {
                    fc
                }
            },
            (Position::PgLsn { lsn: l1 }, Position::PgLsn { lsn: l2 }) => {
                if *l1 < *l2 {
                    PosOrder::Less
                } else if *l1 > *l2 {
                    PosOrder::Greater
                } else {
                    PosOrder::Equal
                }
            },
            (Position::MongoToken { token: t1 }, Position::MongoToken { token: t2 }) => {
                bytes_compare(t1, t2)
            },
            (
                Position::RedisOffset { repl_id: r1, offset: o1 },
                Position::RedisOffset { repl_id: r2, offset: o2 },
            ) => {
                let fc = bytes_compare(r1, r2);
                if fc == PosOrder::Equal {
                    if *o1 < *o2 {
                        PosOrder::Less
                    } else if *o1 > *o2 {
                        PosOrder::Greater
                    } else {
                        PosOrder::Equal
                    }
                } else {
                    fc
                }
            },
            _ => PosOrder::Incomparable,
        }
    }

    /// Whether this position is strictly before `other`.
    pub fn is_before(&self, other: &Position) -> (r: bool)
        ensures
            r == pos_lt(*self, *other),
    {
        self.compare(other) == PosOrder::Less
    }

    /// A copy of this position, equal under `pos_eq`.
    pub fn duplicate(&self) -> (r: Position)
        ensures
            pos_eq(r, *self),
            same_source(r, *self),
    {
        match self {
            Position::Binlog { file, offset } => Position::Binlog {
                file: vstd::slice::slice_to_vec(file.as_slice()),
                offset: *offset,
            },
            Position::PgLsn { lsn } => Position::PgLsn { lsn: *lsn },
            Position::MongoToken { token } => Position::MongoToken {
                token: vstd::slice::slice_to_vec(token.as_slice()),
            },
            Position::RedisOffset { repl_id, offset } => Position::RedisOffset {
                repl_id: vstd::slice::slice_to_vec(repl_id.as_slice()),
                offset: *offset,
            },
        }
    }
}

}
