//! The lines of a port, kept in a SQLite database.
use vstd::prelude::*;

use crate::sql::{
    begin, begin_write, commit, connect_file, connect_memory, create_line_tables, delete_lines,
    insert_command, insert_command_as, insert_line, insert_line_as, keep_last_commands,
    keep_last_lines, line_figures, rollback, select_command_rows, select_commands, select_lines,
    put_counters, select_counters, set_pragmas, vacuum, CommandRow, Db, LineRow, LineTables, Setup,
    StoredCommand,
};
use crate::text::{copy_text, same_text};

verus! {

broadcast use vstd::seq_lib::group_seq_properties;

/// Maximum send history entries kept per port.
pub const SEND_HISTORY_CAP: u32 = 1000;

/// A single stored line from the serial buffer.
#[derive(Debug, Clone)]
pub struct StoredLine {
    /// Monotonically increasing line id, from 1 on.
    pub id: i64,
    /// Nanosecond UTC time stamp at ingestion.
    pub timestamp_ns: i64,
    /// The line without its delimiter.
    pub payload: String,
}

impl StoredLine {
    /// The row that the line stands for.
    pub open spec fn row(self) -> LineRow {
        LineRow { id: self.id, ts: self.timestamp_ns, text: self.payload@ }
    }
}

/// Buffer statistics.
#[derive(Debug, Clone)]
pub struct BufferStats {
    pub total_lines: u64,
    /// The bytes of all lines in UTF-8.
    pub total_bytes: u64,
    pub last_timestamp_ns: Option<i64>,
    /// The size of the database file.
    pub db_size_bytes: u64,
}

impl Default for BufferStats {
    /// The statistics of nothing.
    fn default() -> (r: BufferStats)
        ensures
            r == (BufferStats {
                total_lines: 0,
                total_bytes: 0,
                last_timestamp_ns: None,
                db_size_bytes: 0,
            }),
    {
        BufferStats { total_lines: 0, total_bytes: 0, last_timestamp_ns: None, db_size_bytes: 0 }
    }
}

/// A range of time stamps, both ends included.
#[derive(Debug, Clone, Copy)]
pub struct TimeRange {
    pub start_ns: i64,
    pub end_ns: i64,
}

/// Errors from the storage layer.
#[derive(Debug)]
pub enum StorageError {
    Sqlite(rusqlite::Error),
    /// A file or directory could not be used; why, in words.
    Io(String),
    InvalidRegex(regex::Error),
}

impl StorageError {
    /// The message for the user: what failed, and the reason in the words of the library that
    /// gave it.
    pub fn message(&self) -> (r: String)
        ensures
            r@ == self.kind() + self.words(),
    {
        let (mut s, why) = match self {
            StorageError::Sqlite(e) => (copy_text("sqlite error: "), crate::sql::reason(e)),
            StorageError::Io(why) => (copy_text("io error: "), copy_text(why.as_str())),
            StorageError::InvalidRegex(e) => (
                copy_text("invalid regex: "),
                crate::pattern::reason(e),
            ),
        };
        s.append(why.as_str());
        s
    }

    /// What failed.
    pub open spec fn kind(self) -> Seq<char> {
        match self {
            StorageError::Sqlite(_) => "sqlite error: "@,
            StorageError::Io(_) => "io error: "@,
            StorageError::InvalidRegex(_) => "invalid regex: "@,
        }
    }

    /// The reason in words.
    pub open spec fn words(self) -> Seq<char> {
        match self {
            StorageError::Sqlite(e) => crate::sql::sqlite_reason(e),
            StorageError::Io(why) => why@,
            StorageError::InvalidRegex(e) => crate::pattern::regex_reason(e),
        }
    }
}

/// SQLite-backed storage for a single port's serial data.
pub struct SqliteStorage {
    conn: rusqlite::Connection,
    db_path: String,
}

impl View for SqliteStorage {
    type V = Db<LineTables>;

    closed spec fn view(&self) -> Db<LineTables> {
        crate::sql::line_db(self.conn)
    }
}

// --- What the operations do to the tables ---

/// The tables after the lines were stored one after the other.
pub open spec fn with_lines(t: LineTables, lines: Seq<(i64, &str)>) -> LineTables
    decreases lines.len(),
{
    if lines.len() == 0 {
        t
    } else {
        with_lines(t, lines.drop_last()).with_line(lines.last().0, lines.last().1@)
    }
}

/// The rows with an id of at least `first`.
pub open spec fn from_id(rows: Seq<LineRow>, first: int) -> Seq<LineRow> {
    rows.filter(|row: LineRow| first <= row.id)
}

/// The rows with an id from `first` to `last`, both included.
pub open spec fn id_range(rows: Seq<LineRow>, first: int, last: int) -> Seq<LineRow> {
    rows.filter(|row: LineRow| first <= row.id <= last)
}

/// The rows with a time stamp in `range`, both ends included.
pub open spec fn in_time(rows: Seq<LineRow>, range: TimeRange) -> Seq<LineRow> {
    rows.filter(|row: LineRow| range.start_ns <= row.ts <= range.end_ns)
}

/// The time stamp of the row is in the time range, if one is given.
pub open spec fn covers(range: Option<TimeRange>, row: LineRow) -> bool {
    range matches Some(t) ==> t.start_ns <= row.ts <= t.end_ns
}

/// The rows in the time range, if one is given.
pub open spec fn within(rows: Seq<LineRow>, range: Option<TimeRange>) -> Seq<LineRow> {
    rows.filter(|row: LineRow| covers(range, row))
}

/// The row is in the time range, if one is given, and its text contains `query`.
pub open spec fn hit(row: LineRow, query: Seq<char>, range: Option<TimeRange>) -> bool {
    covers(range, row) && crate::text::has_infix(row.text, query)
}

/// The rows that a substring search finds.
pub open spec fn hits(rows: Seq<LineRow>, query: Seq<char>, range: Option<TimeRange>) -> Seq<
    LineRow,
> {
    rows.filter(|row: LineRow| hit(row, query, range))
}

/// The tables that last when a connection ends: an open transaction is undone.
pub open spec fn lasting(d: Db<LineTables>) -> LineTables {
    match d.saved {
        Some(t) => t,
        None => d.now,
    }
}

/// `new` is `old` after a transaction that failed: no call of it lasts, and the tables that last are
/// those that it found. A transaction that was open before is still as it was.
pub open spec fn given_up(old: Db<LineTables>, new: Db<LineTables>) -> bool {
    ||| new == old
    ||| old.saved is None && new.alone == old.alone && new.kept == old.kept && crate::sql::found(
        old,
        lasting(new),
    )
}

/// `new` is `old` after the lines were cut to the last `n`.
pub open spec fn lines_cut(old: Db<LineTables>, new: Db<LineTables>, n: int) -> bool {
    exists|base: LineTables| #[trigger]
        crate::sql::found(old, base) && base.wf() && crate::sql::wrote_to(
            old,
            new,
            base,
            base.keeping_lines(n),
        )
}

/// `new` is `old` after every line of the tables `base`, which were found, was deleted.
pub open spec fn cleared_from(old: Db<LineTables>, base: LineTables, new: Db<LineTables>) -> bool {
    &&& crate::sql::found(old, base)
    &&& base.wf()
    &&& crate::sql::looked(crate::sql::after_write(old, base, base.without_lines()), new)
}

/// `new` is `old` after every line was deleted.
pub open spec fn lines_cleared(old: Db<LineTables>, new: Db<LineTables>) -> bool {
    exists|base: LineTables| #[trigger] cleared_from(old, base, new)
}

/// `new` is `old` after a batch of lines was stored.
pub open spec fn batch_stored(
    old: Db<LineTables>,
    new: Db<LineTables>,
    lines: Seq<(i64, &str)>,
) -> bool {
    exists|base: LineTables| #[trigger]
        crate::sql::found(old, base) && (lines.len() > 0 ==> base.wf() && base.last_line
            + lines.len() <= i64::MAX) && new == (Db {
            now: with_lines(base, lines),
            wrote: false,
            kept: old.kept + lines.len(),
            pending: 0,
            ..old
        })
}

/// `mid` is `old` after a command was stored.
pub open spec fn command_stored(
    old: Db<LineTables>,
    mid: Db<LineTables>,
    ts: i64,
    command: Seq<char>,
) -> bool {
    exists|base: LineTables| #[trigger]
        crate::sql::found(old, base) && base.wf() && base.last_command < i64::MAX
            && crate::sql::wrote_to(old, mid, base, base.with_command(ts, command))
}

/// `new` is `mid` after the send history was cut to its last entries.
pub open spec fn history_cut(mid: Db<LineTables>, new: Db<LineTables>) -> bool {
    exists|base: LineTables| #[trigger]
        crate::sql::found(mid, base) && base.wf() && crate::sql::wrote_to(
            mid,
            new,
            base,
            base.keeping_commands(SEND_HISTORY_CAP as int),
        )
}

// --- Lemmas on filters ---

/// Two predicates that agree on the rows pick the same rows.
pub proof fn same_filter<A>(s: Seq<A>, p: spec_fn(A) -> bool, q: spec_fn(A) -> bool)
    requires
        forall|i: int| 0 <= i < s.len() ==> p(#[trigger] s[i]) == q(s[i]),
    ensures
        s.filter(p) == s.filter(q),
    decreases s.len(),
{
    reveal(Seq::filter);
    if s.len() > 0 {
        let t = s.drop_last();
        assert forall|i: int| 0 <= i < t.len() implies p(#[trigger] t[i]) == q(t[i]) by {
            assert(t[i] == s[i]);
        }
        same_filter(t, p, q);
        assert(p(s[s.len() - 1]) == q(s[s.len() - 1]));
    }
}

/// Filtering twice is filtering for both.
pub proof fn filter_twice<A>(s: Seq<A>, p: spec_fn(A) -> bool, q: spec_fn(A) -> bool)
    ensures
        s.filter(p).filter(q) == s.filter(|a: A| p(a) && q(a)),
    decreases s.len(),
{
    reveal(Seq::filter);
    if s.len() > 0 {
        filter_twice(s.drop_last(), p, q);
        if p(s.last()) {
            let f = s.drop_last().filter(p);
            assert(f.push(s.last()).drop_last() =~= f);
        }
    }
}

/// Where every item passes, a filter picks them all.
pub proof fn filter_all<A>(s: Seq<A>, p: spec_fn(A) -> bool)
    requires
        forall|i: int| 0 <= i < s.len() ==> p(#[trigger] s[i]),
    ensures
        s.filter(p) == s,
    decreases s.len(),
{
    reveal(Seq::filter);
    if s.len() > 0 {
        let t = s.drop_last();
        assert forall|i: int| 0 <= i < t.len() implies p(#[trigger] t[i]) by {
            assert(t[i] == s[i]);
        }
        filter_all(t, p);
        assert(p(s[s.len() - 1]));
        assert(s =~= t.push(s.last()));
    }
}

/// Where no item passes, a filter picks none.
pub proof fn filter_none<A>(s: Seq<A>, p: spec_fn(A) -> bool)
    requires
        forall|i: int| 0 <= i < s.len() ==> !p(#[trigger] s[i]),
    ensures
        s.filter(p) == Seq::<A>::empty(),
    decreases s.len(),
{
    reveal(Seq::filter);
    if s.len() > 0 {
        let t = s.drop_last();
        assert forall|i: int| 0 <= i < t.len() implies !p(#[trigger] t[i]) by {
            assert(t[i] == s[i]);
        }
        filter_none(t, p);
        assert(!p(s[s.len() - 1]));
    }
}

/// The tables that consist of these rows and largest ids.
pub open spec fn tables_of(
    lines: Seq<StoredLine>,
    commands: Seq<StoredCommand>,
    last: (i64, i64),
) -> LineTables {
    LineTables {
        lines: crate::sql::line_rows(lines),
        last_line: last.0 as int,
        commands: crate::sql::command_rows(commands),
        last_command: last.1 as int,
    }
}

/// A line with an id above all others comes last.
proof fn line_comes_last(t: LineTables, row: LineRow)
    requires
        forall|i: int| 0 <= i < t.lines.len() ==> (#[trigger] t.lines[i]).id < row.id,
    ensures
        t.with_line_at(row).lines == t.lines.push(row),
{
    filter_all(t.lines, |l: LineRow| l.id < row.id);
    filter_none(t.lines, |l: LineRow| l.id > row.id);
    assert(t.with_line_at(row).lines =~= t.lines.push(row));
}

/// A command with an id above all others comes last.
proof fn command_comes_last(t: LineTables, row: CommandRow)
    requires
        forall|i: int| 0 <= i < t.commands.len() ==> (#[trigger] t.commands[i]).id < row.id,
    ensures
        t.with_command_at(row).commands == t.commands.push(row),
{
    filter_all(t.commands, |c: CommandRow| c.id < row.id);
    filter_none(t.commands, |c: CommandRow| c.id > row.id);
    assert(t.with_command_at(row).commands =~= t.commands.push(row));
}

/// Rows with ascending ids stay so under a filter.
pub proof fn filter_ascends(s: Seq<LineRow>, p: spec_fn(LineRow) -> bool)
    requires
        forall|i: int, j: int| 0 <= i < j < s.len() ==> s[i].id < s[j].id,
    ensures
        forall|i: int, j: int|
            0 <= i < j < s.filter(p).len() ==> s.filter(p)[i].id < s.filter(p)[j].id,
    decreases s.len(),
{
    reveal(Seq::filter);
    if s.len() > 0 {
        let front = s.drop_last();
        assert forall|i: int, j: int| 0 <= i < j < front.len() implies front[i].id
            < front[j].id by {
            assert(front[i] == s[i] && front[j] == s[j]);
        }
        filter_ascends(front, p);
        let f = front.filter(p);
        if p(s.last()) {
            assert forall|i: int| 0 <= i < f.len() implies (#[trigger] f[i]).id < s.last().id by {
                filter_subset(front, p, f[i]);
                let k = front.index_of(f[i]);
                assert(s[k] == f[i]);
            }
        }
    }
}

/// The ids of the rows ascend.
pub open spec fn ids_ascend(rows: Seq<LineRow>) -> bool {
    forall|i: int, j: int| 0 <= i < j < rows.len() ==> rows[i].id < rows[j].id
}

/// What is picked of a port's lines, the first of it, has ascending ids.
pub proof fn picked_ascend(t: LineTables, p: spec_fn(LineRow) -> bool, n: int)
    requires
        t.wf(),
    ensures
        ids_ascend(crate::sql::first_n(t.lines.filter(p), n)),
{
    filter_ascends(t.lines, p);
}

/// Every text contains the empty text.
proof fn empty_contained(s: Seq<char>, e: Seq<char>)
    requires
        e.len() == 0,
    ensures
        crate::text::has_infix(s, e),
{
    assert(s.subrange(0, 0) =~= e);
    assert(crate::text::stands_at(s, e, 0));
}

/// A port's database that is set up.
pub open spec fn port_setup(path: Seq<char>, pragmas: bool) -> Setup {
    Setup { path, pragmas, line_tables: true, state_tables: false }
}

/// `a` is the database in the file `path`, and holds exactly the tables `base`.
pub open spec fn archived(a: SqliteStorage, path: Seq<char>, base: LineTables) -> bool {
    a.path() == path && a.setup() == port_setup(path, true) && a@.now == base
}

/// `new` is `old` after its lines were copied to the archive `a` in the file `path` and deleted:
/// `base` are the tables that were found, and that the archive holds.
pub open spec fn archive_made(
    old: Db<LineTables>,
    base: LineTables,
    new: Db<LineTables>,
    a: SqliteStorage,
    path: Seq<char>,
) -> bool {
    cleared_from(old, base, new) && archived(a, path, base)
}

impl SqliteStorage {
    /// The database file, or `:memory:`.
    pub closed spec fn path(&self) -> Seq<char> {
        self.db_path@
    }

    /// What was set up on the connection.
    pub closed spec fn setup(&self) -> Setup {
        crate::sql::setup(self.conn)
    }

    /// Open or create the database in the file `path`, whose directory is there. Its tables are
    /// created where they are missing; no row is written.
    pub fn open(path: &str) -> (r: Result<SqliteStorage, StorageError>)
        ensures
            r matches Ok(s) ==> s.path() == path@ && s.setup() == port_setup(path@, true) && s@
                == crate::sql::untouched(s@.now, false),
            r matches Err(e) ==> e is Sqlite,
    {
        let mut conn = match connect_file(path) {
            Ok(c) => c,
            Err(e) => return Err(StorageError::Sqlite(e)),
        };
        if let Err(e) = set_pragmas(&mut conn) {
            return Err(StorageError::Sqlite(e));
        }
        if let Err(e) = create_line_tables(&mut conn) {
            return Err(StorageError::Sqlite(e));
        }
        Ok(SqliteStorage { conn, db_path: copy_text(path) })
    }

    /// Open a private in-memory database.
    pub fn open_memory() -> (r: Result<SqliteStorage, StorageError>)
        ensures
            r matches Ok(s) ==> s.path() == ":memory:"@ && s.setup() == port_setup(
                ":memory:"@,
                false,
            ) && s@ == crate::sql::untouched(LineTables::fresh(), true),
            r matches Err(e) ==> e is Sqlite,
    {
        let mut conn = match connect_memory() {
            Ok(c) => c,
            Err(e) => return Err(StorageError::Sqlite(e)),
        };
        if let Err(e) = create_line_tables(&mut conn) {
            return Err(StorageError::Sqlite(e));
        }
        Ok(SqliteStorage { conn, db_path: copy_text(":memory:") })
    }

    /// Insert a batch of lines in a single transaction: all of them or none.
    pub fn insert_lines(&mut self, lines: &[(i64, &str)]) -> (r: Result<(), StorageError>)
        ensures
            final(self).path() == old(self).path(),
            final(self).setup() == old(self).setup(),
            r is Ok ==> old(self)@.saved is None && batch_stored(
                old(self)@,
                final(self)@,
                lines@,
            ),
            r matches Err(e) ==> e is Sqlite && given_up(old(self)@, final(self)@),
    {
        if let Err(e) = begin(&mut self.conn) {
            return Err(StorageError::Sqlite(e));
        }
        let ghost start = old(self)@;
        let ghost mut base = start.now;
        let mut i: usize = 0;
        proof {
            assert(lines@.take(0) =~= Seq::empty());
        }
        while i < lines.len()
            invariant
                i <= lines@.len(),
                start == old(self)@,
                start.saved is None,
                self.path() == old(self).path(),
                self.setup() == old(self).setup(),
                crate::sql::found(start, base),
                i > 0 ==> base.wf() && base.last_line + i <= i64::MAX,
                with_lines(base, lines@.take(i as int)).last_line == base.last_line + i,
                self@ == (Db {
                    now: with_lines(base, lines@.take(i as int)),
                    saved: Some(
                        if i > 0 {
                            base
                        } else {
                            start.now
                        },
                    ),
                    wrote: i > 0,
                    alone: start.alone,
                    kept: start.kept,
                    pending: i as nat,
                }),
            decreases lines@.len() - i,
        {
            let (ts, text) = lines[i];
            let ghost before = self@;
            if let Err(e) = insert_line(&mut self.conn, ts, text) {
                let _ = rollback(&mut self.conn);
                return Err(StorageError::Sqlite(e));
            }
            proof {
                let b = choose|b: LineTables| #[trigger]
                    crate::sql::found(before, b) && b.wf() && b.last_line < i64::MAX
                        && crate::sql::wrote_to(before, self@, b, b.with_line(ts, text@));
                if i == 0 {
                    base = b;
                }
                assert(lines@.take(i + 1).drop_last() =~= lines@.take(i as int));
                assert(with_lines(base, lines@.take(i + 1)) == with_lines(
                    base,
                    lines@.take(i as int),
                ).with_line(ts, text@));
            }
            i = i + 1;
        }
        proof {
            assert(lines@.take(lines@.len() as int) =~= lines@);
        }
        if let Err(e) = commit(&mut self.conn) {
            let _ = rollback(&mut self.conn);
            return Err(StorageError::Sqlite(e));
        }
        Ok(())
    }

    /// Read lines starting from `start_id` (inclusive), up to `count` lines.
    pub fn read_lines(&mut self, start_id: i64, count: u32) -> (r: Result<
        Vec<StoredLine>,
        StorageError,
    >)
        ensures
            final(self).path() == old(self).path(),
            final(self).setup() == old(self).setup(),
            r matches Ok(v) ==> {
                &&& crate::sql::looked(old(self)@, final(self)@)
                &&& final(self)@.now.wf()
                &&& crate::sql::line_rows(v@) == crate::sql::first_n(
                    from_id(final(self)@.now.lines, start_id as int),
                    count as int,
                )
            },
            r matches Err(e) ==> e is Sqlite && crate::sql::failed(old(self)@, final(self)@),
    {
        let r = select_lines(
            &mut self.conn,
            (start_id, i64::MAX),
            (i64::MIN, i64::MAX),
            "",
            count as i64,
        );
        proof {
            reveal_strlit("");
            let rows = self@.now.lines;
            let q = crate::sql::LineQuery {
                first_id: start_id,
                last_id: i64::MAX,
                start_ns: i64::MIN,
                end_ns: i64::MAX,
                needle: ""@,
            };
            assert forall|i: int| 0 <= i < rows.len() implies q.takes(#[trigger] rows[i]) == (
            start_id <= rows[i].id) by {
                empty_contained(rows[i].text, ""@);
            }
            same_filter(rows, |row: LineRow| q.takes(row), |row: LineRow| start_id as int <= row.id);
        }
        match r {
            Ok(v) => Ok(v),
            Err(e) => Err(StorageError::Sqlite(e)),
        }
    }

    /// Get buffer statistics. `db_size_bytes` is the size of the database file.
    pub fn get_stats(&mut self, db_size_bytes: u64) -> (r: Result<BufferStats, StorageError>)
        ensures
            final(self).path() == old(self).path(),
            final(self).setup() == old(self).setup(),
            r matches Ok(s) ==> {
                let rows = final(self)@.now.lines;
                &&& crate::sql::looked(old(self)@, final(self)@)
                &&& final(self)@.now.wf()
                &&& s.total_lines == rows.len()
                &&& s.total_bytes == crate::sql::byte_total(rows)
                &&& crate::sql::latest_ts(rows, s.last_timestamp_ns)
                &&& s.db_size_bytes == db_size_bytes
            },
            r matches Err(e) ==> e is Sqlite && crate::sql::failed(old(self)@, final(self)@),
    {
        match line_figures(&mut self.conn) {
            Ok(f) => Ok(
                BufferStats {
                    total_lines: f.count,
                    total_bytes: f.bytes,
                    last_timestamp_ns: f.latest_ns,
                    db_size_bytes,
                },
            ),
            Err(e) => Err(StorageError::Sqlite(e)),
        }
    }

    /// The largest id among the stored lines, if there are any.
    pub fn last_id(&mut self) -> (r: Result<Option<i64>, StorageError>)
        ensures
            final(self).path() == old(self).path(),
            final(self).setup() == old(self).setup(),
            r matches Ok(id) ==> {
                let rows = final(self)@.now.lines;
                &&& crate::sql::looked(old(self)@, final(self)@)
                &&& final(self)@.now.wf()
                &&& id == (if rows.len() == 0 {
                    None
                } else {
                    Some(rows.last().id)
                })
            },
            r matches Err(e) ==> e is Sqlite && crate::sql::failed(old(self)@, final(self)@),
    {
        match line_figures(&mut self.conn) {
            Ok(f) => Ok(f.last_id),
            Err(e) => Err(StorageError::Sqlite(e)),
        }
    }

    /// The lines that contain `query`, within the time range where one is given; the first `limit`
    /// of them, or all where `limit` is negative.
    fn find(&mut self, query: &str, time_range: Option<TimeRange>, limit: i64) -> (r: Result<
        Vec<StoredLine>,
        StorageError,
    >)
        ensures
            final(self).path() == old(self).path(),
            final(self).setup() == old(self).setup(),
            r matches Ok(v) ==> {
                &&& crate::sql::looked(old(self)@, final(self)@)
                &&& final(self)@.now.wf()
                &&& crate::sql::line_rows(v@) == crate::sql::first_n(
                    hits(final(self)@.now.lines, query@, time_range),
                    limit as int,
                )
            },
            r matches Err(e) ==> e is Sqlite && crate::sql::failed(old(self)@, final(self)@),
    {
        let times: (i64, i64) = match time_range {
            Some(t) => (t.start_ns, t.end_ns),
            None => (i64::MIN, i64::MAX),
        };
        let r = select_lines(&mut self.conn, (i64::MIN, i64::MAX), times, query, limit);
        proof {
            let q = crate::sql::LineQuery {
                first_id: i64::MIN,
                last_id: i64::MAX,
                start_ns: times.0,
                end_ns: times.1,
                needle: query@,
            };
            same_filter(
                self@.now.lines,
                |row: LineRow| q.takes(row),
                |row: LineRow| hit(row, query@, time_range),
            );
        }
        match r {
            Ok(v) => Ok(v),
            Err(e) => Err(StorageError::Sqlite(e)),
        }
    }

    /// Search for lines containing a substring, optionally within a time range.
    pub fn search_substring(
        &mut self,
        query: &str,
        time_range: Option<TimeRange>,
        limit: u32,
    ) -> (r: Result<Vec<StoredLine>, StorageError>)
        ensures
            final(self).path() == old(self).path(),
            final(self).setup() == old(self).setup(),
            r matches Ok(v) ==> {
                &&& crate::sql::looked(old(self)@, final(self)@)
                &&& final(self)@.now.wf()
                &&& crate::sql::line_rows(v@) == crate::sql::first_n(
                    hits(final(self)@.now.lines, query@, time_range),
                    limit as int,
                )
            },
            r matches Err(e) ==> e is Sqlite && crate::sql::failed(old(self)@, final(self)@),
    {
        self.find(query, time_range, limit as i64)
    }

    /// Every line within the time range, or every line where none is given.
    pub fn lines_in(&mut self, time_range: Option<TimeRange>) -> (r: Result<
        Vec<StoredLine>,
        StorageError,
    >)
        ensures
            final(self).path() == old(self).path(),
            final(self).setup() == old(self).setup(),
            r matches Ok(v) ==> {
                &&& crate::sql::looked(old(self)@, final(self)@)
                &&& final(self)@.now.wf()
                &&& crate::sql::line_rows(v@) == within(final(self)@.now.lines, time_range)
            },
            r matches Err(e) ==> e is Sqlite && crate::sql::failed(old(self)@, final(self)@),
    {
        let r = self.find("", time_range, -1);
        proof {
            reveal_strlit("");
            let rows = self@.now.lines;
            assert forall|i: int| 0 <= i < rows.len() implies hit(
                #[trigger] rows[i],
                ""@,
                time_range,
            ) == covers(time_range, rows[i]) by {
                empty_contained(rows[i].text, ""@);
            }
            same_filter(
                rows,
                |row: LineRow| hit(row, ""@, time_range),
                |row: LineRow| covers(time_range, row),
            );
        }
        r
    }

    /// Search for lines within a time range.
    pub fn search_time_range(&mut self, start_ns: i64, end_ns: i64, limit: u32) -> (r: Result<
        Vec<StoredLine>,
        StorageError,
    >)
        ensures
            final(self).path() == old(self).path(),
            final(self).setup() == old(self).setup(),
            r matches Ok(v) ==> {
                &&& crate::sql::looked(old(self)@, final(self)@)
                &&& final(self)@.now.wf()
                &&& crate::sql::line_rows(v@) == crate::sql::first_n(
                    in_time(final(self)@.now.lines, TimeRange { start_ns, end_ns }),
                    limit as int,
                )
            },
            r matches Err(e) ==> e is Sqlite && crate::sql::failed(old(self)@, final(self)@),
    {
        let r = select_lines(
            &mut self.conn,
            (i64::MIN, i64::MAX),
            (start_ns, end_ns),
            "",
            limit as i64,
        );
        proof {
            reveal_strlit("");
            let rows = self@.now.lines;
            let range = TimeRange { start_ns, end_ns };
            let q = crate::sql::LineQuery {
                first_id: i64::MIN,
                last_id: i64::MAX,
                start_ns,
                end_ns,
                needle: ""@,
            };
            assert forall|i: int| 0 <= i < rows.len() implies q.takes(#[trigger] rows[i]) == (
            start_ns <= rows[i].ts <= end_ns) by {
                empty_contained(rows[i].text, ""@);
            }
            same_filter(
                rows,
                |row: LineRow| q.takes(row),
                |row: LineRow| range.start_ns <= row.ts <= range.end_ns,
            );
        }
        match r {
            Ok(v) => Ok(v),
            Err(e) => Err(StorageError::Sqlite(e)),
        }
    }

    /// Replace what the tables hold by the given lines, commands and largest ids, in a single
    /// transaction.
    fn refill(
        &mut self,
        lines: &Vec<StoredLine>,
        commands: &Vec<StoredCommand>,
        last: (i64, i64),
    ) -> (r: Result<(), StorageError>)
        requires
            ({
                let t = tables_of(lines@, commands@, last);
                t.wf()
            }),
        ensures
            final(self).path() == old(self).path(),
            final(self).setup() == old(self).setup(),
            r is Ok ==> final(self)@.now == tables_of(lines@, commands@, last),
            r matches Err(e) ==> e is Sqlite,
    {
        if let Err(e) = begin(&mut self.conn) {
            return Err(StorageError::Sqlite(e));
        }
        if let Err(e) = keep_last_lines(&mut self.conn, 0) {
            let _ = rollback(&mut self.conn);
            return Err(StorageError::Sqlite(e));
        }
        if let Err(e) = keep_last_commands(&mut self.conn, 0) {
            let _ = rollback(&mut self.conn);
            return Err(StorageError::Sqlite(e));
        }
        if let Err(e) = put_counters(&mut self.conn, last.0, last.1) {
            let _ = rollback(&mut self.conn);
            return Err(StorageError::Sqlite(e));
        }
        let mut i: usize = 0;
        proof {
            assert(self@.now.lines =~= crate::sql::line_rows(lines@.take(0)));
        }
        while i < lines.len()
            invariant
                i <= lines@.len(),
                tables_of(lines@, commands@, last).wf(),
                self.path() == old(self).path(),
                self.setup() == old(self).setup(),
                self@.saved is Some,
                self@.wrote,
                self@.now.lines == crate::sql::line_rows(lines@.take(i as int)),
                self@.now.commands.len() == 0,
                self@.now.last_line == last.0,
                self@.now.last_command == last.1,
            decreases lines@.len() - i,
        {
            let ghost before = self@.now;
            if let Err(e) = insert_line_as(&mut self.conn, &lines[i]) {
                let _ = rollback(&mut self.conn);
                return Err(StorageError::Sqlite(e));
            }
            proof {
                let all = tables_of(lines@, commands@, last).lines;
                assert(all[i as int] == lines@[i as int].row());
                assert forall|k: int| 0 <= k < before.lines.len() implies (
                #[trigger] before.lines[k]).id < lines@[i as int].id by {
                    assert(before.lines[k] == all[k]);
                }
                line_comes_last(before, lines@[i as int].row());
                assert(self@.now.lines =~= crate::sql::line_rows(lines@.take(i + 1)));
            }
            i = i + 1;
        }
        proof {
            assert(lines@.take(lines@.len() as int) =~= lines@);
            assert(self@.now.commands =~= crate::sql::command_rows(commands@.take(0)));
        }
        let mut k: usize = 0;
        while k < commands.len()
            invariant
                k <= commands@.len(),
                tables_of(lines@, commands@, last).wf(),
                self.path() == old(self).path(),
                self.setup() == old(self).setup(),
                self@.saved is Some,
                self@.wrote,
                self@.now.lines == crate::sql::line_rows(lines@),
                self@.now.commands == crate::sql::command_rows(commands@.take(k as int)),
                self@.now.last_line == last.0,
                self@.now.last_command == last.1,
            decreases commands@.len() - k,
        {
            let ghost before = self@.now;
            if let Err(e) = insert_command_as(&mut self.conn, &commands[k]) {
                let _ = rollback(&mut self.conn);
                return Err(StorageError::Sqlite(e));
            }
            proof {
                let all = tables_of(lines@, commands@, last).commands;
                assert(all[k as int] == commands@[k as int].row());
                assert forall|m: int| 0 <= m < before.commands.len() implies (
                #[trigger] before.commands[m]).id < commands@[k as int].id by {
                    assert(before.commands[m] == all[m]);
                }
                command_comes_last(before, commands@[k as int].row());
                assert(self@.now.commands =~= crate::sql::command_rows(commands@.take(k + 1)));
            }
            k = k + 1;
        }
        proof {
            assert(commands@.take(commands@.len() as int) =~= commands@);
        }
        if let Err(e) = commit(&mut self.conn) {
            let _ = rollback(&mut self.conn);
            return Err(StorageError::Sqlite(e));
        }
        Ok(())
    }

    /// Copy the tables to the database in the file `path`, in place of what it held. The write lock is
    /// held, so that what is copied is what is there.
    fn copy_to(&mut self, path: &str) -> (r: Result<SqliteStorage, StorageError>)
        requires
            old(self)@.wrote,
            old(self)@.saved is Some,
        ensures
            final(self).path() == old(self).path(),
            final(self).setup() == old(self).setup(),
            r matches Ok(a) ==> {
                &&& final(self)@ == old(self)@
                &&& final(self)@.now.wf()
                &&& archived(a, path@, final(self)@.now)
            },
            r matches Err(e) ==> e is Sqlite && crate::sql::failed(old(self)@, final(self)@),
    {
        let mut archive = match SqliteStorage::open(path) {
            Ok(a) => a,
            Err(e) => return Err(e),
        };
        let lines = match self.lines_in(None) {
            Ok(v) => v,
            Err(e) => return Err(e),
        };
        let commands = match select_command_rows(&mut self.conn) {
            Ok(v) => v,
            Err(e) => return Err(StorageError::Sqlite(e)),
        };
        let last = match select_counters(&mut self.conn) {
            Ok(n) => n,
            Err(e) => return Err(StorageError::Sqlite(e)),
        };
        proof {
            filter_all(self@.now.lines, |row: LineRow| covers(None, row));
            assert(tables_of(lines@, commands@, last) == self@.now);
        }
        match archive.refill(&lines, &commands, last) {
            Ok(()) => Ok(archive),
            Err(e) => Err(e),
        }
    }

    /// Clear all lines. The ids are not handed out again. Where an archive is named and the
    /// database is not `:memory:`, the tables are copied there first, and the archive is handed back;
    /// what could not be copied is not cleared. Where an error is handed back, the lines are still
    /// there, or only the shrinking of the file has failed.
    pub fn clear(&mut self, archive: Option<&str>) -> (r: Result<
        Option<SqliteStorage>,
        StorageError,
    >)
        ensures
            final(self).path() == old(self).path(),
            final(self).setup() == old(self).setup(),
            r matches Ok(a) ==> (a is Some <==> archive is Some && old(self).path()
                != ":memory:"@),
            r == Ok::<Option<SqliteStorage>, StorageError>(None) ==> lines_cleared(
                old(self)@,
                final(self)@,
            ),
            r matches Ok(Some(a)) ==> exists|base: LineTables| #[trigger]
                archive_made(old(self)@, base, final(self)@, a, archive->0@),
            r matches Err(e) ==> e is Sqlite && if archive is Some && old(self).path()
                != ":memory:"@ {
                ||| given_up(old(self)@, final(self)@)
                ||| exists|base: LineTables, a: SqliteStorage| #[trigger]
                    archive_made(old(self)@, base, final(self)@, a, archive->0@)
            } else {
                ||| crate::sql::failed(old(self)@, final(self)@)
                ||| lines_cleared(old(self)@, final(self)@)
            },
    {
        let target: Option<&str> = if same_text(self.db_path.as_str(), ":memory:") {
            None
        } else {
            archive
        };
        let ghost start = self@;
        let copy: Option<SqliteStorage> = match target {
            None => None,
            Some(path) => {
                if let Err(e) = begin_write(&mut self.conn) {
                    return Err(StorageError::Sqlite(e));
                }
                match self.copy_to(path) {
                    Ok(a) => Some(a),
                    Err(e) => {
                        let _ = rollback(&mut self.conn);
                        return Err(e);
                    },
                }
            },
        };
        let ghost before = self@;
        if let Err(e) = delete_lines(&mut self.conn) {
            if copy.is_some() {
                let _ = rollback(&mut self.conn);
            }
            return Err(StorageError::Sqlite(e));
        }
        let ghost base = choose|b: LineTables| #[trigger]
            crate::sql::found(before, b) && b.wf() && crate::sql::wrote_to(
                before,
                self@,
                b,
                b.without_lines(),
            );
        if copy.is_some() {
            if let Err(e) = commit(&mut self.conn) {
                let _ = rollback(&mut self.conn);
                return Err(StorageError::Sqlite(e));
            }
        }
        let shrunk = vacuum(&mut self.conn);
        proof {
            assert(cleared_from(start, base, self@));
            if copy is Some {
                assert(archive_made(start, base, self@, copy->0, archive->0@));
            }
        }
        match shrunk {
            Ok(()) => Ok(copy),
            Err(e) => Err(StorageError::Sqlite(e)),
        }
    }

    /// Export a range of lines by id (inclusive).
    pub fn export_range(&mut self, start_id: i64, end_id: i64) -> (r: Result<
        Vec<StoredLine>,
        StorageError,
    >)
        ensures
            final(self).path() == old(self).path(),
            final(self).setup() == old(self).setup(),
            r matches Ok(v) ==> {
                &&& crate::sql::looked(old(self)@, final(self)@)
                &&& final(self)@.now.wf()
                &&& crate::sql::line_rows(v@) == id_range(
                    final(self)@.now.lines,
                    start_id as int,
                    end_id as int,
                )
            },
            r matches Err(e) ==> e is Sqlite && crate::sql::failed(old(self)@, final(self)@),
    {
        let r = select_lines(&mut self.conn, (start_id, end_id), (i64::MIN, i64::MAX), "", -1);
        proof {
            reveal_strlit("");
            let rows = self@.now.lines;
            let q = crate::sql::LineQuery {
                first_id: start_id,
                last_id: end_id,
                start_ns: i64::MIN,
                end_ns: i64::MAX,
                needle: ""@,
            };
            assert forall|i: int| 0 <= i < rows.len() implies q.takes(#[trigger] rows[i]) == (
            start_id <= rows[i].id <= end_id) by {
                empty_contained(rows[i].text, ""@);
            }
            same_filter(
                rows,
                |row: LineRow| q.takes(row),
                |row: LineRow| start_id as int <= row.id <= end_id as int,
            );
        }
        match r {
            Ok(v) => Ok(v),
            Err(e) => Err(StorageError::Sqlite(e)),
        }
    }

    /// Append a command, sent at `ts`, to the send history, which keeps the last 1000 entries.
    pub fn append_send_history(&mut self, ts: i64, command: &str) -> (r: Result<(), StorageError>)
        ensures
            final(self).path() == old(self).path(),
            final(self).setup() == old(self).setup(),
            r is Ok ==> exists|mid: Db<LineTables>| #[trigger]
                command_stored(old(self)@, mid, ts, command@) && history_cut(mid, final(self)@),
            r matches Err(e) ==> e is Sqlite && (crate::sql::failed(old(self)@, final(self)@)
                || exists|mid: Db<LineTables>| #[trigger]
                command_stored(old(self)@, mid, ts, command@) && crate::sql::failed(
                    mid,
                    final(self)@,
                )),
    {
        if let Err(e) = insert_command(&mut self.conn, ts, command) {
            return Err(StorageError::Sqlite(e));
        }
        let ghost mid = self@;
        proof {
            assert(command_stored(old(self)@, mid, ts, command@));
        }
        if let Err(e) = keep_last_commands(&mut self.conn, SEND_HISTORY_CAP) {
            return Err(StorageError::Sqlite(e));
        }
        proof {
            assert(history_cut(mid, self@));
        }
        Ok(())
    }

    /// Load the most recent send history entries, the oldest first.
    pub fn load_send_history(&mut self, limit: u32) -> (r: Result<Vec<String>, StorageError>)
        ensures
            final(self).path() == old(self).path(),
            final(self).setup() == old(self).setup(),
            r matches Ok(v) ==> {
                &&& crate::sql::looked(old(self)@, final(self)@)
                &&& final(self)@.now.wf()
                &&& crate::text::texts(v@) == crate::sql::command_texts(
                    crate::sql::last_n(final(self)@.now.commands, limit as int),
                )
            },
            r matches Err(e) ==> e is Sqlite && crate::sql::failed(old(self)@, final(self)@),
    {
        match select_commands(&mut self.conn, limit) {
            Ok(v) => Ok(crate::text::reversed(v)),
            Err(e) => Err(StorageError::Sqlite(e)),
        }
    }

    /// Trim the buffer to keep only the most recent `max_lines`. No-op if 0.
    pub fn trim_lines(&mut self, max_lines: u64) -> (r: Result<(), StorageError>)
        ensures
            final(self).path() == old(self).path(),
            final(self).setup() == old(self).setup(),
            max_lines == 0 ==> r is Ok && final(self)@ == old(self)@,
            max_lines > i64::MAX ==> r is Err,
            r is Ok && max_lines > 0 ==> lines_cut(old(self)@, final(self)@, max_lines as int),
            r matches Err(e) ==> e is Sqlite && crate::sql::failed(old(self)@, final(self)@),
    {
        if max_lines == 0 {
            return Ok(());
        }
        if let Err(e) = keep_last_lines(&mut self.conn, max_lines) {
            return Err(StorageError::Sqlite(e));
        }
        proof {
            assert(lines_cut(old(self)@, self@, max_lines as int));
        }
        Ok(())
    }

    /// The path of the database file.
    pub fn db_path(&self) -> (r: &str)
        ensures
            r@ == self.path(),
    {
        self.db_path.as_str()
    }
}

// --- Laws ---

/// The rows that the lines become when the largest id handed out is `last`.
pub open spec fn numbered(lines: Seq<(i64, &str)>, last: int) -> Seq<LineRow> {
    Seq::new(
        lines.len(),
        |i: int| LineRow { id: (last + 1 + i) as i64, ts: lines[i].0, text: lines[i].1@ },
    )
}

/// Storing a batch appends its lines in their order, under consecutive ids after the largest ever
/// handed out, and leaves the earlier lines and the send history as they were.
pub proof fn law_batch_appended(t: LineTables, lines: Seq<(i64, &str)>)
    requires
        t.wf(),
        t.last_line + lines.len() <= i64::MAX,
    ensures
        with_lines(t, lines) == (LineTables {
            lines: t.lines + numbered(lines, t.last_line),
            last_line: t.last_line + lines.len(),
            ..t
        }),
        with_lines(t, lines).wf(),
    decreases lines.len(),
{
    if lines.len() == 0 {
        assert(t.lines + numbered(lines, t.last_line) =~= t.lines);
    } else {
        let rest = lines.drop_last();
        law_batch_appended(t, rest);
        assert(numbered(lines, t.last_line) =~= numbered(rest, t.last_line).push(
            numbered(lines, t.last_line).last(),
        ));
        assert(with_lines(t, lines).lines =~= t.lines + numbered(lines, t.last_line));
    }
}

/// Rows with ascending ids, those with an id of at least `first`: a tail of the rows.
pub proof fn from_id_is_tail(rows: Seq<LineRow>, first: int) -> (k: int)
    requires
        forall|i: int, j: int| 0 <= i < j < rows.len() ==> rows[i].id < rows[j].id,
    ensures
        0 <= k <= rows.len(),
        from_id(rows, first) == rows.skip(k),
        forall|i: int| 0 <= i < k ==> (#[trigger] rows[i]).id < first,
        forall|i: int| k <= i < rows.len() ==> (#[trigger] rows[i]).id >= first,
    decreases rows.len(),
{
    reveal(Seq::filter);
    if rows.len() == 0 {
        assert(from_id(rows, first) =~= rows.skip(0));
        0
    } else {
        let front = rows.drop_last();
        assert forall|i: int, j: int| 0 <= i < j < front.len() implies front[i].id
            < front[j].id by {
            assert(front[i] == rows[i] && front[j] == rows[j]);
        }
        let k = from_id_is_tail(front, first);
        assert forall|i: int| 0 <= i < k implies (#[trigger] rows[i]).id < first by {
            assert(rows[i] == front[i]);
        }
        if first <= rows.last().id {
            assert forall|i: int| k <= i < rows.len() implies (#[trigger] rows[i]).id >= first by {
                if i < front.len() {
                    assert(rows[i] == front[i]);
                }
            }
            assert(from_id(rows, first) =~= rows.skip(k));
            k
        } else {
            assert(k == front.len()) by {
                if k < front.len() {
                    assert(front[k].id >= first);
                    assert(rows[k].id < rows.last().id);
                }
            }
            assert(from_id(rows, first) =~= rows.skip(rows.len() as int));
            rows.len() as int
        }
    }
}

/// What a batch stored is what a read from its first id on gives back, in order and complete.
pub proof fn law_read_back(t: LineTables, lines: Seq<(i64, &str)>, count: int)
    requires
        t.wf(),
        t.last_line + lines.len() <= i64::MAX,
        count >= lines.len(),
    ensures
        crate::sql::first_n(from_id(with_lines(t, lines).lines, t.last_line + 1), count)
            == numbered(lines, t.last_line),
{
    law_batch_appended(t, lines);
    let rows = with_lines(t, lines).lines;
    let k = from_id_is_tail(rows, t.last_line + 1);
    let n = t.lines.len() as int;
    assert(k == n) by {
        if k < n {
            assert(rows[k] == t.lines[k]);
        }
        if k > n {
            assert(rows[n].id == t.last_line + 1);
        }
    }
    assert(rows.skip(n) =~= numbered(lines, t.last_line));
}

/// The ids of the stored lines are positive, have no gaps and end with the largest handed out.
pub open spec fn gapless(t: LineTables) -> bool {
    &&& t.lines.len() <= t.last_line
    &&& forall|i: int|
        0 <= i < t.lines.len() ==> (#[trigger] t.lines[i]).id == t.last_line - t.lines.len() + 1 + i
}

/// No operation tears a gap into the ids: a new database has none, and storing, trimming, clearing
/// and the send history keep it so.
pub proof fn law_no_gaps(
    t: LineTables,
    lines: Seq<(i64, &str)>,
    n: int,
    ts: i64,
    command: Seq<char>,
)
    requires
        t.wf(),
        gapless(t),
        t.last_line + lines.len() <= i64::MAX,
    ensures
        gapless(LineTables::fresh()),
        gapless(with_lines(t, lines)),
        gapless(t.keeping_lines(n)),
        gapless(t.without_lines()),
        gapless(t.with_command(ts, command)),
        gapless(t.keeping_commands(n)),
{
    law_batch_appended(t, lines);
    let u = with_lines(t, lines);
    assert forall|i: int| 0 <= i < u.lines.len() implies (#[trigger] u.lines[i]).id == u.last_line
        - u.lines.len() + 1 + i by {
        if i < t.lines.len() {
            assert(u.lines[i] == t.lines[i]);
        }
    }
    let v = t.keeping_lines(n);
    assert forall|i: int| 0 <= i < v.lines.len() implies (#[trigger] v.lines[i]).id == v.last_line
        - v.lines.len() + 1 + i by {
        assert(v.lines[i] == t.lines[t.lines.len() - v.lines.len() + i]);
    }
}

/// Trimming keeps the most recent lines: at most `n` are left, and each of them is newer than each
/// one that went.
pub proof fn law_trim_keeps_newest(t: LineTables, n: int)
    requires
        t.wf(),
        n >= 0,
    ensures
        t.keeping_lines(n).lines.len() == (if n < t.lines.len() {
            n
        } else {
            t.lines.len() as int
        }),
        forall|i: int, j: int|
            0 <= i < t.lines.len() - t.keeping_lines(n).lines.len() && 0 <= j
                < t.keeping_lines(n).lines.len() ==> (#[trigger] t.lines[i]).id < (
            #[trigger] t.keeping_lines(n).lines[j]).id,
        t.keeping_lines(n).lines == t.lines.skip(t.lines.len() - t.keeping_lines(n).lines.len()),
        t.keeping_lines(n).wf(),
{
    let kept = t.keeping_lines(n).lines;
    let gone = t.lines.len() - kept.len();
    assert(kept =~= t.lines.skip(gone));
    assert forall|i: int, j: int| 0 <= i < gone && 0 <= j < kept.len() implies (
    #[trigger] t.lines[i]).id < (#[trigger] kept[j]).id by {
        assert(kept[j] == t.lines[gone + j]);
    }
}

/// After a clear no line is left, and the next line gets an id that no line had before.
pub proof fn law_clear_keeps_counting(t: LineTables, ts: i64, text: Seq<char>)
    requires
        t.wf(),
        t.last_line < i64::MAX,
    ensures
        t.without_lines().lines.len() == 0,
        t.without_lines().wf(),
        t.without_lines().with_line(ts, text).lines == seq![
            LineRow { id: (t.last_line + 1) as i64, ts, text },
        ],
        forall|i: int| 0 <= i < t.lines.len() ==> (#[trigger] t.lines[i]).id < t.last_line + 1,
{
    assert(t.without_lines().with_line(ts, text).lines =~= seq![
        LineRow { id: (t.last_line + 1) as i64, ts, text },
    ]);
}

/// Reading page by page gives every line once: a full page, and the page from the id after its last
/// line on, are together one longer page.
pub proof fn law_pages_join(t: LineTables, first: int, n: int, m: int)
    requires
        t.wf(),
        n > 0,
        m >= 0,
        from_id(t.lines, first).len() >= n,
    ensures
        ({
            let page = crate::sql::first_n(from_id(t.lines, first), n);
            page + crate::sql::first_n(from_id(t.lines, page.last().id + 1), m)
                == crate::sql::first_n(from_id(t.lines, first), n + m)
        }),
{
    let rows = t.lines;
    let k = from_id_is_tail(rows, first);
    let page = crate::sql::first_n(from_id(rows, first), n);
    assert(page =~= rows.skip(k).take(n));
    assert(page.last() == rows[k + n - 1]);
    let l = from_id_is_tail(rows, page.last().id + 1);
    assert(l == k + n) by {
        if l < k + n {
            assert(rows[k + n - 1].id >= page.last().id + 1);
        }
        if l > k + n {
            assert(rows[k + n].id < page.last().id + 1);
            assert(rows[k + n - 1].id < rows[k + n].id);
        }
    }
    assert(page + crate::sql::first_n(rows.skip(k + n), m) =~= crate::sql::first_n(
        rows.skip(k),
        n + m,
    ));
}

/// A search finds a line exactly when the line is stored, lies in the time range and mentions the
/// text.
pub proof fn law_search_exact(
    rows: Seq<LineRow>,
    query: Seq<char>,
    range: Option<TimeRange>,
    row: LineRow,
)
    ensures
        hits(rows, query, range).contains(row) <==> rows.contains(row) && hit(row, query, range),
{
    rows.filter_lemma(|r: LineRow| hit(r, query, range));
    let found = hits(rows, query, range);
    if found.contains(row) {
        let i = found.index_of(row);
        assert(hit(found[i], query, range));
        filter_subset(rows, |r: LineRow| hit(r, query, range), row);
    }
    if rows.contains(row) && hit(row, query, range) {
        let i = rows.index_of(row);
        assert(hit(rows[i], query, range));
    }
}

/// What a filter picks was there.
pub proof fn filter_subset<A>(s: Seq<A>, p: spec_fn(A) -> bool, a: A)
    requires
        s.filter(p).contains(a),
    ensures
        s.contains(a),
    decreases s.len(),
{
    reveal(Seq::filter);
    if s.len() > 0 {
        let front = s.drop_last();
        if front.filter(p).contains(a) {
            filter_subset(front, p, a);
            let i = front.index_of(a);
            assert(s[i] == a);
        } else {
            assert(s.filter(p) == front.filter(p).push(s.last()));
            let i = s.filter(p).index_of(a);
            assert(i == front.filter(p).len()) by {
                if i < front.filter(p).len() {
                    assert(front.filter(p)[i] == a);
                }
            }
            assert(s[s.len() - 1] == a);
        }
    }
}

/// An export of a range of stored ids gives every one of them, both ends included.
pub proof fn law_export_inclusive(t: LineTables, first: int, last: int)
    requires
        t.wf(),
        gapless(t),
        t.last_line - t.lines.len() < first <= last <= t.last_line,
    ensures
        id_range(t.lines, first, last).len() == last - first + 1,
        forall|i: int|
            0 <= i <= last - first ==> (#[trigger] id_range(t.lines, first, last)[i]).id == first
                + i,
{
    let rows = t.lines;
    let base = t.last_line - rows.len() + 1;
    export_slice(rows, base, first, last);
}

/// Of rows numbered from `base` on, those in an id range are a slice.
proof fn export_slice(rows: Seq<LineRow>, base: int, first: int, last: int)
    requires
        forall|i: int| 0 <= i < rows.len() ==> (#[trigger] rows[i]).id == base + i,
        base <= first <= last + 1,
    ensures
        ({
            let a = if first - base < rows.len() { first - base } else { rows.len() as int };
            let b = if last + 1 - base < rows.len() { last + 1 - base } else { rows.len() as int };
            id_range(rows, first, last) == rows.subrange(a, b)
        }),
    decreases rows.len(),
{
    reveal(Seq::filter);
    let a = if first - base < rows.len() { first - base } else { rows.len() as int };
    let b = if last + 1 - base < rows.len() { last + 1 - base } else { rows.len() as int };
    if rows.len() > 0 {
        let front = rows.drop_last();
        assert forall|i: int| 0 <= i < front.len() implies (#[trigger] front[i]).id == base
            + i by {
            assert(front[i] == rows[i]);
        }
        export_slice(front, base, first, last);
        assert(rows.last().id == base + rows.len() - 1);
        assert(id_range(rows, first, last) =~= rows.subrange(a, b));
    } else {
        assert(id_range(rows, first, last) =~= rows.subrange(a, b));
    }
}

/// Appending a command keeps the last 1000 entries of the history with the command at its end, in
/// their order; what is loaded afterwards is their texts.
pub proof fn law_history_capped(t: LineTables, ts: i64, command: Seq<char>)
    ensures
        ({
            let kept = t.with_command(ts, command).keeping_commands(
                SEND_HISTORY_CAP as int,
            ).commands;
            let row = CommandRow { id: (t.last_command + 1) as i64, ts, text: command };
            &&& kept == crate::sql::last_n(t.commands.push(row), SEND_HISTORY_CAP as int)
            &&& crate::sql::command_texts(kept) == crate::sql::last_n(
                crate::sql::command_texts(t.commands).push(command),
                SEND_HISTORY_CAP as int,
            )
            &&& kept.len() <= SEND_HISTORY_CAP
            &&& kept.last().text == command
        }),
{
    let kept = t.with_command(ts, command).keeping_commands(SEND_HISTORY_CAP as int).commands;
    assert(crate::sql::command_texts(kept) =~= crate::sql::last_n(
        crate::sql::command_texts(t.commands).push(command),
        SEND_HISTORY_CAP as int,
    ));
}

/// A batch is stored as a whole or not at all. On success all its lines last, and nothing else that
/// the call wrote. After a failure nothing that the call wrote lasts: the tables that last are those
/// that it found; those of a private database are as they were.
pub proof fn law_all_or_none(old: Db<LineTables>, new: Db<LineTables>, lines: Seq<(i64, &str)>)
    requires
        old.saved is None,
    ensures
        batch_stored(old, new, lines) ==> new.kept == old.kept + lines.len() && exists|
            base: LineTables,
        | #[trigger]
            crate::sql::found(old, base) && lasting(new) == with_lines(base, lines),
        batch_stored(old, new, lines) && old.alone ==> lasting(new) == with_lines(
            lasting(old),
            lines,
        ),
        given_up(old, new) ==> new.kept == old.kept && crate::sql::found(old, lasting(new)),
        given_up(old, new) && old.alone ==> lasting(new) == lasting(old),
{
}

/// `got` are the first `n` of the wanted rows by their ids, or all of them where `n` is negative.
/// Each row that was got is stored and wanted, the ids ascend, and a wanted row that was not got comes
/// after as many others as may be got.
pub open spec fn are_first(
    got: Seq<LineRow>,
    rows: Seq<LineRow>,
    want: spec_fn(LineRow) -> bool,
    n: int,
) -> bool {
    &&& forall|i: int| 0 <= i < got.len() ==> rows.contains(#[trigger] got[i]) && want(got[i])
    &&& forall|i: int, j: int| 0 <= i < j < got.len() ==> got[i].id < got[j].id
    &&& n >= 0 ==> got.len() <= n
    &&& forall|row: LineRow| #[trigger]
        rows.contains(row) && want(row) ==> got.contains(row) || n >= 0 && got.len() == n && (n == 0
            || got.last().id < row.id)
}

/// The front of a filter holds the first rows that pass.
pub proof fn picked_are_first(t: LineTables, p: spec_fn(LineRow) -> bool, n: int)
    requires
        t.wf(),
    ensures
        are_first(crate::sql::first_n(t.lines.filter(p), n), t.lines, p, n),
{
    let rows = t.lines;
    let all = rows.filter(p);
    let got = crate::sql::first_n(all, n);
    filter_ascends(rows, p);
    assert forall|i: int| 0 <= i < got.len() implies rows.contains(#[trigger] got[i]) && p(
        got[i],
    ) by {
        assert(got[i] == all[i]);
        rows.lemma_filter_pred(p, i);
        assert(all.contains(all[i]));
        filter_subset(rows, p, all[i]);
    }
    assert forall|row: LineRow| #[trigger] rows.contains(row) && p(row) implies got.contains(row)
        || n >= 0 && got.len() == n && (n == 0 || got.last().id < row.id) by {
        let k = rows.index_of(row);
        rows.lemma_filter_contains(p, k);
        let i = all.index_of(row);
        if i < got.len() {
            assert(got[i] == row);
        } else {
            assert(all[i] == row);
            if n > 0 {
                assert(got.last() == all[n - 1]);
            }
        }
    }
}

/// A read from an id on gives the stored lines with that id or a larger one, the first of them.
pub proof fn law_read_exact(t: LineTables, start_id: i64, count: u32)
    requires
        t.wf(),
    ensures
        are_first(
            crate::sql::first_n(from_id(t.lines, start_id as int), count as int),
            t.lines,
            |row: LineRow| row.id >= start_id,
            count as int,
        ),
{
    let want = |row: LineRow| row.id >= start_id;
    same_filter(t.lines, |row: LineRow| start_id as int <= row.id, want);
    picked_are_first(t, want, count as int);
}

/// A search in time gives the stored lines whose time stamp is not before the start and not after the
/// end, the first of them.
pub proof fn law_time_search_exact(t: LineTables, start_ns: i64, end_ns: i64, limit: u32)
    requires
        t.wf(),
    ensures
        are_first(
            crate::sql::first_n(in_time(t.lines, TimeRange { start_ns, end_ns }), limit as int),
            t.lines,
            |row: LineRow| row.ts >= start_ns && row.ts <= end_ns,
            limit as int,
        ),
{
    let want = |row: LineRow| row.ts >= start_ns && row.ts <= end_ns;
    let range = TimeRange { start_ns, end_ns };
    same_filter(t.lines, |row: LineRow| range.start_ns <= row.ts <= range.end_ns, want);
    picked_are_first(t, want, limit as int);
}

/// A substring search gives the stored lines that contain the text as it is written, and whose time
/// stamp is in the range where one is given, the first of them; and the lines in a range are all of
/// those and no others.
pub proof fn law_substring_search_exact(
    t: LineTables,
    query: Seq<char>,
    range: Option<TimeRange>,
    limit: u32,
)
    requires
        t.wf(),
    ensures
        are_first(
            crate::sql::first_n(hits(t.lines, query, range), limit as int),
            t.lines,
            |row: LineRow|
                crate::text::has_infix(row.text, query) && (range is None || row.ts
                    >= range->0.start_ns && row.ts <= range->0.end_ns),
            limit as int,
        ),
        are_first(
            within(t.lines, range),
            t.lines,
            |row: LineRow|
                range is None || row.ts >= range->0.start_ns && row.ts <= range->0.end_ns,
            -1,
        ),
{
    let want = |row: LineRow|
        crate::text::has_infix(row.text, query) && (range is None || row.ts >= range->0.start_ns
            && row.ts <= range->0.end_ns);
    same_filter(t.lines, |row: LineRow| hit(row, query, range), want);
    picked_are_first(t, want, limit as int);
    let timely = |row: LineRow|
        range is None || row.ts >= range->0.start_ns && row.ts <= range->0.end_ns;
    same_filter(t.lines, |row: LineRow| covers(range, row), timely);
    picked_are_first(t, timely, -1);
}

/// A range of ids gives every stored line from the first id to the last, both included.
pub proof fn law_id_range_exact(t: LineTables, start_id: i64, end_id: i64)
    requires
        t.wf(),
    ensures
        are_first(
            id_range(t.lines, start_id as int, end_id as int),
            t.lines,
            |row: LineRow| row.id >= start_id && row.id <= end_id,
            -1,
        ),
{
    let want = |row: LineRow| row.id >= start_id && row.id <= end_id;
    same_filter(t.lines, |row: LineRow| start_id as int <= row.id <= end_id as int, want);
    picked_are_first(t, want, -1);
}

/// A batch leaves the lines before it, the send history and its counter as they are. Its own lines
/// come behind them, in their order, each with its time stamp and its text, under ids that go on from
/// the largest ever handed out.
pub proof fn law_batch_rows(t: LineTables, lines: Seq<(i64, &str)>)
    requires
        t.wf(),
        t.last_line + lines.len() <= i64::MAX,
    ensures
        ({
            let after = with_lines(t, lines);
            &&& after.lines.len() == t.lines.len() + lines.len()
            &&& forall|i: int| 0 <= i < t.lines.len() ==> #[trigger] after.lines[i] == t.lines[i]
            &&& forall|i: int|
                0 <= i < lines.len() ==> {
                    let row = #[trigger] after.lines[t.lines.len() + i];
                    row.id == t.last_line + 1 + i && row.ts == lines[i].0 && row.text
                        == lines[i].1@
                }
            &&& after.last_line == t.last_line + lines.len()
            &&& after.commands == t.commands
            &&& after.last_command == t.last_command
        }),
{
    law_batch_appended(t, lines);
}

/// What trimming and clearing do to a private database: trimming to `n` drops lines from the front
/// until `n` are left, clearing drops all; neither changes a line that is left, the send history or
/// the counters.
pub proof fn law_trim_and_clear(
    old: Db<LineTables>,
    trimmed: Db<LineTables>,
    cleared: Db<LineTables>,
    n: int,
)
    requires
        old.alone,
        n >= 0,
        lines_cut(old, trimmed, n),
        lines_cleared(old, cleared),
    ensures
        old.now.lines.len() <= n ==> trimmed.now.lines == old.now.lines,
        old.now.lines.len() > n ==> trimmed.now.lines.len() == n && forall|i: int|
            0 <= i < n ==> #[trigger] trimmed.now.lines[i] == old.now.lines[old.now.lines.len() - n
                + i],
        cleared.now.lines.len() == 0,
        trimmed.now.commands == old.now.commands && cleared.now.commands == old.now.commands,
        trimmed.now.last_line == old.now.last_line && cleared.now.last_line == old.now.last_line,
        trimmed.now.last_command == old.now.last_command && cleared.now.last_command
            == old.now.last_command,
{
}

/// A command that is appended to the history of a private database is its newest entry, with its
/// time; the entries before it are the newest of those that were there, so many that there are at
/// most 1000; the lines stay as they are.
pub proof fn law_command_appended(
    old: Db<LineTables>,
    mid: Db<LineTables>,
    new: Db<LineTables>,
    ts: i64,
    command: Seq<char>,
)
    requires
        old.alone,
        command_stored(old, mid, ts, command),
        history_cut(mid, new),
    ensures
        ({
            let kept = new.now.commands;
            let before = old.now.commands;
            &&& kept.len() == (if before.len() < 1000 {
                before.len() + 1
            } else {
                1000
            })
            &&& kept.last().text == command
            &&& kept.last().ts == ts
            &&& forall|i: int|
                0 <= i < kept.len() - 1 ==> #[trigger] kept[i] == before[before.len() - (kept.len()
                    - 1) + i]
        }),
        new.now.lines == old.now.lines,
        new.now.last_line == old.now.last_line,
{
    let kept = new.now.commands;
    let before = old.now.commands;
    assert(mid.now.commands.len() == before.len() + 1);
    assert forall|i: int| 0 <= i < kept.len() - 1 implies #[trigger] kept[i] == before[before.len()
        - (kept.len() - 1) + i] by {
        let k = mid.now.commands.len() - kept.len() + i;
        assert(kept[i] == mid.now.commands[k]);
        assert(mid.now.commands[k] == before[k]);
    }
}

/// A call that only looks leaves a private database as it was, and where it holds the write lock any
/// other.
pub proof fn law_looking_changes_nothing(old: Db<LineTables>, new: Db<LineTables>)
    requires
        crate::sql::looked(old, new),
        old.alone || old.saved is Some && old.wrote,
    ensures
        new == old,
{
}

/// Stored lines stand for rows one for one, with their ids, time stamps and texts.
pub proof fn law_rows_of_lines(v: Seq<StoredLine>)
    ensures
        crate::sql::line_rows(v).len() == v.len(),
        forall|i: int|
            0 <= i < v.len() ==> {
                let row = #[trigger] crate::sql::line_rows(v)[i];
                row.id == v[i].id && row.ts == v[i].timestamp_ns && row.text == v[i].payload@
            },
{
}

/// The bytes of lines add up, each line counting with its length in UTF-8.
pub proof fn law_bytes_add_up(a: Seq<LineRow>, b: Seq<LineRow>, row: LineRow)
    ensures
        crate::sql::byte_total(a + b) == crate::sql::byte_total(a) + crate::sql::byte_total(b),
        crate::sql::byte_total(seq![row]) == vstd::utf8::encode_utf8(row.text).len(),
    decreases b.len(),
{
    reveal_with_fuel(crate::sql::byte_total, 2);
    assert(seq![row].drop_last() =~= Seq::empty());
    if b.len() == 0 {
        assert(a + b =~= a);
    } else {
        law_bytes_add_up(a, b.drop_last(), row);
        assert((a + b).drop_last() =~= a + b.drop_last());
    }
}

/// The message of an error says what failed and then the reason, in the words of what gave it.
pub proof fn law_error_messages(e: StorageError)
    ensures
        e matches StorageError::Sqlite(why) ==> e.kind() + e.words() == "sqlite error: "@
            + crate::sql::sqlite_reason(why),
        e matches StorageError::Io(why) ==> e.kind() + e.words() == "io error: "@ + why@,
        e matches StorageError::InvalidRegex(why) ==> e.kind() + e.words() == "invalid regex: "@
            + crate::pattern::regex_reason(why),
{
}

/// In a private database a batch that is stored is behind the lines that were there, each line with its
/// time stamp, its text and the next id, and nothing else changes.
pub proof fn law_batch_in_private(
    before: Db<LineTables>,
    after: Db<LineTables>,
    lines: Seq<(i64, &str)>,
)
    requires
        before.alone,
        before.now.wf(),
        before.now.last_line + lines.len() <= i64::MAX,
        batch_stored(before, after, lines),
    ensures
        after.now.lines.len() == before.now.lines.len() + lines.len(),
        forall|i: int|
            0 <= i < before.now.lines.len() ==> #[trigger] after.now.lines[i]
                == before.now.lines[i],
        forall|i: int|
            0 <= i < lines.len() ==> {
                let row = #[trigger] after.now.lines[before.now.lines.len() + i];
                row.id == before.now.last_line + 1 + i && row.ts == lines[i].0 && row.text
                    == lines[i].1@
            },
        after.now.commands == before.now.commands,
        after.kept == before.kept + lines.len(),
{
    law_batch_rows(before.now, lines);
}

/// A batch that fails leaves a private database as it was: what lasts are the lines, the send history
/// and the counters from before.
pub proof fn law_failed_batch(before: Db<LineTables>, after: Db<LineTables>)
    requires
        before.alone,
        before.saved is None,
        given_up(before, after),
    ensures
        after.saved is None ==> after.now == before.now,
        after.saved matches Some(t) ==> t == before.now,
        after.kept == before.kept,
{
}

/// An archive is made in the named file and holds the lines, the send history and the counters as they
/// were; then no line is left, and the history and the counters stay.
pub proof fn law_archive(
    before: Db<LineTables>,
    base: LineTables,
    after: Db<LineTables>,
    a: SqliteStorage,
    path: Seq<char>,
)
    requires
        before.alone,
        archive_made(before, base, after, a, path),
    ensures
        a.path() == path,
        a@.now.lines == before.now.lines,
        a@.now.commands == before.now.commands,
        a@.now.last_line == before.now.last_line && a@.now.last_command == before.now.last_command,
        after.now.lines.len() == 0,
        after.now.commands == before.now.commands,
        after.now.last_line == before.now.last_line && after.now.last_command
            == before.now.last_command,
{
}

/// Tables that are made of rows hold those rows, one for one.
pub proof fn law_tables_of(
    lines: Seq<StoredLine>,
    commands: Seq<StoredCommand>,
    last: (i64, i64),
)
    ensures
        ({
            let t = tables_of(lines, commands, last);
            &&& t.lines.len() == lines.len()
            &&& t.commands.len() == commands.len()
            &&& forall|i: int|
                0 <= i < lines.len() ==> {
                    let row = #[trigger] t.lines[i];
                    row.id == lines[i].id && row.ts == lines[i].timestamp_ns && row.text
                        == lines[i].payload@
                }
            &&& forall|i: int|
                0 <= i < commands.len() ==> {
                    let row = #[trigger] t.commands[i];
                    row.id == commands[i].id && row.ts == commands[i].timestamp_ns && row.text
                        == commands[i].command@
                }
            &&& t.last_line == last.0
            &&& t.last_command == last.1
        }),
{
}

/// A database of a port that is set up has the tables for lines, in the file that was named.
pub proof fn law_port_setup(path: Seq<char>, pragmas: bool)
    ensures
        port_setup(path, pragmas).path == path,
        port_setup(path, pragmas).pragmas == pragmas,
        port_setup(path, pragmas).line_tables,
        !port_setup(path, pragmas).state_tables,
{
}

} // verus!
