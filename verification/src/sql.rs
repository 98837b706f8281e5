//! The SQLite connections: what their tables hold, and one function per statement.
//!
//! A connection stands for a small relational state. Its tables have a present state (`now`) and,
//! while a transaction is open, the state that a rollback goes back to (`saved`). A database in a
//! file can be changed by another process between two calls, unless this connection holds the
//! write lock; so each statement speaks of the state that it found. A private in-memory database
//! is found as it was left.
use vstd::prelude::*;
use vstd::utf8::encode_utf8;

use crate::storage::StoredLine;
use crate::text::has_infix;

verus! {

/// A connection of rusqlite. What its tables hold is named by `line_db` and `state_db`.
#[verifier::external_type_specification]
#[verifier::external_body]
pub struct ExConnection(rusqlite::Connection);

/// An error of rusqlite, carried through.
#[verifier::external_type_specification]
#[verifier::external_body]
pub struct ExSqliteError(rusqlite::Error);

/// An error of rusqlite in words.
pub uninterp spec fn sqlite_reason(e: rusqlite::Error) -> Seq<char>;

/// `to_string` of an error of rusqlite: its reason in words.
#[verifier::external_body]
pub(crate) fn reason(e: &rusqlite::Error) -> (r: String)
    ensures
        r@ == sqlite_reason(*e),
{
    e.to_string()
}

// --- The model ---

/// What a connection sees of its database, and what it wrote.
pub struct Db<T> {
    /// The tables as the last call left them.
    pub now: T,
    /// The tables that a rollback restores, while a transaction is open: those at its beginning,
    /// or, once it has the write lock, those that its first write found.
    pub saved: Option<T>,
    /// The open transaction has the write lock: it has written, or was begun for writing.
    pub wrote: bool,
    /// The database was opened by `open_in_memory`, so that no other connection reaches it.
    pub alone: bool,
    /// How many of the calls that write rows have succeeded on this connection and last: made
    /// outside a transaction, or in one that was committed.
    pub kept: nat,
    /// How many of them have succeeded in the open transaction.
    pub pending: nat,
}

/// The next call finds the tables as the last one left them.
pub open spec fn settled<T>(d: Db<T>) -> bool {
    d.alone || d.saved is Some && d.wrote
}

/// `base` may be what the next call on `d` finds in the tables.
pub open spec fn found<T>(d: Db<T>, base: T) -> bool {
    settled(d) ==> base == d.now
}

/// `new` is `old` after a call that left the tables as it found them, and wrote nothing.
pub open spec fn looked<T>(old: Db<T>, new: Db<T>) -> bool {
    found(old, new.now) && new == (Db { now: new.now, ..old })
}

/// A connection after a call that found the tables as `base` and wrote, so that they are `t`.
pub open spec fn after_write<T>(old: Db<T>, base: T, t: T) -> Db<T> {
    match old.saved {
        Some(s) => Db {
            now: t,
            saved: Some(
                if old.wrote {
                    s
                } else {
                    base
                },
            ),
            wrote: true,
            pending: old.pending + 1,
            ..old
        },
        None => Db { now: t, wrote: false, kept: old.kept + 1, pending: 0, ..old },
    }
}

/// `new` is `old` after a call that found the tables as `base` and wrote, so that they are `t`.
pub open spec fn wrote_to<T>(old: Db<T>, new: Db<T>, base: T, t: T) -> bool {
    new == after_write(old, base, t)
}

/// `new` is `old` after its transaction was given up: nothing that it wrote lasts.
pub open spec fn undone<T>(old: Db<T>, new: Db<T>) -> bool {
    &&& old.saved is Some
    &&& new.saved is None
    &&& !new.wrote
    &&& new.alone == old.alone
    &&& new.kept == old.kept
    &&& new.pending == 0
    &&& settled(old) ==> new.now == old.saved->0
}

/// `new` is `old` after a statement that failed: its effects are taken back, and where the failure
/// was grave, those of the whole open transaction.
pub open spec fn failed<T>(old: Db<T>, new: Db<T>) -> bool {
    looked(old, new) || undone(old, new)
}

/// A connection that has just been opened on the tables `t`.
pub open spec fn untouched<T>(t: T, alone: bool) -> Db<T> {
    Db { now: t, saved: None, wrote: false, alone, kept: 0, pending: 0 }
}

/// What was set up on a connection.
#[verifier::ext_equal]
pub struct Setup {
    /// The path or address that it was opened with.
    pub path: Seq<char>,
    /// The journal, the flushing and the patience with locks were chosen.
    pub pragmas: bool,
    /// The tables of a port's database were created where they were missing.
    pub line_tables: bool,
    /// The tables of the state database were created where they were missing.
    pub state_tables: bool,
}

/// A connection on which nothing was set up yet.
pub open spec fn bare(path: Seq<char>) -> Setup {
    Setup { path, pragmas: false, line_tables: false, state_tables: false }
}

/// A stored line.
pub struct LineRow {
    pub id: i64,
    pub ts: i64,
    pub text: Seq<char>,
}

/// A command that was sent.
pub struct CommandRow {
    pub id: i64,
    pub ts: i64,
    pub text: Seq<char>,
}

/// The tables of a port's database.
#[verifier::ext_equal]
pub struct LineTables {
    /// The lines by ascending id.
    pub lines: Seq<LineRow>,
    /// The largest line id ever handed out, or 0.
    pub last_line: int,
    /// The commands by ascending id.
    pub commands: Seq<CommandRow>,
    /// The largest command id ever handed out, or 0.
    pub last_command: int,
}

/// `s` without all but its last `n` items.
pub open spec fn last_n<A>(s: Seq<A>, n: int) -> Seq<A> {
    if n >= s.len() {
        s
    } else if n <= 0 {
        Seq::empty()
    } else {
        s.skip(s.len() - n)
    }
}

/// The first `n` items of `s`; all of them where `n` is negative.
pub open spec fn first_n<A>(s: Seq<A>, n: int) -> Seq<A> {
    if n < 0 || n >= s.len() {
        s
    } else {
        s.take(n)
    }
}

impl LineTables {
    pub open spec fn fresh() -> LineTables {
        LineTables {
            lines: Seq::empty(),
            last_line: 0,
            commands: Seq::empty(),
            last_command: 0,
        }
    }

    /// Ids ascend, and none is above the largest handed out.
    pub open spec fn wf(self) -> bool {
        &&& 0 <= self.last_line <= i64::MAX
        &&& 0 <= self.last_command <= i64::MAX
        &&& forall|i: int, j: int|
            0 <= i < j < self.lines.len() ==> self.lines[i].id < self.lines[j].id
        &&& forall|i: int| 0 <= i < self.lines.len() ==> self.lines[i].id <= self.last_line
        &&& forall|i: int, j: int|
            0 <= i < j < self.commands.len() ==> self.commands[i].id < self.commands[j].id
        &&& forall|i: int|
            0 <= i < self.commands.len() ==> self.commands[i].id <= self.last_command
    }

    pub open spec fn with_line(self, ts: i64, text: Seq<char>) -> LineTables {
        LineTables {
            lines: self.lines.push(LineRow { id: (self.last_line + 1) as i64, ts, text }),
            last_line: self.last_line + 1,
            ..self
        }
    }

    /// A line under an id of its own, in its place among the others.
    pub open spec fn with_line_at(self, row: LineRow) -> LineTables {
        LineTables {
            lines: self.lines.filter(|l: LineRow| l.id < row.id).push(row) + self.lines.filter(
                |l: LineRow| l.id > row.id,
            ),
            last_line: if row.id > self.last_line {
                row.id as int
            } else {
                self.last_line
            },
            ..self
        }
    }

    /// A command under an id of its own, in its place among the others.
    pub open spec fn with_command_at(self, row: CommandRow) -> LineTables {
        LineTables {
            commands: self.commands.filter(|c: CommandRow| c.id < row.id).push(row)
                + self.commands.filter(|c: CommandRow| c.id > row.id),
            last_command: if row.id > self.last_command {
                row.id as int
            } else {
                self.last_command
            },
            ..self
        }
    }

    pub open spec fn keeping_lines(self, n: int) -> LineTables {
        LineTables { lines: last_n(self.lines, n), ..self }
    }

    pub open spec fn without_lines(self) -> LineTables {
        LineTables { lines: Seq::empty(), ..self }
    }

    pub open spec fn with_command(self, ts: i64, text: Seq<char>) -> LineTables {
        LineTables {
            commands: self.commands.push(
                CommandRow { id: (self.last_command + 1) as i64, ts, text },
            ),
            last_command: self.last_command + 1,
            ..self
        }
    }

    pub open spec fn keeping_commands(self, n: int) -> LineTables {
        LineTables { commands: last_n(self.commands, n), ..self }
    }
}

/// Which lines a query asks for.
pub struct LineQuery {
    pub first_id: i64,
    pub last_id: i64,
    pub start_ns: i64,
    pub end_ns: i64,
    pub needle: Seq<char>,
}

impl LineQuery {
    pub open spec fn takes(self, row: LineRow) -> bool {
        &&& self.first_id <= row.id <= self.last_id
        &&& self.start_ns <= row.ts <= self.end_ns
        &&& has_infix(row.text, self.needle)
    }

    /// The lines asked for, in the order of their ids.
    pub open spec fn of(self, rows: Seq<LineRow>) -> Seq<LineRow> {
        rows.filter(|row: LineRow| self.takes(row))
    }
}

/// The rows that stored lines stand for.
pub open spec fn line_rows(lines: Seq<StoredLine>) -> Seq<LineRow> {
    lines.map_values(|l: StoredLine| l.row())
}

/// The bytes of all lines in UTF-8.
pub open spec fn byte_total(rows: Seq<LineRow>) -> nat
    decreases rows.len(),
{
    if rows.len() == 0 {
        0
    } else {
        byte_total(rows.drop_last()) + encode_utf8(rows.last().text).len()
    }
}

/// `r` is the largest time stamp of the rows, if there are any.
pub open spec fn latest_ts(rows: Seq<LineRow>, r: Option<i64>) -> bool {
    match r {
        None => rows.len() == 0,
        Some(m) => {
            &&& exists|i: int| 0 <= i < rows.len() && (#[trigger] rows[i]).ts == m
            &&& forall|i: int| 0 <= i < rows.len() ==> (#[trigger] rows[i]).ts <= m
        },
    }
}

/// The texts of the commands.
pub open spec fn command_texts(rows: Seq<CommandRow>) -> Seq<Seq<char>> {
    rows.map_values(|c: CommandRow| c.text)
}

/// What a connection to a port's database holds. A table that does not exist yet holds nothing.
pub uninterp spec fn line_db(c: rusqlite::Connection) -> Db<LineTables>;

/// What was set up on a connection: the path or address that it was opened with, and which of
/// `set_pragmas`, `create_line_tables` and `create_state_tables` have succeeded on it.
pub uninterp spec fn setup(c: rusqlite::Connection) -> Setup;

// --- Connections ---

/// `Connection::open_in_memory` of rusqlite: a new private database, empty, whose address is
/// `:memory:`.
#[verifier::external_body]
pub(crate) fn connect_memory() -> (r: Result<rusqlite::Connection, rusqlite::Error>)
    ensures
        r matches Ok(c) ==> line_db(c) == untouched(LineTables::fresh(), true) && state_db(c)
            == untouched(StateTables::fresh(), true) && setup(c) == bare(":memory:"@),
{
    rusqlite::Connection::open_in_memory()
}

/// `Connection::open` of rusqlite: the database in the file `path`, outside any transaction. What
/// the file holds is not stated, nor that no other process changes it.
#[verifier::external_body]
pub(crate) fn connect_file(path: &str) -> (r: Result<rusqlite::Connection, rusqlite::Error>)
    ensures
        r matches Ok(c) ==> line_db(c) == untouched(line_db(c).now, false) && state_db(c)
            == untouched(state_db(c).now, false) && setup(c) == bare(path@),
{
    rusqlite::Connection::open(path)
}

/// `Connection::execute_batch` of rusqlite on the three pragmas of a database in a file: they
/// choose the journal, the flushing and the patience with locks, and leave the tables alone.
#[verifier::external_body]
pub(crate) fn set_pragmas(c: &mut rusqlite::Connection) -> (r: Result<(), rusqlite::Error>)
    requires
        line_db(*old(c)).saved is None,
        state_db(*old(c)).saved is None,
    ensures
        r is Ok ==> setup(*final(c)) == (Setup { pragmas: true, ..setup(*old(c)) }),
        r is Err ==> setup(*final(c)) == setup(*old(c)),
        looked(line_db(*old(c)), line_db(*final(c))),
        looked(state_db(*old(c)), state_db(*final(c))),
{
    c.execute_batch(
        "PRAGMA journal_mode=WAL; PRAGMA synchronous=NORMAL; PRAGMA busy_timeout=5000;",
    )
}

/// `Connection::execute_batch` of rusqlite: the tables of a port's database are there afterwards,
/// and those that were there keep their rows.
#[verifier::external_body]
pub(crate) fn create_line_tables(c: &mut rusqlite::Connection) -> (r: Result<(), rusqlite::Error>)
    requires
        line_db(*old(c)).saved is None,
    ensures
        r is Ok ==> setup(*final(c)) == (Setup { line_tables: true, ..setup(*old(c)) }),
        r is Err ==> setup(*final(c)) == setup(*old(c)),
        looked(line_db(*old(c)), line_db(*final(c))),
{
    c.execute_batch(
        "CREATE TABLE IF NOT EXISTS lines (
            id INTEGER PRIMARY KEY AUTOINCREMENT,
            timestamp_ns INTEGER NOT NULL,
            payload TEXT NOT NULL
        );
        CREATE INDEX IF NOT EXISTS idx_timestamp ON lines(timestamp_ns);
        CREATE TABLE IF NOT EXISTS send_history (
            id INTEGER PRIMARY KEY AUTOINCREMENT,
            timestamp_ns INTEGER NOT NULL,
            command TEXT NOT NULL
        );",
    )
}

// --- Transactions ---

/// `Connection::execute_batch` of rusqlite on `BEGIN`: a transaction is open. It fails where one is
/// open already.
#[verifier::external_body]
pub(crate) fn begin(c: &mut rusqlite::Connection) -> (r: Result<(), rusqlite::Error>)
    ensures
        setup(*final(c)) == setup(*old(c)),
        r is Ok ==> line_db(*old(c)).saved is None && line_db(*final(c)) == (Db {
            saved: Some(line_db(*old(c)).now),
            wrote: false,
            pending: 0,
            ..line_db(*old(c))
        }),
        r is Err ==> line_db(*final(c)) == line_db(*old(c)),
{
    c.execute_batch("BEGIN")
}

/// `Connection::execute_batch` of rusqlite on `BEGIN IMMEDIATE`: a transaction is open that alone
/// may write. It fails where one is open already.
#[verifier::external_body]
pub(crate) fn begin_write(c: &mut rusqlite::Connection) -> (r: Result<(), rusqlite::Error>)
    ensures
        setup(*final(c)) == setup(*old(c)),
        r is Ok ==> line_db(*old(c)).saved is None && exists|base: LineTables| #[trigger]
            found(line_db(*old(c)), base) && line_db(*final(c)) == (Db {
                now: base,
                saved: Some(base),
                wrote: true,
                pending: 0,
                ..line_db(*old(c))
            }),
        r is Err ==> line_db(*final(c)) == line_db(*old(c)),
{
    c.execute_batch("BEGIN IMMEDIATE")
}

/// `Connection::execute_batch` of rusqlite on `COMMIT`: what the transaction wrote stays.
#[verifier::external_body]
pub(crate) fn commit(c: &mut rusqlite::Connection) -> (r: Result<(), rusqlite::Error>)
    ensures
        setup(*final(c)) == setup(*old(c)),
        r is Ok ==> line_db(*final(c)) == (Db {
            saved: None,
            wrote: false,
            kept: line_db(*old(c)).kept + line_db(*old(c)).pending,
            pending: 0,
            ..line_db(*old(c))
        }),
        r is Err ==> failed(line_db(*old(c)), line_db(*final(c))),
{
    c.execute_batch("COMMIT")
}

/// `Connection::execute_batch` of rusqlite on `ROLLBACK`: what the transaction wrote is gone.
#[verifier::external_body]
pub(crate) fn rollback(c: &mut rusqlite::Connection) -> (r: Result<(), rusqlite::Error>)
    ensures
        setup(*final(c)) == setup(*old(c)),
        r is Ok ==> undone(line_db(*old(c)), line_db(*final(c))),
        r is Err ==> failed(line_db(*old(c)), line_db(*final(c))),
{
    c.execute_batch("ROLLBACK")
}

// --- Lines ---

/// `Statement::execute` of rusqlite on an insertion: the line comes last, under the id after the
/// largest ever handed out. There is none after the largest 64-bit integer.
#[verifier::external_body]
pub(crate) fn insert_line(c: &mut rusqlite::Connection, ts: i64, text: &str) -> (r: Result<
    usize,
    rusqlite::Error,
>)
    ensures
        setup(*final(c)) == setup(*old(c)),
        r is Ok ==> exists|base: LineTables| #[trigger]
            found(line_db(*old(c)), base) && base.wf() && base.last_line < i64::MAX && wrote_to(
                line_db(*old(c)),
                line_db(*final(c)),
                base,
                base.with_line(ts, text@),
            ),
        r is Err ==> failed(line_db(*old(c)), line_db(*final(c))),
{
    c.prepare_cached("INSERT INTO lines (timestamp_ns, payload) VALUES (?1, ?2)")?.execute(
        (ts, text),
    )
}

/// `Statement::query_map` of rusqlite: the lines with an id and a time stamp in the given ranges
/// whose text contains `needle`, by ascending id, the first `limit` of them (all where `limit` is
/// negative). SQLite's `instr` compares byte by byte, past a NUL character too, and finds the empty
/// text anywhere.
#[verifier::external_body]
pub(crate) fn select_lines(
    c: &mut rusqlite::Connection,
    ids: (i64, i64),
    times: (i64, i64),
    needle: &str,
    limit: i64,
) -> (r: Result<Vec<StoredLine>, rusqlite::Error>)
    ensures
        setup(*final(c)) == setup(*old(c)),
        r matches Ok(v) ==> {
            &&& looked(line_db(*old(c)), line_db(*final(c)))
            &&& line_db(*final(c)).now.wf()
            &&& line_rows(v@) == first_n(
                (LineQuery {
                    first_id: ids.0,
                    last_id: ids.1,
                    start_ns: times.0,
                    end_ns: times.1,
                    needle: needle@,
                }).of(line_db(*final(c)).now.lines),
                limit as int,
            )
        },
        r is Err ==> failed(line_db(*old(c)), line_db(*final(c))),
{
    let mut stmt = c.prepare_cached(
        "SELECT id, timestamp_ns, payload FROM lines \
         WHERE id >= ?1 AND id <= ?2 AND timestamp_ns >= ?3 AND timestamp_ns <= ?4 \
         AND instr(payload, ?5) > 0 ORDER BY id LIMIT ?6",
    )?;
    let rows = stmt.query_map((ids.0, ids.1, times.0, times.1, needle, limit), |row| {
        Ok(StoredLine { id: row.get(0)?, timestamp_ns: row.get(1)?, payload: row.get(2)? })
    })?;
    rows.collect()
}

/// The figures of a port's lines.
pub struct LineFigures {
    pub count: u64,
    pub bytes: u64,
    pub latest_ns: Option<i64>,
    pub last_id: Option<i64>,
}

/// `Connection::query_row` of rusqlite on aggregates: how many lines there are, how many bytes they
/// hold in UTF-8, the latest time stamp and the largest id.
#[verifier::external_body]
pub(crate) fn line_figures(c: &mut rusqlite::Connection) -> (r: Result<
    LineFigures,
    rusqlite::Error,
>)
    ensures
        setup(*final(c)) == setup(*old(c)),
        r matches Ok(f) ==> {
            let rows = line_db(*final(c)).now.lines;
            &&& looked(line_db(*old(c)), line_db(*final(c)))
            &&& line_db(*final(c)).now.wf()
            &&& f.count == rows.len()
            &&& f.bytes == byte_total(rows)
            &&& latest_ts(rows, f.latest_ns)
            &&& f.last_id == (if rows.len() == 0 {
                None
            } else {
                Some(rows.last().id)
            })
        },
        r is Err ==> failed(line_db(*old(c)), line_db(*final(c))),
{
    c.query_row(
        "SELECT COUNT(*), COALESCE(SUM(LENGTH(CAST(payload AS BLOB))), 0), \
         MAX(timestamp_ns), MAX(id) FROM lines",
        (),
        |r| {
            Ok(LineFigures {
                count: r.get(0)?, bytes: r.get(1)?, latest_ns: r.get(2)?, last_id: r.get(3)?,
            })
        },
    )
}

/// `Connection::execute` of rusqlite: the last `n` lines stay, the others go. A count above the
/// largest 64-bit signed integer is refused.
#[verifier::external_body]
pub(crate) fn keep_last_lines(c: &mut rusqlite::Connection, n: u64) -> (r: Result<
    usize,
    rusqlite::Error,
>)
    ensures
        setup(*final(c)) == setup(*old(c)),
        n > i64::MAX ==> r is Err,
        r is Ok ==> exists|base: LineTables| #[trigger]
            found(line_db(*old(c)), base) && base.wf() && wrote_to(
                line_db(*old(c)),
                line_db(*final(c)),
                base,
                base.keeping_lines(n as int),
            ),
        r is Err ==> failed(line_db(*old(c)), line_db(*final(c))),
{
    c.execute(
        "DELETE FROM lines WHERE id NOT IN (SELECT id FROM lines ORDER BY id DESC LIMIT ?1)",
        (n,),
    )
}

/// `Connection::execute` of rusqlite on a deletion: every line goes, the ids that were handed out
/// are not handed out again.
#[verifier::external_body]
pub(crate) fn delete_lines(c: &mut rusqlite::Connection) -> (r: Result<usize, rusqlite::Error>)
    ensures
        setup(*final(c)) == setup(*old(c)),
        r is Ok ==> exists|base: LineTables| #[trigger]
            found(line_db(*old(c)), base) && base.wf() && wrote_to(
                line_db(*old(c)),
                line_db(*final(c)),
                base,
                base.without_lines(),
            ),
        r is Err ==> failed(line_db(*old(c)), line_db(*final(c))),
{
    c.execute("DELETE FROM lines", ())
}

/// `Connection::execute_batch` of rusqlite on `VACUUM`: the file shrinks, the tables stay as they
/// are. It fails while a transaction is open, and leaves it open.
#[verifier::external_body]
pub(crate) fn vacuum(c: &mut rusqlite::Connection) -> (r: Result<(), rusqlite::Error>)
    ensures
        setup(*final(c)) == setup(*old(c)),
        looked(line_db(*old(c)), line_db(*final(c))),
{
    c.execute_batch("VACUUM")
}

/// `Statement::execute` of rusqlite on an insertion with an id: the line comes to its place among
/// the ids. It fails where the id is taken.
#[verifier::external_body]
pub(crate) fn insert_line_as(c: &mut rusqlite::Connection, l: &StoredLine) -> (r: Result<
    usize,
    rusqlite::Error,
>)
    ensures
        setup(*final(c)) == setup(*old(c)),
        r is Ok ==> exists|base: LineTables| #[trigger]
            found(line_db(*old(c)), base) && base.wf() && wrote_to(
                line_db(*old(c)),
                line_db(*final(c)),
                base,
                base.with_line_at(l.row()),
            ),
        r is Err ==> failed(line_db(*old(c)), line_db(*final(c))),
{
    c.prepare_cached("INSERT INTO lines (id, timestamp_ns, payload) VALUES (?1, ?2, ?3)")?.execute(
        (l.id, l.timestamp_ns, &l.payload),
    )
}

/// `Connection::query_row` of rusqlite: the largest ids ever handed out, that of the lines and that
/// of the commands. They stand in SQLite's table of counters, which is never behind the rows.
#[verifier::external_body]
pub(crate) fn select_counters(c: &mut rusqlite::Connection) -> (r: Result<
    (i64, i64),
    rusqlite::Error,
>)
    ensures
        setup(*final(c)) == setup(*old(c)),
        r matches Ok(n) ==> {
            &&& looked(line_db(*old(c)), line_db(*final(c)))
            &&& line_db(*final(c)).now.wf()
            &&& n.0 == line_db(*final(c)).now.last_line
            &&& n.1 == line_db(*final(c)).now.last_command
        },
        r is Err ==> failed(line_db(*old(c)), line_db(*final(c))),
{
    c.query_row(
        "SELECT \
         MAX(COALESCE((SELECT seq FROM sqlite_sequence WHERE name = 'lines'), 0), \
             COALESCE((SELECT MAX(id) FROM lines), 0)), \
         MAX(COALESCE((SELECT seq FROM sqlite_sequence WHERE name = 'send_history'), 0), \
             COALESCE((SELECT MAX(id) FROM send_history), 0))",
        (),
        |r| Ok((r.get(0)?, r.get(1)?)),
    )
}

/// `Connection::execute_batch` of rusqlite on SQLite's table of counters, in a transaction that has
/// the write lock, the tables being empty: the next ids are those after the given ones. Where it
/// fails, what the counters are in the open transaction is not stated.
#[verifier::external_body]
pub(crate) fn put_counters(c: &mut rusqlite::Connection, last_line: i64, last_command: i64) -> (r:
    Result<(), rusqlite::Error>)
    requires
        line_db(*old(c)).saved is Some,
        line_db(*old(c)).wrote,
        line_db(*old(c)).now.lines.len() == 0,
        line_db(*old(c)).now.commands.len() == 0,
        last_line >= 0,
        last_command >= 0,
    ensures
        setup(*final(c)) == setup(*old(c)),
        r is Ok ==> wrote_to(
            line_db(*old(c)),
            line_db(*final(c)),
            line_db(*old(c)).now,
            (LineTables {
                last_line: last_line as int,
                last_command: last_command as int,
                ..line_db(*old(c)).now
            }),
        ),
        r is Err ==> undone(line_db(*old(c)), line_db(*final(c))) || line_db(*final(c)) == (Db {
            now: line_db(*final(c)).now,
            ..line_db(*old(c))
        }),
{
    c.execute_batch(&format!(
        "DELETE FROM sqlite_sequence; \
         INSERT INTO sqlite_sequence (name, seq) \
         VALUES ('lines', {last_line}), ('send_history', {last_command});"
    ))
}

// --- Commands ---

/// `Connection::execute` of rusqlite on an insertion: the command comes last, under the id after
/// the largest ever handed out.
#[verifier::external_body]
pub(crate) fn insert_command(c: &mut rusqlite::Connection, ts: i64, command: &str) -> (r: Result<
    usize,
    rusqlite::Error,
>)
    ensures
        setup(*final(c)) == setup(*old(c)),
        r is Ok ==> exists|base: LineTables| #[trigger]
            found(line_db(*old(c)), base) && base.wf() && base.last_command < i64::MAX && wrote_to(
                line_db(*old(c)),
                line_db(*final(c)),
                base,
                base.with_command(ts, command@),
            ),
        r is Err ==> failed(line_db(*old(c)), line_db(*final(c))),
{
    c.execute("INSERT INTO send_history (timestamp_ns, command) VALUES (?1, ?2)", (ts, command))
}

/// `Connection::execute` of rusqlite: the last `n` commands stay, the others go.
#[verifier::external_body]
pub(crate) fn keep_last_commands(c: &mut rusqlite::Connection, n: u32) -> (r: Result<
    usize,
    rusqlite::Error,
>)
    ensures
        setup(*final(c)) == setup(*old(c)),
        r is Ok ==> exists|base: LineTables| #[trigger]
            found(line_db(*old(c)), base) && base.wf() && wrote_to(
                line_db(*old(c)),
                line_db(*final(c)),
                base,
                base.keeping_commands(n as int),
            ),
        r is Err ==> failed(line_db(*old(c)), line_db(*final(c))),
{
    c.execute(
        "DELETE FROM send_history WHERE id NOT IN \
         (SELECT id FROM send_history ORDER BY id DESC LIMIT ?1)",
        (n,),
    )
}

/// `Statement::query_map` of rusqlite: the last `limit` commands, the newest first.
#[verifier::external_body]
pub(crate) fn select_commands(c: &mut rusqlite::Connection, limit: u32) -> (r: Result<
    Vec<String>,
    rusqlite::Error,
>)
    ensures
        setup(*final(c)) == setup(*old(c)),
        r matches Ok(v) ==> {
            &&& looked(line_db(*old(c)), line_db(*final(c)))
            &&& line_db(*final(c)).now.wf()
            &&& crate::text::texts(v@) == command_texts(
                last_n(line_db(*final(c)).now.commands, limit as int),
            ).reverse()
        },
        r is Err ==> failed(line_db(*old(c)), line_db(*final(c))),
{
    let mut stmt = c.prepare_cached("SELECT command FROM send_history ORDER BY id DESC LIMIT ?1")?;
    let rows = stmt.query_map((limit,), |row| row.get::<_, String>(0))?;
    rows.collect()
}

/// A command of the send history, with its id and its time.
pub struct StoredCommand {
    pub id: i64,
    pub timestamp_ns: i64,
    pub command: String,
}

impl StoredCommand {
    /// The row that the command stands for.
    pub open spec fn row(self) -> CommandRow {
        CommandRow { id: self.id, ts: self.timestamp_ns, text: self.command@ }
    }
}

/// The rows that stored commands stand for.
pub open spec fn command_rows(v: Seq<StoredCommand>) -> Seq<CommandRow> {
    v.map_values(|c: StoredCommand| c.row())
}

/// `Statement::query_map` of rusqlite: every command, by ascending id.
#[verifier::external_body]
pub(crate) fn select_command_rows(c: &mut rusqlite::Connection) -> (r: Result<
    Vec<StoredCommand>,
    rusqlite::Error,
>)
    ensures
        setup(*final(c)) == setup(*old(c)),
        r matches Ok(v) ==> {
            &&& looked(line_db(*old(c)), line_db(*final(c)))
            &&& line_db(*final(c)).now.wf()
            &&& command_rows(v@) == line_db(*final(c)).now.commands
        },
        r is Err ==> failed(line_db(*old(c)), line_db(*final(c))),
{
    let mut stmt = c.prepare("SELECT id, timestamp_ns, command FROM send_history ORDER BY id")?;
    let rows = stmt.query_map((), |row| {
        Ok(StoredCommand { id: row.get(0)?, timestamp_ns: row.get(1)?, command: row.get(2)? })
    })?;
    rows.collect()
}

/// `Statement::execute` of rusqlite on an insertion with an id: the command comes to its place
/// among the ids. It fails where the id is taken.
#[verifier::external_body]
pub(crate) fn insert_command_as(c: &mut rusqlite::Connection, l: &StoredCommand) -> (r: Result<
    usize,
    rusqlite::Error,
>)
    ensures
        setup(*final(c)) == setup(*old(c)),
        r is Ok ==> exists|base: LineTables| #[trigger]
            found(line_db(*old(c)), base) && base.wf() && wrote_to(
                line_db(*old(c)),
                line_db(*final(c)),
                base,
                base.with_command_at(l.row()),
            ),
        r is Err ==> failed(line_db(*old(c)), line_db(*final(c))),
{
    c.execute(
        "INSERT INTO send_history (id, timestamp_ns, command) VALUES (?1, ?2, ?3)",
        (l.id, l.timestamp_ns, &l.command),
    )
}

// --- The state database ---

/// An active port.
pub struct PortRow {
    pub json: Seq<char>,
    pub opened_at: i64,
}

/// A command that was sent to a port.
pub struct SentRow {
    pub id: i64,
    pub port: Seq<char>,
    pub ts: i64,
    pub text: Seq<char>,
}

/// The tables of the state database.
#[verifier::ext_equal]
pub struct StateTables {
    /// The active ports by name.
    pub ports: Map<Seq<char>, PortRow>,
    /// The commands by ascending id.
    pub sent: Seq<SentRow>,
    /// The largest command id ever handed out, or 0.
    pub last_sent: int,
}

/// The commands sent to `port`, in their order.
pub open spec fn sent_to(rows: Seq<SentRow>, port: Seq<char>) -> Seq<SentRow> {
    rows.filter(|s: SentRow| s.port == port)
}

/// The texts of the commands.
pub open spec fn sent_texts(rows: Seq<SentRow>) -> Seq<Seq<char>> {
    rows.map_values(|s: SentRow| s.text)
}

/// The command `s` stays when only the last `n` of `port` are kept.
pub open spec fn stays(rows: Seq<SentRow>, port: Seq<char>, n: int, s: SentRow) -> bool {
    s.port != port || last_n(sent_to(rows, port), n).contains(s)
}

impl StateTables {
    pub open spec fn fresh() -> StateTables {
        StateTables { ports: Map::empty(), sent: Seq::empty(), last_sent: 0 }
    }

    /// Ids ascend, and none is above the largest handed out.
    pub open spec fn wf(self) -> bool {
        &&& 0 <= self.last_sent <= i64::MAX
        &&& forall|i: int, j: int|
            0 <= i < j < self.sent.len() ==> self.sent[i].id < self.sent[j].id
        &&& forall|i: int| 0 <= i < self.sent.len() ==> self.sent[i].id <= self.last_sent
    }

    pub open spec fn with_port(self, name: Seq<char>, row: PortRow) -> StateTables {
        StateTables { ports: self.ports.insert(name, row), ..self }
    }

    pub open spec fn without_port(self, name: Seq<char>) -> StateTables {
        StateTables { ports: self.ports.remove(name), ..self }
    }

    pub open spec fn with_sent(self, port: Seq<char>, ts: i64, text: Seq<char>) -> StateTables {
        StateTables {
            sent: self.sent.push(SentRow { id: (self.last_sent + 1) as i64, port, ts, text }),
            last_sent: self.last_sent + 1,
            ..self
        }
    }

    pub open spec fn keeping_sent(self, port: Seq<char>, n: int) -> StateTables {
        StateTables {
            sent: self.sent.filter(|s: SentRow| stays(self.sent, port, n, s)),
            ..self
        }
    }
}

/// What a connection to the state database holds. A table that does not exist yet holds nothing.
pub uninterp spec fn state_db(c: rusqlite::Connection) -> Db<StateTables>;

/// `Connection::execute_batch` of rusqlite: the tables of the state database are there afterwards,
/// and those that were there keep their rows.
#[verifier::external_body]
pub(crate) fn create_state_tables(c: &mut rusqlite::Connection) -> (r: Result<
    (),
    rusqlite::Error,
>)
    requires
        state_db(*old(c)).saved is None,
    ensures
        r is Ok ==> setup(*final(c)) == (Setup { state_tables: true, ..setup(*old(c)) }),
        r is Err ==> setup(*final(c)) == setup(*old(c)),
        looked(state_db(*old(c)), state_db(*final(c))),
{
    c.execute_batch(
        "CREATE TABLE IF NOT EXISTS ports (
            name TEXT PRIMARY KEY, config_json TEXT NOT NULL, opened_at INTEGER NOT NULL
        );
        CREATE TABLE IF NOT EXISTS send_history (
            id INTEGER PRIMARY KEY AUTOINCREMENT, port_name TEXT NOT NULL,
            timestamp_ns INTEGER NOT NULL, command TEXT NOT NULL
        );
        CREATE INDEX IF NOT EXISTS idx_send_history_port ON send_history(port_name, id);",
    )
}

/// `Connection::execute` of rusqlite on `INSERT OR REPLACE`: the port has this row, whatever row it
/// had before.
#[verifier::external_body]
pub(crate) fn put_port(
    c: &mut rusqlite::Connection,
    name: &str,
    json: &str,
    opened_at: i64,
) -> (r: Result<usize, rusqlite::Error>)
    ensures
        setup(*final(c)) == setup(*old(c)),
        r is Ok ==> exists|base: StateTables| #[trigger]
            found(state_db(*old(c)), base) && base.wf() && wrote_to(
                state_db(*old(c)),
                state_db(*final(c)),
                base,
                base.with_port(name@, PortRow { json: json@, opened_at }),
            ),
        r is Err ==> failed(state_db(*old(c)), state_db(*final(c))),
{
    c.execute(
        "INSERT OR REPLACE INTO ports (name, config_json, opened_at) VALUES (?1, ?2, ?3)",
        (name, json, opened_at),
    )
}

/// `Connection::execute` of rusqlite on a deletion: the port has no row.
#[verifier::external_body]
pub(crate) fn delete_port(c: &mut rusqlite::Connection, name: &str) -> (r: Result<
    usize,
    rusqlite::Error,
>)
    ensures
        setup(*final(c)) == setup(*old(c)),
        r is Ok ==> exists|base: StateTables| #[trigger]
            found(state_db(*old(c)), base) && base.wf() && wrote_to(
                state_db(*old(c)),
                state_db(*final(c)),
                base,
                base.without_port(name@),
            ),
        r is Err ==> failed(state_db(*old(c)), state_db(*final(c))),
{
    c.execute("DELETE FROM ports WHERE name = ?1", (name,))
}

/// `v` lists the names and the configurations of `ports`, each port once, in some order.
pub open spec fn lists_ports(v: Seq<(String, String)>, ports: Map<Seq<char>, PortRow>) -> bool {
    &&& forall|i: int, j: int| 0 <= i < j < v.len() ==> v[i].0@ != v[j].0@
    &&& forall|i: int|
        0 <= i < v.len() ==> ports.contains_key((#[trigger] v[i]).0@) && ports[v[i].0@].json
            == v[i].1@
    &&& forall|name: Seq<char>| #[trigger]
        ports.contains_key(name) ==> exists|i: int| 0 <= i < v.len() && (#[trigger] v[i]).0@ == name
}

/// `Statement::query_map` of rusqlite: every active port with its configuration, each once. SQLite
/// leaves the order open.
#[verifier::external_body]
pub(crate) fn select_ports(c: &mut rusqlite::Connection) -> (r: Result<
    Vec<(String, String)>,
    rusqlite::Error,
>)
    ensures
        setup(*final(c)) == setup(*old(c)),
        r matches Ok(v) ==> {
            &&& looked(state_db(*old(c)), state_db(*final(c)))
            &&& state_db(*final(c)).now.wf()
            &&& lists_ports(v@, state_db(*final(c)).now.ports)
        },
        r is Err ==> failed(state_db(*old(c)), state_db(*final(c))),
{
    let mut stmt = c.prepare("SELECT name, config_json FROM ports")?;
    let rows = stmt.query_map((), |row| Ok((row.get(0)?, row.get(1)?)))?;
    rows.collect()
}

/// `Connection::execute` of rusqlite on an insertion: the command comes last, under the id after
/// the largest ever handed out.
#[verifier::external_body]
pub(crate) fn insert_sent(c: &mut rusqlite::Connection, port: &str, ts: i64, command: &str) -> (r:
    Result<usize, rusqlite::Error>)
    ensures
        setup(*final(c)) == setup(*old(c)),
        r is Ok ==> exists|base: StateTables| #[trigger]
            found(state_db(*old(c)), base) && base.wf() && base.last_sent < i64::MAX && wrote_to(
                state_db(*old(c)),
                state_db(*final(c)),
                base,
                base.with_sent(port@, ts, command@),
            ),
        r is Err ==> failed(state_db(*old(c)), state_db(*final(c))),
{
    c.execute(
        "INSERT INTO send_history (port_name, timestamp_ns, command) VALUES (?1, ?2, ?3)",
        (port, ts, command),
    )
}

/// `Connection::execute` of rusqlite: of the commands sent to `port` the last `n` stay; those sent
/// to other ports all stay.
#[verifier::external_body]
pub(crate) fn keep_last_sent(c: &mut rusqlite::Connection, port: &str, n: u32) -> (r: Result<
    usize,
    rusqlite::Error,
>)
    ensures
        setup(*final(c)) == setup(*old(c)),
        r is Ok ==> exists|base: StateTables| #[trigger]
            found(state_db(*old(c)), base) && base.wf() && wrote_to(
                state_db(*old(c)),
                state_db(*final(c)),
                base,
                base.keeping_sent(port@, n as int),
            ),
        r is Err ==> failed(state_db(*old(c)), state_db(*final(c))),
{
    c.execute(
        "DELETE FROM send_history WHERE port_name = ?1 AND id NOT IN \
         (SELECT id FROM send_history WHERE port_name = ?1 ORDER BY id DESC LIMIT ?2)",
        (port, n),
    )
}

/// `Statement::query_map` of rusqlite: the last `limit` commands sent to `port`, the newest first.
#[verifier::external_body]
pub(crate) fn select_sent(c: &mut rusqlite::Connection, port: &str, limit: u32) -> (r: Result<
    Vec<String>,
    rusqlite::Error,
>)
    ensures
        setup(*final(c)) == setup(*old(c)),
        r matches Ok(v) ==> {
            &&& looked(state_db(*old(c)), state_db(*final(c)))
            &&& state_db(*final(c)).now.wf()
            &&& crate::text::texts(v@) == sent_texts(
                last_n(sent_to(state_db(*final(c)).now.sent, port@), limit as int),
            ).reverse()
        },
        r is Err ==> failed(state_db(*old(c)), state_db(*final(c))),
{
    let mut stmt = c.prepare(
        "SELECT command FROM send_history WHERE port_name = ?1 ORDER BY id DESC LIMIT ?2",
    )?;
    let rows = stmt.query_map((port, limit), |row| row.get::<_, String>(0))?;
    rows.collect()
}

// --- Laws ---

/// The first items are those from the front, as many as asked for or as there are, and the last ones
/// those up to the end; both in their order. A negative number asks for all from the front.
pub proof fn law_ends_of_lists<A>(s: Seq<A>, n: int)
    requires
        n >= 0,
    ensures
        first_n(s, n).len() == (if n < s.len() {
            n
        } else {
            s.len() as int
        }),
        last_n(s, n).len() == first_n(s, n).len(),
        forall|i: int| 0 <= i < first_n(s, n).len() ==> #[trigger] first_n(s, n)[i] == s[i],
        forall|i: int|
            0 <= i < last_n(s, n).len() ==> #[trigger] last_n(s, n)[i] == s[s.len() - last_n(
                s,
                n,
            ).len() + i],
        first_n(s, -1) == s,
{
}

/// Commands stand for rows one for one, and their texts are in the order of the rows.
pub proof fn law_command_rows(v: Seq<StoredCommand>, rows: Seq<CommandRow>)
    ensures
        command_rows(v).len() == v.len(),
        forall|i: int|
            0 <= i < v.len() ==> {
                let row = #[trigger] command_rows(v)[i];
                row.id == v[i].id && row.ts == v[i].timestamp_ns && row.text == v[i].command@
            },
        command_texts(rows).len() == rows.len(),
        forall|i: int| 0 <= i < rows.len() ==> #[trigger] command_texts(rows)[i] == rows[i].text,
{
}

/// The commands sent to a port are those with its name, in the order of sending, with their texts.
pub proof fn law_sent_to(rows: Seq<SentRow>, port: Seq<char>, row: SentRow)
    ensures
        row.port == port ==> sent_to(rows.push(row), port) == sent_to(rows, port).push(row),
        row.port != port ==> sent_to(rows.push(row), port) == sent_to(rows, port),
        sent_to(Seq::empty(), port).len() == 0,
        sent_texts(rows).len() == rows.len(),
        forall|i: int| 0 <= i < rows.len() ==> #[trigger] sent_texts(rows)[i] == rows[i].text,
{
    reveal(Seq::filter);
    assert(rows.push(row).drop_last() =~= rows);
}

/// The largest time stamp is that of some row, and none is larger; where there is no row there is none.
pub proof fn law_latest(rows: Seq<LineRow>, ts: i64, i: int)
    requires
        latest_ts(rows, Some(ts)),
    ensures
        rows.len() > 0,
        0 <= i < rows.len() ==> rows[i].ts <= ts,
        exists|k: int| 0 <= k < rows.len() && (#[trigger] rows[k]).ts == ts,
        !latest_ts(rows, None),
        latest_ts(Seq::empty(), None),
{
}

/// A call that fails leaves a private database as it was, or undoes the whole open transaction, and then
/// the tables are those from before it.
pub proof fn law_failed_calls(before: Db<LineTables>, after: Db<LineTables>)
    requires
        before.alone,
        failed(before, after),
    ensures
        after == before || before.saved is Some && after.saved is None && after.now
            == before.saved->0,
        after.kept == before.kept,
        before.saved is None ==> after.now == before.now,
{
}

/// A list of ports has every registered port once, with its configuration, and no other.
pub proof fn law_ports_listed(
    v: Seq<(String, String)>,
    ports: Map<Seq<char>, PortRow>,
    name: Seq<char>,
    i: int,
    j: int,
)
    requires
        lists_ports(v, ports),
    ensures
        ports.contains_key(name) <==> exists|k: int|
            0 <= k < v.len() && (#[trigger] v[k]).0@ == name,
        0 <= i < v.len() ==> ports[v[i].0@].json == v[i].1@,
        0 <= i < j < v.len() ==> v[i].0@ != v[j].0@,
{
}

} // verus!
