//! State that outlives a run: the active ports, for reopening them, and what was sent to each port.
//!
//! A port's configuration is stored as JSON text.
use vstd::prelude::*;

use crate::config::PortConfig;
use crate::sql::{
    connect_file, connect_memory, create_state_tables, delete_port, insert_sent, keep_last_sent,
    put_port, select_ports, select_sent, set_pragmas, Db, SentRow, Setup, StateTables,
};
use crate::text::copy_text;

verus! {

/// Errors from the state store.
#[derive(Debug)]
pub enum StateError {
    Sqlite(rusqlite::Error),
    /// A file or directory could not be used; why, in words.
    Io(String),
    /// A configuration could not be written as JSON; why, in words.
    Json(String),
}

impl StateError {
    /// The message for the user: what failed, and the reason in words.
    pub fn message(&self) -> (r: String)
        ensures
            r@ == self.kind() + self.words(),
    {
        let (mut s, why) = match self {
            StateError::Sqlite(e) => (copy_text("sqlite error: "), crate::sql::reason(e)),
            StateError::Io(why) => (copy_text("io error: "), copy_text(why.as_str())),
            StateError::Json(why) => (copy_text("json error: "), copy_text(why.as_str())),
        };
        s.append(why.as_str());
        s
    }

    /// What failed.
    pub open spec fn kind(self) -> Seq<char> {
        match self {
            StateError::Sqlite(_) => "sqlite error: "@,
            StateError::Io(_) => "io error: "@,
            StateError::Json(_) => "json error: "@,
        }
    }

    /// The reason in words.
    pub open spec fn words(self) -> Seq<char> {
        match self {
            StateError::Sqlite(e) => crate::sql::sqlite_reason(e),
            StateError::Io(why) => why@,
            StateError::Json(why) => why@,
        }
    }
}

/// A port entry stored in the state database.
#[derive(Debug, Clone)]
pub struct PortEntry {
    pub name: String,
    pub config: PortConfig,
}

/// Maximum send history entries kept per port.
pub const HISTORY_PER_PORT: u32 = 1000;

/// Unified state database.
pub struct StateDb {
    conn: rusqlite::Connection,
}

impl View for StateDb {
    type V = Db<StateTables>;

    closed spec fn view(&self) -> Db<StateTables> {
        crate::sql::state_db(self.conn)
    }
}

/// `new` is `old` after the port `name` was registered.
pub open spec fn port_stored(
    old: Db<StateTables>,
    new: Db<StateTables>,
    name: Seq<char>,
    row: crate::sql::PortRow,
) -> bool {
    exists|base: StateTables| #[trigger]
        crate::sql::found(old, base) && base.wf() && crate::sql::wrote_to(
            old,
            new,
            base,
            base.with_port(name, row),
        )
}

/// `new` is `old` after the port `name` was removed.
pub open spec fn port_removed(
    old: Db<StateTables>,
    new: Db<StateTables>,
    name: Seq<char>,
) -> bool {
    exists|base: StateTables| #[trigger]
        crate::sql::found(old, base) && base.wf() && crate::sql::wrote_to(
            old,
            new,
            base,
            base.without_port(name),
        )
}

/// `mid` is `old` after a command was stored.
pub open spec fn sent_stored(
    old: Db<StateTables>,
    mid: Db<StateTables>,
    port: Seq<char>,
    ts: i64,
    command: Seq<char>,
) -> bool {
    exists|base: StateTables| #[trigger]
        crate::sql::found(old, base) && base.wf() && base.last_sent < i64::MAX
            && crate::sql::wrote_to(old, mid, base, base.with_sent(port, ts, command))
}

/// `new` is `mid` after the history of `port` was cut to its last entries.
pub open spec fn sent_cut(mid: Db<StateTables>, new: Db<StateTables>, port: Seq<char>) -> bool {
    exists|base: StateTables| #[trigger]
        crate::sql::found(mid, base) && base.wf() && crate::sql::wrote_to(
            mid,
            new,
            base,
            base.keeping_sent(port, HISTORY_PER_PORT as int),
        )
}

/// What a statement gave, its error as one of the state store.
pub fn reported<T>(r: Result<T, rusqlite::Error>) -> (s: Result<T, StateError>)
    ensures
        s == (match r {
            Ok(v) => Ok::<T, StateError>(v),
            Err(e) => Err::<T, StateError>(StateError::Sqlite(e)),
        }),
{
    match r {
        Ok(v) => Ok(v),
        Err(e) => Err(StateError::Sqlite(e)),
    }
}

/// A state database that is set up.
pub open spec fn state_setup(path: Seq<char>, pragmas: bool) -> Setup {
    Setup { path, pragmas, line_tables: false, state_tables: true }
}

impl StateDb {
    /// What was set up on the connection.
    pub closed spec fn setup(&self) -> Setup {
        crate::sql::setup(self.conn)
    }

    /// Open or create the state database in the file `path`, whose directory is there. Its tables are
    /// created where they are missing; no row is written.
    pub fn open(path: &str) -> (r: Result<StateDb, StateError>)
        ensures
            r matches Ok(s) ==> s.setup() == state_setup(path@, true) && s@ == crate::sql::untouched(
                s@.now,
                false,
            ),
            r matches Err(e) ==> e is Sqlite,
    {
        let mut conn = match reported(connect_file(path)) {
            Ok(c) => c,
            Err(e) => return Err(e),
        };
        if let Err(e) = reported(set_pragmas(&mut conn)) {
            return Err(e);
        }
        if let Err(e) = reported(create_state_tables(&mut conn)) {
            return Err(e);
        }
        Ok(StateDb { conn })
    }

    /// Open a private in-memory state database.
    pub fn open_memory() -> (r: Result<StateDb, StateError>)
        ensures
            r matches Ok(s) ==> s.setup() == state_setup(":memory:"@, false) && s@
                == crate::sql::untouched(StateTables::fresh(), true),
            r matches Err(e) ==> e is Sqlite,
    {
        let mut conn = match reported(connect_memory()) {
            Ok(c) => c,
            Err(e) => return Err(e),
        };
        if let Err(e) = reported(create_state_tables(&mut conn)) {
            return Err(e);
        }
        Ok(StateDb { conn })
    }

    /// Register a port, opened at `now_ns` with the configuration `json`, as active.
    pub fn port_opened(&mut self, name: &str, json: &str, now_ns: i64) -> (r: Result<
        (),
        StateError,
    >)
        ensures
            final(self).setup() == old(self).setup(),
            r is Ok ==> port_stored(
                old(self)@,
                final(self)@,
                name@,
                crate::sql::PortRow { json: json@, opened_at: now_ns },
            ),
            r matches Err(e) ==> e is Sqlite && crate::sql::failed(old(self)@, final(self)@),
    {
        if let Err(e) = reported(put_port(&mut self.conn, name, json, now_ns)) {
            return Err(e);
        }
        Ok(())
    }

    /// Remove a port from the active ones.
    pub fn port_closed(&mut self, name: &str) -> (r: Result<(), StateError>)
        ensures
            final(self).setup() == old(self).setup(),
            r is Ok ==> port_removed(old(self)@, final(self)@, name@),
            r matches Err(e) ==> e is Sqlite && crate::sql::failed(old(self)@, final(self)@),
    {
        if let Err(e) = reported(delete_port(&mut self.conn, name)) {
            return Err(e);
        }
        Ok(())
    }

    /// Get all ports that were active, each with its configuration.
    pub fn active_ports(&mut self) -> (r: Result<Vec<(String, String)>, StateError>)
        ensures
            final(self).setup() == old(self).setup(),
            r matches Ok(v) ==> {
                &&& crate::sql::looked(old(self)@, final(self)@)
                &&& final(self)@.now.wf()
                &&& crate::sql::lists_ports(v@, final(self)@.now.ports)
            },
            r matches Err(e) ==> e is Sqlite && crate::sql::failed(old(self)@, final(self)@),
    {
        reported(select_ports(&mut self.conn))
    }

    /// Append a command, sent at `ts`, to the history of a port, which keeps its last 1000 entries.
    pub fn append_send_history(&mut self, port_name: &str, ts: i64, command: &str) -> (r: Result<
        (),
        StateError,
    >)
        ensures
            final(self).setup() == old(self).setup(),
            r is Ok ==> exists|mid: Db<StateTables>| #[trigger]
                sent_stored(old(self)@, mid, port_name@, ts, command@) && sent_cut(
                    mid,
                    final(self)@,
                    port_name@,
                ),
            r matches Err(e) ==> e is Sqlite && (crate::sql::failed(old(self)@, final(self)@)
                || exists|mid: Db<StateTables>| #[trigger]
                sent_stored(old(self)@, mid, port_name@, ts, command@) && crate::sql::failed(
                    mid,
                    final(self)@,
                )),
    {
        if let Err(e) = reported(insert_sent(&mut self.conn, port_name, ts, command)) {
            return Err(e);
        }
        let ghost mid = self@;
        proof {
            assert(sent_stored(old(self)@, mid, port_name@, ts, command@));
        }
        if let Err(e) = reported(keep_last_sent(&mut self.conn, port_name, HISTORY_PER_PORT)) {
            return Err(e);
        }
        proof {
            assert(sent_cut(mid, self@, port_name@));
        }
        Ok(())
    }

    /// Load the most recent commands sent to a port, the oldest first.
    pub fn load_send_history(&mut self, port_name: &str, limit: u32) -> (r: Result<
        Vec<String>,
        StateError,
    >)
        ensures
            final(self).setup() == old(self).setup(),
            r matches Ok(v) ==> {
                &&& crate::sql::looked(old(self)@, final(self)@)
                &&& final(self)@.now.wf()
                &&& crate::text::texts(v@) == crate::sql::sent_texts(
                    crate::sql::last_n(
                        crate::sql::sent_to(final(self)@.now.sent, port_name@),
                        limit as int,
                    ),
                )
            },
            r matches Err(e) ==> e is Sqlite && crate::sql::failed(old(self)@, final(self)@),
    {
        match reported(select_sent(&mut self.conn, port_name, limit)) {
            Ok(v) => {
                let r = crate::text::reversed(v);
                proof {
                    let t = crate::sql::sent_texts(
                        crate::sql::last_n(
                            crate::sql::sent_to(self@.now.sent, port_name@),
                            limit as int,
                        ),
                    );
                    assert(t.reverse().reverse() =~= t);
                }
                Ok(r)
            },
            Err(e) => Err(e),
        }
    }
}

/// The entries at the given places, which are those with a configuration.
pub open spec fn decoded(
    rows: Seq<(String, String)>,
    configs: Seq<Option<PortConfig>>,
) -> Seq<(Seq<char>, PortConfig)>
    decreases rows.len(),
{
    if rows.len() == 0 || rows.len() != configs.len() {
        Seq::empty()
    } else {
        let front = decoded(rows.drop_last(), configs.drop_last());
        match configs.last() {
            Some(c) => front.push((rows.last().0@, c)),
            None => front,
        }
    }
}

/// The stored ports whose configuration could be read; the others are passed over. `configs` holds,
/// for each row, the configuration that its JSON text stands for.
pub fn port_entries(rows: &Vec<(String, String)>, configs: &Vec<Option<PortConfig>>) -> (r: Vec<
    PortEntry,
>)
    requires
        rows@.len() == configs@.len(),
    ensures
        r@.len() == decoded(rows@, configs@).len(),
        forall|i: int|
            0 <= i < r@.len() ==> (#[trigger] r@[i]).name@ == decoded(rows@, configs@)[i].0
                && crate::config::same_port(r@[i].config, decoded(rows@, configs@)[i].1),
{
    let mut out: Vec<PortEntry> = Vec::new();
    let mut i: usize = 0;
    while i < rows.len()
        invariant
            i <= rows@.len(),
            rows@.len() == configs@.len(),
            ({
                let d = decoded(rows@.take(i as int), configs@.take(i as int));
                &&& out@.len() == d.len()
                &&& forall|k: int|
                    0 <= k < out@.len() ==> (#[trigger] out@[k]).name@ == d[k].0
                        && crate::config::same_port(out@[k].config, d[k].1)
            }),
        decreases rows@.len() - i,
    {
        proof {
            assert(rows@.take(i + 1).drop_last() =~= rows@.take(i as int));
            assert(configs@.take(i + 1).drop_last() =~= configs@.take(i as int));
        }
        match &configs[i] {
            Some(c) => out.push(
                PortEntry {
                    name: copy_text(rows[i].0.as_str()),
                    config: c.duplicate(),
                },
            ),
            None => {},
        }
        i = i + 1;
    }
    proof {
        assert(rows@.take(rows@.len() as int) =~= rows@);
        assert(configs@.take(configs@.len() as int) =~= configs@);
    }
    out
}

// --- Laws ---

/// A registered port is active with the configuration that it was last registered with, a removed
/// one is not, and neither step touches another port.
pub proof fn law_ports_registered(
    t: StateTables,
    name: Seq<char>,
    row: crate::sql::PortRow,
    other: Seq<char>,
)
    requires
        other != name,
    ensures
        t.with_port(name, row).ports.contains_key(name),
        t.with_port(name, row).ports[name] == row,
        !t.without_port(name).ports.contains_key(name),
        !t.with_port(name, row).without_port(name).ports.contains_key(name),
        t.with_port(name, row).ports.contains_key(other) == t.ports.contains_key(other),
        t.without_port(name).ports.contains_key(other) == t.ports.contains_key(other),
        t.ports.contains_key(other) ==> t.with_port(name, row).ports[other] == t.ports[other]
            && t.without_port(name).ports[other] == t.ports[other],
{
}

/// Of distinct items, those among the last `n` are the last `n`.
proof fn filter_last<A>(s: Seq<A>, n: int)
    requires
        s.no_duplicates(),
    ensures
        s.filter(|a: A| crate::sql::last_n(s, n).contains(a)) == crate::sql::last_n(s, n),
{
    let last = crate::sql::last_n(s, n);
    let p = |a: A| last.contains(a);
    let k = s.len() - last.len();
    assert(last =~= s.skip(k));
    let front = s.take(k);
    assert(front + last =~= s);
    Seq::filter_distributes_over_add(front, last, p);
    assert forall|i: int| 0 <= i < front.len() implies !p(#[trigger] front[i]) by {
        if last.contains(front[i]) {
            let j = last.index_of(front[i]);
            assert(last[j] == s[k + j]);
            assert(front[i] == s[i]);
        }
    }
    crate::storage::filter_none(front, p);
    assert forall|i: int| 0 <= i < last.len() implies p(#[trigger] last[i]) by {
        assert(last.contains(last[i]));
    }
    crate::storage::filter_all(last, p);
    assert(Seq::<A>::empty() + last =~= last);
}

/// Ascending ids stay ascending under a filter.
proof fn filter_ascending(s: Seq<SentRow>, p: spec_fn(SentRow) -> bool)
    requires
        forall|i: int, j: int| 0 <= i < j < s.len() ==> s[i].id < s[j].id,
    ensures
        forall|i: int, j: int|
            0 <= i < j < s.filter(p).len() ==> s.filter(p)[i].id < s.filter(p)[j].id,
    decreases s.len(),
{
    reveal(Seq::filter);
    if s.len() > 0 {
        let front = s.drop_last();
        assert forall|i: int, j: int| 0 <= i < j < front.len() implies front[i].id
            < front[j].id by {
            assert(front[i] == s[i] && front[j] == s[j]);
        }
        filter_ascending(front, p);
        let f = front.filter(p);
        if p(s.last()) {
            assert forall|i: int| 0 <= i < f.len() implies (#[trigger] f[i]).id < s.last().id by {
                crate::storage::filter_subset(front, p, f[i]);
                let k = front.index_of(f[i]);
                assert(s[k] == f[i]);
            }
        }
    }
}

/// A command sent to a port joins that port's history as its newest entry, of which at most 1000
/// are kept; the history of every other port stays as it was.
pub proof fn law_history_per_port(
    t: StateTables,
    port: Seq<char>,
    ts: i64,
    command: Seq<char>,
    other: Seq<char>,
)
    requires
        t.wf(),
        t.last_sent < i64::MAX,
        other != port,
    ensures
        ({
            let sent = t.with_sent(port, ts, command);
            let cut = sent.keeping_sent(port, HISTORY_PER_PORT as int);
            let row = SentRow { id: (t.last_sent + 1) as i64, port, ts, text: command };
            &&& crate::sql::sent_to(cut.sent, port) == crate::sql::last_n(
                crate::sql::sent_to(t.sent, port).push(row),
                HISTORY_PER_PORT as int,
            )
            &&& crate::sql::sent_to(cut.sent, port).len() <= HISTORY_PER_PORT
            &&& crate::sql::sent_to(cut.sent, port).last() == row
            &&& crate::sql::sent_to(cut.sent, other) == crate::sql::sent_to(t.sent, other)
        }),
{
    reveal(Seq::filter);
    let n = HISTORY_PER_PORT as int;
    let sent = t.with_sent(port, ts, command);
    let s = sent.sent;
    let row = SentRow { id: (t.last_sent + 1) as i64, port, ts, text: command };
    assert(s.drop_last() =~= t.sent);
    let own = crate::sql::sent_to(s, port);
    assert(own == crate::sql::sent_to(t.sent, port).push(row));
    assert(crate::sql::sent_to(s, other) == crate::sql::sent_to(t.sent, other));
    let is_own = |r: SentRow| r.port == port;
    let is_other = |r: SentRow| r.port == other;
    let keep = |r: SentRow| crate::sql::stays(s, port, n, r);
    let cut = sent.keeping_sent(port, n).sent;
    assert(cut == s.filter(keep));
    // The other port.
    crate::storage::filter_twice(s, keep, is_other);
    crate::storage::same_filter(s, |r: SentRow| keep(r) && is_other(r), is_other);
    // The port itself.
    crate::storage::filter_twice(s, keep, is_own);
    let last = crate::sql::last_n(own, n);
    let among = |r: SentRow| last.contains(r);
    crate::storage::same_filter(
        s,
        |r: SentRow| keep(r) && is_own(r),
        |r: SentRow| is_own(r) && among(r),
    );
    crate::storage::filter_twice(s, is_own, among);
    filter_ascending(s, is_own);
    assert(own.no_duplicates()) by {
        assert forall|i: int, j: int| 0 <= i < own.len() && 0 <= j < own.len() && i != j implies own[i]
            != own[j] by {
            if i < j {
                assert(own[i].id < own[j].id);
            } else {
                assert(own[j].id < own[i].id);
            }
        }
    }
    filter_last(own, n);
}

/// The entries that are listed are those whose configuration could be read, with their names, in the
/// order of the rows.
pub proof fn law_decoded(
    rows: Seq<(String, String)>,
    configs: Seq<Option<PortConfig>>,
    row: (String, String),
    c: PortConfig,
)
    requires
        rows.len() == configs.len(),
    ensures
        decoded(rows.push(row), configs.push(Some(c))) == decoded(rows, configs).push((row.0@, c)),
        decoded(rows.push(row), configs.push(None)) == decoded(rows, configs),
        decoded(Seq::empty(), Seq::empty()).len() == 0,
{
    assert(rows.push(row).drop_last() =~= rows);
    assert(configs.push(Some(c)).drop_last() =~= configs);
    assert(configs.push(None).drop_last() =~= configs);
}

/// In a private database a port that is registered is there with what was given, in place of what was
/// there under its name; one that is removed is not; the other ports and the history stay as they are.
pub proof fn law_registry(
    before: Db<StateTables>,
    added: Db<StateTables>,
    removed: Db<StateTables>,
    name: Seq<char>,
    row: crate::sql::PortRow,
    other: Seq<char>,
)
    requires
        before.alone,
        port_stored(before, added, name, row),
        port_removed(before, removed, name),
        other != name,
    ensures
        added.now.ports.contains_key(name) && added.now.ports[name] == row,
        !removed.now.ports.contains_key(name),
        added.now.ports.contains_key(other) <==> before.now.ports.contains_key(other),
        removed.now.ports.contains_key(other) <==> before.now.ports.contains_key(other),
        before.now.ports.contains_key(other) ==> added.now.ports[other] == before.now.ports[other]
            && removed.now.ports[other] == before.now.ports[other],
        added.now.sent == before.now.sent && removed.now.sent == before.now.sent,
{
}

/// The message of an error says what failed and then the reason, in the words of what gave it.
pub proof fn law_state_messages(e: StateError)
    ensures
        e matches StateError::Sqlite(why) ==> e.kind() + e.words() == "sqlite error: "@
            + crate::sql::sqlite_reason(why),
        e matches StateError::Io(why) ==> e.kind() + e.words() == "io error: "@ + why@,
        e matches StateError::Json(why) ==> e.kind() + e.words() == "json error: "@ + why@,
{
}

/// In a private database a command that is sent is the newest of its port, the port keeps its newest
/// 1000, and the history of every other port and the registered ports stay as they are.
pub proof fn law_command_sent(
    before: Db<StateTables>,
    mid: Db<StateTables>,
    after: Db<StateTables>,
    port: Seq<char>,
    ts: i64,
    command: Seq<char>,
    other: Seq<char>,
)
    requires
        before.alone,
        sent_stored(before, mid, port, ts, command),
        sent_cut(mid, after, port),
        other != port,
    ensures
        ({
            let had = crate::sql::sent_to(before.now.sent, port);
            let has = crate::sql::sent_to(after.now.sent, port);
            &&& has.len() == (if had.len() < 1000 {
                had.len() + 1
            } else {
                1000
            })
            &&& has.last().text == command && has.last().ts == ts && has.last().port == port
            &&& forall|i: int|
                0 <= i < has.len() - 1 ==> #[trigger] has[i] == had[had.len() - (has.len() - 1) + i]
        }),
        crate::sql::sent_to(after.now.sent, other) == crate::sql::sent_to(before.now.sent, other),
        after.now.ports == before.now.ports,
{
    law_history_per_port(before.now, port, ts, command, other);
    let had = crate::sql::sent_to(before.now.sent, port);
    let has = crate::sql::sent_to(after.now.sent, port);
    let row = SentRow { id: (before.now.last_sent + 1) as i64, port, ts, text: command };
    assert(has == crate::sql::last_n(had.push(row), 1000));
    assert forall|i: int| 0 <= i < has.len() - 1 implies #[trigger] has[i] == had[had.len() - (
    has.len() - 1) + i] by {
        let k = had.len() + 1 - has.len() + i;
        assert(has[i] == had.push(row)[k]);
    }
}

/// A state database that is set up has the tables for the state, in the file that was named.
pub proof fn law_state_setup(path: Seq<char>, pragmas: bool)
    ensures
        state_setup(path, pragmas).path == path,
        state_setup(path, pragmas).pragmas == pragmas,
        state_setup(path, pragmas).state_tables,
        !state_setup(path, pragmas).line_tables,
{
}

} // verus!
