//! The tools of the server: what they are asked, and what they answer.
use vstd::prelude::*;

use crate::clock::{clock_text, iso_text, parse_rfc3339, rfc3339};
use crate::json::{new_object, no_values, put_text, put_u64, to_pretty, JsonScalar};
use crate::port_manager::PortInfo;
use crate::reader::ConnectionState;
use crate::sql::{Db, LineRow, LineTables};
use crate::storage::{BufferStats, SqliteStorage, StorageError, StoredLine, TimeRange};
use crate::text::{copy_text, push_dec, push_signed, strip_prefix, strip_suffix};

verus! {

/// Maximum lines returned by `serial_read`.
pub const MAX_READ_LINES: u32 = 10_000;

/// Default lines returned by `serial_read`.
pub const DEFAULT_READ_LINES: u32 = 100;

/// Milliseconds between two looks at the buffer while a read waits for data.
pub const WAIT_STEP_MS: u64 = 50;

// --- Parameters ---

/// Parameters for `serial_read`.
#[derive(Debug, Clone)]
pub struct ReadBufferParams {
    /// Serial port name (e.g. `/dev/ttyUSB0`).
    pub port_name: String,
    /// Starting line id (1-based). Negative = from end (-50 = last 50 lines). Default: 1.
    pub start_line: Option<i64>,
    /// Read lines after this id (exclusive). Takes precedence over `start_line`.
    pub after_line: Option<i64>,
    /// Maximum number of lines to return. Defaults to 100, max 10000.
    pub max_lines: Option<u32>,
    /// Whether to include timestamps in output.
    pub include_timestamps: Option<bool>,
    /// Wait up to this many milliseconds for new data before returning empty. 0 = no wait (default).
    pub wait_ms: Option<u64>,
    /// Only return lines with timestamps after this ISO 8601 time.
    pub since_time: Option<String>,
}

/// Parameters for `serial_status`.
#[derive(Debug, Clone)]
pub struct GetStreamStatsParams {
    /// Serial port name (e.g. `/dev/ttyUSB0`).
    pub port_name: String,
}

/// Parameters for `serial_search`.
#[derive(Debug, Clone)]
pub struct SearchBufferParams {
    /// Serial port name.
    pub port_name: String,
    /// Search query string.
    pub query: String,
    /// Query type: exact, substring, or regex.
    pub query_type: Option<String>,
    /// Start time bound (ISO 8601).
    pub start_time: Option<String>,
    /// End time bound (ISO 8601).
    pub end_time: Option<String>,
    /// Maximum results to return.
    pub max_results: Option<u32>,
}

/// Parameters for `serial_export`.
#[derive(Debug, Clone)]
pub struct ExportBufferParams {
    /// Serial port name.
    pub port_name: String,
    /// Output format: txt, csv, or jsonl.
    pub file_format: Option<String>,
    /// Start line (inclusive).
    pub start_line: Option<i64>,
    /// End line (inclusive).
    pub end_line: Option<i64>,
    /// Output file path.
    pub output_path: String,
}

/// Parameters for `serial_clear`.
#[derive(Debug, Clone)]
pub struct ClearBufferParams {
    /// Serial port name.
    pub port_name: String,
    /// Whether to archive the current data before clearing.
    pub archive_current: Option<bool>,
}

/// Parameters for `serial_open`.
#[derive(Debug, Clone)]
pub struct ConfigurePortParams {
    /// Serial port path.
    pub port_name: String,
    /// Baud rate.
    pub baudrate: Option<u32>,
    /// Data bits (5-8).
    pub data_bits: Option<u8>,
    /// Parity: none, odd, even.
    pub parity: Option<String>,
    /// Stop bits (1, 2).
    pub stop_bits: Option<u8>,
}

/// Parameters for `serial_signal`.
#[derive(Debug, Clone)]
pub struct SetControlLinesParams {
    /// Serial port name.
    pub port_name: String,
    /// DTR line state.
    pub dtr: Option<bool>,
    /// RTS line state.
    pub rts: Option<bool>,
}

/// Parameters for `serial_macro`.
#[derive(Debug, Clone)]
pub struct TriggerMacroParams {
    /// Serial port name.
    pub port_name: String,
    /// Macro name (built-in: `reset`, `enter_bootloader`, `break`).
    pub macro_name: String,
}

/// Parameters for `serial_close`.
#[derive(Debug, Clone)]
pub struct ClosePortParams {
    /// Serial port name.
    pub port_name: String,
}

/// Parameters for `serial_write`.
#[derive(Debug, Clone)]
pub struct WritePortParams {
    /// Serial port name.
    pub port_name: String,
    /// Data to write. UTF-8 text, or hex-encoded bytes prefixed with 0x.
    pub data: String,
}

/// Parameters for `serial_monitor_open`.
#[derive(Debug, Clone)]
pub struct MonitorOpenParams {
    /// Serial port name (must already be open).
    pub port_name: String,
}

/// Parameters for `serial_monitor_close`.
#[derive(Debug, Clone)]
pub struct MonitorCloseParams {
    /// Serial port name.
    pub port_name: String,
}

/// Parameters for `serial_esp_flash`.
#[derive(Debug, Clone)]
pub struct EspFlashParams {
    /// Serial port name.
    pub port_name: String,
    /// Path to the firmware file (ELF or binary).
    pub firmware_path: String,
    /// Optional baud rate for flashing.
    pub baud: Option<u32>,
}

/// Parameters for `serial_esp_info`.
#[derive(Debug, Clone)]
pub struct EspInfoParams {
    /// Serial port name.
    pub port_name: String,
}

/// Parameters for `serial_esp_erase`.
#[derive(Debug, Clone)]
pub struct EspEraseParams {
    /// Serial port name.
    pub port_name: String,
}

/// Parameters for `serial_esp_write_bin`.
#[derive(Debug, Clone)]
pub struct EspWriteBinParams {
    /// Serial port name.
    pub port_name: String,
    /// Path to the binary file.
    pub file_path: String,
    /// Flash address (hex, e.g. 0x1000).
    pub address: String,
}

// --- Times ---

/// The nearest time that 64 bits of nanoseconds can hold.
pub open spec fn nearest(ns: int) -> i64 {
    if ns < i64::MIN {
        i64::MIN
    } else if ns > i64::MAX {
        i64::MAX
    } else {
        ns as i64
    }
}

/// The time of an RFC 3339 text by what its reading gave, in seconds and nanoseconds.
pub open spec fn iso_ns(read: Result<(i64, u32), Seq<char>>) -> Result<i64, Seq<char>> {
    match read {
        Ok((secs, ns)) => Ok(nearest(secs * 1_000_000_000 + ns)),
        Err(why) => Err("invalid time format: "@ + why),
    }
}

/// A result with its message as text.
pub open spec fn outcome<T>(r: Result<T, String>) -> Result<T, Seq<char>> {
    match r {
        Ok(v) => Ok(v),
        Err(m) => Err(m@),
    }
}

/// The time that the reading of a text gave. One that 64 bits of nanoseconds cannot hold becomes the
/// earliest or the latest that they can.
pub fn time_of_reading(read: Result<(i64, u32), String>) -> (r: Result<i64, String>)
    ensures
        outcome(r) == iso_ns(outcome(read)),
{
    match read {
        Ok((secs, part)) => {
            let ns: i128 = secs as i128 * 1_000_000_000 + part as i128;
            if ns < i64::MIN as i128 {
                Ok(i64::MIN)
            } else if ns > i64::MAX as i128 {
                Ok(i64::MAX)
            } else {
                Ok(ns as i64)
            }
        },
        Err(why) => {
            let mut m = copy_text("invalid time format: ");
            m.append(why.as_str());
            Err(m)
        },
    }
}

/// The time of an RFC 3339 text, in nanoseconds since 1970.
pub fn parse_iso_to_ns(s: &str) -> (r: Result<i64, String>)
    ensures
        outcome(r) == iso_ns(rfc3339(s@)),
{
    time_of_reading(parse_rfc3339(s))
}

/// The range between two bounds. Without a start it begins at 1970, without an end it is open.
pub open spec fn range_spec(
    start: Option<Result<i64, Seq<char>>>,
    end: Option<Result<i64, Seq<char>>>,
) -> Result<Option<TimeRange>, Seq<char>> {
    match (start, end) {
        (Some(Err(e)), _) => Err(e),
        (_, Some(Err(e))) => Err(e),
        (Some(Ok(s)), Some(Ok(e))) => Ok(Some(TimeRange { start_ns: s, end_ns: e })),
        (Some(Ok(s)), None) => Ok(Some(TimeRange { start_ns: s, end_ns: i64::MAX })),
        (None, Some(Ok(e))) => Ok(Some(TimeRange { start_ns: 0, end_ns: e })),
        (None, None) => Ok(None),
    }
}

/// A bound with its message as text.
pub open spec fn bound(b: Option<Result<i64, String>>) -> Option<Result<i64, Seq<char>>> {
    match b {
        Some(r) => Some(outcome(r)),
        None => None,
    }
}

/// The range between two bounds that were read.
pub fn range_of_bounds(
    start: Option<Result<i64, String>>,
    end: Option<Result<i64, String>>,
) -> (r: Result<Option<TimeRange>, String>)
    ensures
        outcome(r) == range_spec(bound(start), bound(end)),
{
    let s: Option<i64> = match start {
        Some(Err(e)) => return Err(e),
        Some(Ok(ns)) => Some(ns),
        None => None,
    };
    let e: Option<i64> = match end {
        Some(Err(e)) => return Err(e),
        Some(Ok(ns)) => Some(ns),
        None => None,
    };
    Ok(
        match (s, e) {
            (Some(start_ns), Some(end_ns)) => Some(TimeRange { start_ns, end_ns }),
            (Some(start_ns), None) => Some(TimeRange { start_ns, end_ns: i64::MAX }),
            (None, Some(end_ns)) => Some(TimeRange { start_ns: 0, end_ns }),
            (None, None) => None,
        },
    )
}

/// What a bound's text stands for.
pub open spec fn bound_text(b: Option<Seq<char>>) -> Option<Result<i64, Seq<char>>> {
    match b {
        Some(s) => Some(iso_ns(rfc3339(s))),
        None => None,
    }
}

/// An optional text.
pub open spec fn opt_text(b: Option<&str>) -> Option<Seq<char>> {
    match b {
        Some(s) => Some(s@),
        None => None,
    }
}

/// The time range between two bounds in RFC 3339.
pub fn parse_time_range(start: Option<&str>, end: Option<&str>) -> (r: Result<
    Option<TimeRange>,
    String,
>)
    ensures
        outcome(r) == range_spec(bound_text(opt_text(start)), bound_text(opt_text(end))),
{
    let s: Option<Result<i64, String>> = match start {
        Some(t) => Some(parse_iso_to_ns(t)),
        None => None,
    };
    let e: Option<Result<i64, String>> = match end {
        Some(t) => Some(parse_iso_to_ns(t)),
        None => None,
    };
    range_of_bounds(s, e)
}

// --- Reading ---

/// The most lines that a read returns.
pub open spec fn read_limit_spec(max_lines: Option<u32>) -> u32 {
    match max_lines {
        Some(n) => if n < MAX_READ_LINES {
            n
        } else {
            MAX_READ_LINES
        },
        None => DEFAULT_READ_LINES,
    }
}

/// Where a read starts: after a line, or at a line; a negative number counts from the last id.
pub open spec fn start_spec(
    since: bool,
    after_line: Option<i64>,
    start_line: Option<i64>,
    last_id: int,
) -> int {
    if since {
        1
    } else {
        match after_line {
            Some(a) => a + 1,
            None => {
                let raw = match start_line {
                    Some(n) => n as int,
                    None => 1,
                };
                let from = if raw < 0 {
                    last_id + raw + 1
                } else {
                    raw
                };
                if from < 1 {
                    1
                } else {
                    from
                }
            },
        }
    }
}

/// The read needs to know the last id.
pub open spec fn counts_from_end(
    since: bool,
    after_line: Option<i64>,
    start_line: Option<i64>,
) -> bool {
    &&& !since
    &&& after_line is None
    &&& start_line matches Some(n) && n < 0
}

/// What a read is to do.
#[derive(Debug, Clone)]
pub struct ReadPlan {
    /// Only lines after this time, where it is given.
    pub since_ns: Option<i64>,
    /// The lines after this id are read, where no time is given.
    pub after: i64,
    pub max: u32,
    pub timestamps: bool,
    pub wait_ms: u64,
}

/// The id after which a read starts, the last id being `last_id`.
pub fn resolve_after(
    since: bool,
    after_line: Option<i64>,
    start_line: Option<i64>,
    last_id: i64,
) -> (r: i64)
    ensures
        r == start_spec(since, after_line, start_line, last_id as int) - 1,
{
    if since {
        return 0;
    }
    if let Some(a) = after_line {
        return a;
    }
    let raw: i64 = match start_line {
        Some(n) => n,
        None => 1,
    };
    if raw >= 0 {
        return if raw < 1 {
            0
        } else {
            raw - 1
        };
    }
    if last_id <= 0 {
        return 0;
    }
    let before: i64 = last_id + raw;
    if before < 0 {
        0
    } else {
        before
    }
}

/// The largest id, or 0 where there is none.
pub open spec fn last_id_of(rows: Seq<LineRow>) -> int {
    if rows.len() == 0 {
        0
    } else {
        rows.last().id as int
    }
}

/// A plan, and what came of looking up the last id where lines are counted from the end. Where that
/// failed, the plan starts at the first line.
#[derive(Debug)]
pub struct PlannedRead {
    pub plan: ReadPlan,
    pub lookup: Result<(), StorageError>,
}

/// Work out what a read is to do. The buffer is only looked at where lines are counted from its end.
pub fn plan_read(storage: &mut SqliteStorage, params: &ReadBufferParams) -> (r: Result<
    PlannedRead,
    String,
>)
    ensures
        final(storage).path() == old(storage).path(),
        final(storage).setup() == old(storage).setup(),
        match params.since_time {
            Some(t) => match iso_ns(rfc3339(t@)) {
                Err(m) => r matches Err(e) && e@ == m && final(storage)@ == old(storage)@,
                Ok(ns) => r matches Ok(p) && p.plan.since_ns == Some(ns),
            },
            None => r matches Ok(p) && p.plan.since_ns is None,
        },
        r matches Ok(p) ==> {
            let since = params.since_time is Some;
            &&& p.plan.max == read_limit_spec(params.max_lines)
            &&& p.plan.timestamps == (params.include_timestamps == Some(true))
            &&& p.plan.wait_ms == (match params.wait_ms {
                Some(n) => n,
                None => 0,
            })
            &&& if counts_from_end(since, params.after_line, params.start_line) {
                match p.lookup {
                    Ok(_) => {
                        &&& crate::sql::looked(old(storage)@, final(storage)@)
                        &&& final(storage)@.now.wf()
                        &&& p.plan.after + 1 == start_spec(
                            since,
                            params.after_line,
                            params.start_line,
                            last_id_of(final(storage)@.now.lines),
                        )
                    },
                    Err(e) => {
                        &&& e is Sqlite
                        &&& crate::sql::failed(old(storage)@, final(storage)@)
                        &&& p.plan.after == 0
                    },
                }
            } else {
                &&& p.lookup is Ok
                &&& final(storage)@ == old(storage)@
                &&& p.plan.after + 1 == start_spec(
                    since,
                    params.after_line,
                    params.start_line,
                    0,
                )
            }
        },
{
    let since_ns: Option<i64> = match &params.since_time {
        Some(t) => match parse_iso_to_ns(t.as_str()) {
            Ok(ns) => Some(ns),
            Err(e) => return Err(e),
        },
        None => None,
    };
    let since: bool = since_ns.is_some();
    let from_end: bool = !since && params.after_line.is_none() && (match params.start_line {
        Some(n) => n < 0,
        None => false,
    });
    let mut last_id: i64 = 0;
    let mut lookup: Result<(), StorageError> = Ok(());
    if from_end {
        match storage.last_id() {
            Ok(Some(id)) => last_id = id,
            Ok(None) => {},
            Err(e) => lookup = Err(e),
        }
    }
    let after = resolve_after(since, params.after_line, params.start_line, last_id);
    Ok(
        PlannedRead {
            plan: ReadPlan {
                since_ns,
                after,
                max: read_limit(params.max_lines),
                timestamps: match params.include_timestamps {
                    Some(b) => b,
                    None => false,
                },
                wait_ms: match params.wait_ms {
                    Some(n) => n,
                    None => 0,
                },
            },
            lookup,
        },
    )
}

/// The most lines that a read returns.
pub fn read_limit(max_lines: Option<u32>) -> (r: u32)
    ensures
        r == read_limit_spec(max_lines),
{
    match max_lines {
        Some(n) => if n < MAX_READ_LINES {
            n
        } else {
            MAX_READ_LINES
        },
        None => DEFAULT_READ_LINES,
    }
}

/// The rows that are newer than `ns`.
pub open spec fn newer(rows: Seq<LineRow>, ns: int) -> Seq<LineRow> {
    rows.filter(|row: LineRow| ns < row.ts)
}

/// The rows that a read asks for.
pub open spec fn rows_to_read(rows: Seq<LineRow>, plan: ReadPlan) -> Seq<LineRow> {
    crate::sql::first_n(
        match plan.since_ns {
            Some(ns) => newer(rows, ns as int),
            None => crate::storage::from_id(rows, plan.after + 1),
        },
        plan.max as int,
    )
}

/// The rows that a read asks for have ascending ids.
proof fn rows_ascend(t: LineTables, plan: ReadPlan)
    requires
        t.wf(),
    ensures
        crate::storage::ids_ascend(rows_to_read(t.lines, plan)),
{
    match plan.since_ns {
        Some(ns) => crate::storage::picked_ascend(
            t,
            |row: LineRow| (ns as int) < row.ts,
            plan.max as int,
        ),
        None => crate::storage::picked_ascend(
            t,
            |row: LineRow| plan.after + 1 <= row.id,
            plan.max as int,
        ),
    }
}

/// Read the lines that a plan asks for. There are none after the latest time that a time stamp can
/// hold, nor after the largest id, and then the buffer is not looked at.
pub fn fetch_lines(storage: &mut SqliteStorage, plan: &ReadPlan) -> (r: Result<
    Vec<StoredLine>,
    StorageError,
>)
    ensures
        final(storage).path() == old(storage).path(),
        final(storage).setup() == old(storage).setup(),
        plan.since_ns == Some(i64::MAX) || plan.since_ns is None && plan.after == i64::MAX ==> r
            is Ok && final(storage)@ == old(storage)@,
        r matches Ok(v) ==> {
            &&& crate::sql::looked(old(storage)@, final(storage)@)
            &&& crate::storage::ids_ascend(crate::sql::line_rows(v@))
            &&& crate::sql::line_rows(v@) == rows_to_read(final(storage)@.now.lines, *plan)
        },
        r matches Err(e) ==> e is Sqlite && crate::sql::failed(old(storage)@, final(storage)@),
{
    let nothing: bool = match plan.since_ns {
        None => plan.after == i64::MAX,
        Some(ns) => ns == i64::MAX,
    };
    if nothing {
        let v: Vec<StoredLine> = Vec::new();
        proof {
            let rows = storage@.now.lines;
            let max = i64::MAX as int;
            crate::storage::filter_none(rows, |row: LineRow| max < row.ts);
            crate::storage::filter_none(rows, |row: LineRow| max + 1 <= row.id);
            assert(crate::storage::from_id(rows, max + 1) == Seq::<LineRow>::empty());
            assert(newer(rows, max) == Seq::<LineRow>::empty());
            assert(crate::sql::line_rows(v@) =~= rows_to_read(rows, *plan));
        }
        return Ok(v);
    }
    match plan.since_ns {
        None => {
            let r = storage.read_lines(plan.after + 1, plan.max);
            proof {
                if r is Ok {
                    rows_ascend(storage@.now, *plan);
                }
            }
            r
        },
        Some(ns) => {
            let r = storage.search_time_range(ns + 1, i64::MAX, plan.max);
            proof {
                let range = TimeRange { start_ns: (ns + 1) as i64, end_ns: i64::MAX };
                crate::storage::same_filter(
                    storage@.now.lines,
                    |row: LineRow| range.start_ns <= row.ts <= range.end_ns,
                    |row: LineRow| (ns as int) < row.ts,
                );
                if r is Ok {
                    rows_ascend(storage@.now, *plan);
                }
            }
            r
        },
    }
}

/// What a read does once it has looked at the buffer.
#[derive(Debug, Clone, Copy, PartialEq, Eq, Structural)]
pub enum WaitStep {
    /// Return what was found.
    Return,
    /// Sleep and look again.
    LookAgain,
}

/// A read returns as soon as it has found lines; otherwise it looks again until its time is up.
pub fn wait_step(found: bool, wait_ms: u64, time_is_up: bool) -> (r: WaitStep)
    ensures
        r == (if found || wait_ms == 0 || time_is_up {
            WaitStep::Return
        } else {
            WaitStep::LookAgain
        }),
{
    if found || wait_ms == 0 || time_is_up {
        WaitStep::Return
    } else {
        WaitStep::LookAgain
    }
}

/// A line of a read's answer.
pub open spec fn read_line_text(l: LineRow, timestamps: bool) -> Seq<char> {
    (if timestamps {
        crate::clock::clock(l.ts as int) + " "@
    } else {
        Seq::empty()
    }) + l.text + "\n"@
}

/// The lines of a read's answer.
pub open spec fn read_body(rows: Seq<LineRow>, timestamps: bool) -> Seq<char>
    decreases rows.len(),
{
    if rows.len() == 0 {
        Seq::empty()
    } else {
        read_body(rows.drop_last(), timestamps) + read_line_text(rows.last(), timestamps)
    }
}

/// The answer to a read of the lines after an id: a header with the first id, the last id and the
/// number of stored lines, and then the lines. Where there is no line, the id at which the read was to
/// start is given.
pub open spec fn read_answer(
    rows: Seq<LineRow>,
    after: i64,
    total: u64,
    timestamps: bool,
) -> Seq<char> {
    if rows.len() == 0 {
        "[no new lines after "@ + crate::text::signed_dec(after + 1) + ", "@ + crate::text::dec(
            total as nat,
        ) + " total]"@
    } else {
        "[lines "@ + crate::text::signed_dec(rows.first().id as int) + "-"@
            + crate::text::signed_dec(rows.last().id as int) + " of "@ + crate::text::dec(
            total as nat,
        ) + " total]\n"@ + read_body(rows, timestamps)
    }
}

/// The answer to a read.
pub fn render_read(lines: &Vec<StoredLine>, after: i64, total: u64, timestamps: bool) -> (r: String)
    ensures
        r@ == read_answer(crate::sql::line_rows(lines@), after, total, timestamps),
{
    let ghost rows = crate::sql::line_rows(lines@);
    if lines.len() == 0 {
        let mut s = copy_text("[no new lines after ");
        if after < 0 {
            push_signed(&mut s, after + 1);
        } else {
            push_dec(&mut s, after as u64 + 1);
        }
        s.append(", ");
        push_dec(&mut s, total);
        s.append(" total]");
        return s;
    }
    let mut s = copy_text("[lines ");
    push_signed(&mut s, lines[0].id);
    s.append("-");
    push_signed(&mut s, lines[lines.len() - 1].id);
    s.append(" of ");
    push_dec(&mut s, total);
    s.append(" total]\n");
    let ghost head = s@;
    let mut i: usize = 0;
    proof {
        assert(rows.take(0) =~= Seq::empty());
        assert(s@ =~= head + read_body(rows.take(0), timestamps));
    }
    while i < lines.len()
        invariant
            i <= lines@.len(),
            rows == crate::sql::line_rows(lines@),
            s@ == head + read_body(rows.take(i as int), timestamps),
        decreases lines@.len() - i,
    {
        let ghost before = s@;
        if timestamps {
            let t = clock_text(lines[i].timestamp_ns);
            s.append(t.as_str());
            s.append(" ");
        }
        s.append(lines[i].payload.as_str());
        s.append("\n");
        proof {
            assert(rows.take(i + 1).drop_last() =~= rows.take(i as int));
            assert(rows.take(i + 1).last() == lines@[i as int].row());
            assert(s@ =~= before + read_line_text(rows[i as int], timestamps));
            assert(s@ =~= head + read_body(rows.take(i + 1), timestamps));
        }
        i = i + 1;
    }
    proof {
        assert(rows.take(lines@.len() as int) =~= rows);
    }
    s
}

// --- Status ---

/// The status of a port as a resource.
pub open spec fn resource_values(
    port: Seq<char>,
    state: ConnectionState,
    stats: BufferStats,
) -> Map<Seq<char>, JsonScalar> {
    no_values().insert("port"@, JsonScalar::Text(port)).insert(
        "state"@,
        JsonScalar::Text(state.text()),
    ).insert("total_lines"@, JsonScalar::Number(stats.total_lines as int)).insert(
        "total_bytes"@,
        JsonScalar::Number(stats.total_bytes as int),
    ).insert("db_size_bytes"@, JsonScalar::Number(stats.db_size_bytes as int))
}

/// When the last line came.
pub open spec fn last_activity(stats: BufferStats) -> Seq<char> {
    match stats.last_timestamp_ns {
        Some(ns) => crate::clock::iso(ns as int),
        None => "never"@,
    }
}

/// The status of a port.
pub open spec fn status_values(
    port: Seq<char>,
    state: ConnectionState,
    stats: BufferStats,
) -> Map<Seq<char>, JsonScalar> {
    resource_values(port, state, stats).insert(
        "last_activity"@,
        JsonScalar::Text(last_activity(stats)),
    )
}

fn resource_object(port: &str, state: &ConnectionState, stats: &BufferStats) -> (r: serde_json::Map<
    String,
    serde_json::Value,
>)
    ensures
        crate::json::json_object(r) == resource_values(port@, *state, *stats),
{
    let mut m = new_object();
    put_text(&mut m, "port", port);
    let s = state.describe();
    put_text(&mut m, "state", s.as_str());
    put_u64(&mut m, "total_lines", stats.total_lines);
    put_u64(&mut m, "total_bytes", stats.total_bytes);
    put_u64(&mut m, "db_size_bytes", stats.db_size_bytes);
    m
}

/// The status of a port in JSON, as a resource.
pub fn resource_json(port: &str, state: &ConnectionState, stats: &BufferStats) -> (r: String)
    ensures
        r@ == crate::json::json_pretty(resource_values(port@, *state, *stats)),
{
    let m = resource_object(port, state, stats);
    match to_pretty(&m) {
        Ok(s) => s,
        Err(_) => String::new(),
    }
}

/// The status of a port in JSON.
pub fn status_json(port: &str, state: &ConnectionState, stats: &BufferStats) -> (r: String)
    ensures
        r@ == crate::json::json_pretty(status_values(port@, *state, *stats)),
{
    let mut m = resource_object(port, state, stats);
    let last = match stats.last_timestamp_ns {
        Some(ns) => iso_text(ns),
        None => copy_text("never"),
    };
    put_text(&mut m, "last_activity", last.as_str());
    match to_pretty(&m) {
        Ok(s) => s,
        Err(_) => String::new(),
    }
}

// --- Resources ---

/// The address of a port's status.
pub open spec fn resource_uri_spec(port: Seq<char>) -> Seq<char> {
    "serial://"@ + port + "/status"@
}

/// A port's status as a resource: its address, its name and its description.
pub struct ResourceEntry {
    pub uri: String,
    pub name: String,
    pub description: String,
}

/// The resource of a port's status.
pub fn resource_entry(port: &str) -> (r: ResourceEntry)
    ensures
        r.uri@ == resource_uri_spec(port@),
        r.name@ == port@ + " status"@,
        r.description@ == "Connection state for "@ + port@,
{
    let mut uri = copy_text("serial://");
    uri.append(port);
    uri.append("/status");
    let mut name = copy_text(port);
    name.append(" status");
    let mut description = copy_text("Connection state for ");
    description.append(port);
    ResourceEntry { uri, name, description }
}

/// The port whose status an address is.
pub fn resource_port(uri: &str) -> (r: Result<String, String>)
    ensures
        match r {
            Ok(port) => uri@ == resource_uri_spec(port@),
            Err(m) => m@ == "invalid resource URI: "@ + uri@ && forall|port: Seq<char>|
                uri@ != #[trigger] resource_uri_spec(port),
        },
{
    let port: Option<String> = match strip_prefix(uri, "serial://") {
        Some(rest) => {
            let inner = strip_suffix(rest.as_str(), "/status");
            proof {
                if inner is None {
                    assert forall|p: Seq<char>| uri@ != #[trigger] resource_uri_spec(p) by {
                        if uri@ == resource_uri_spec(p) {
                            assert(rest@ =~= uri@.skip("serial://"@.len() as int));
                            assert(rest@ =~= p + "/status"@);
                            assert(rest@.subrange(
                                rest@.len() - "/status"@.len(),
                                rest@.len() as int,
                            ) =~= "/status"@);
                            assert(crate::text::has_suffix(rest@, "/status"@));
                        }
                    }
                }
                if inner is Some {
                    assert(uri@ =~= resource_uri_spec(inner->0@));
                }
            }
            inner
        },
        None => {
            proof {
                assert forall|p: Seq<char>| uri@ != #[trigger] resource_uri_spec(p) by {
                    if uri@ == resource_uri_spec(p) {
                        assert(uri@.subrange(0, "serial://"@.len() as int) =~= "serial://"@);
                        assert(crate::text::has_prefix(uri@, "serial://"@));
                    }
                }
            }
            None
        },
    };
    match port {
        Some(p) => Ok(p),
        None => {
            let mut m = copy_text("invalid resource URI: ");
            m.append(uri);
            Err(m)
        },
    }
}

/// The address of a port's status names no other port.
pub proof fn law_resource_addresses_differ(a: Seq<char>, b: Seq<char>)
    requires
        resource_uri_spec(a) == resource_uri_spec(b),
    ensures
        a == b,
{
    let u = resource_uri_spec(a);
    let p = "serial://"@.len() as int;
    let s = "/status"@.len() as int;
    assert(a =~= u.subrange(p, u.len() - s));
    assert(b =~= u.subrange(p, u.len() - s));
}

// --- Lists ---

/// The system ports of a list.
pub open spec fn system_text(ports: Seq<Seq<char>>) -> Seq<char>
    decreases ports.len(),
{
    if ports.len() == 0 {
        Seq::empty()
    } else {
        system_text(ports.drop_last()) + "  "@ + ports.last() + "\n"@
    }
}

/// A managed port of a list.
pub open spec fn managed_line(p: PortInfo) -> Seq<char> {
    "  "@ + p.name@ + " — "@ + p.state.text() + " ("@ + crate::text::dec(p.total_lines as nat)
        + " lines)\n"@
}

/// The managed ports of a list.
pub open spec fn managed_text(ports: Seq<PortInfo>) -> Seq<char>
    decreases ports.len(),
{
    if ports.len() == 0 {
        Seq::empty()
    } else {
        managed_text(ports.drop_last()) + managed_line(ports.last())
    }
}

/// The list of system ports and managed connections.
pub open spec fn list_text(system: Seq<Seq<char>>, managed: Seq<PortInfo>) -> Seq<char> {
    "System ports:\n"@ + (if system.len() == 0 {
        "  (none detected)\n"@
    } else {
        system_text(system)
    }) + "\nManaged connections:\n"@ + (if managed.len() == 0 {
        "  (none)\n"@
    } else {
        managed_text(managed)
    })
}

/// The list of system ports and managed connections.
pub fn render_list(system: &Vec<String>, managed: &Vec<PortInfo>) -> (r: String)
    ensures
        r@ == list_text(crate::text::texts(system@), managed@),
{
    let ghost names = crate::text::texts(system@);
    let mut s = copy_text("System ports:\n");
    let ghost head = s@;
    if system.len() == 0 {
        s.append("  (none detected)\n");
    } else {
        let mut i: usize = 0;
        proof {
            assert(s@ =~= head + system_text(names.take(0)));
        }
        while i < system.len()
            invariant
                i <= system@.len(),
                names == crate::text::texts(system@),
                s@ == head + system_text(names.take(i as int)),
            decreases system@.len() - i,
        {
            proof {
                assert(names.take(i + 1).drop_last() =~= names.take(i as int));
                assert(names.take(i + 1).last() == system@[i as int]@);
            }
            s.append("  ");
            s.append(system[i].as_str());
            s.append("\n");
            proof {
                assert(s@ =~= head + system_text(names.take(i + 1)));
            }
            i = i + 1;
        }
        proof {
            assert(names.take(system@.len() as int) =~= names);
        }
    }
    s.append("\nManaged connections:\n");
    let ghost above = s@;
    if managed.len() == 0 {
        s.append("  (none)\n");
    } else {
        let mut i: usize = 0;
        proof {
            assert(s@ =~= above + managed_text(managed@.take(0)));
        }
        while i < managed.len()
            invariant
                i <= managed@.len(),
                s@ == above + managed_text(managed@.take(i as int)),
            decreases managed@.len() - i,
        {
            proof {
                assert(managed@.take(i + 1).drop_last() =~= managed@.take(i as int));
            }
            s.append("  ");
            s.append(managed[i].name.as_str());
            s.append(" — ");
            let state = managed[i].state.describe();
            s.append(state.as_str());
            s.append(" (");
            push_dec(&mut s, managed[i].total_lines);
            s.append(" lines)\n");
            proof {
                assert(s@ =~= above + managed_text(managed@.take(i + 1)));
            }
            i = i + 1;
        }
        proof {
            assert(managed@.take(managed@.len() as int) =~= managed@);
        }
    }
    s
}

// --- Laws ---

/// A plain read of at most `max` lines after an id.
pub open spec fn page_plan(after: int, max: int) -> ReadPlan {
    ReadPlan {
        since_ns: None,
        after: after as i64,
        max: max as u32,
        timestamps: false,
        wait_ms: 0,
    }
}

/// A read that starts at `-n` gives the last `n` lines, whatever was trimmed or cleared before.
pub proof fn law_tail_read(t: LineTables, n: i64, max: u32)
    requires
        t.wf(),
        crate::storage::gapless(t),
        n >= 1,
    ensures
        ({
            let start = start_spec(false, None, Some((-n) as i64), last_id_of(t.lines));
            rows_to_read(t.lines, page_plan(start - 1, max as int)) == crate::sql::first_n(
                crate::sql::last_n(t.lines, n as int),
                max as int,
            )
        }),
{
    let rows = t.lines;
    let start = start_spec(false, None, Some((-n) as i64), last_id_of(rows));
    let k = crate::storage::from_id_is_tail(rows, start);
    let kept = crate::sql::last_n(rows, n as int);
    let gone = rows.len() - kept.len();
    assert(kept =~= rows.skip(gone));
    if rows.len() > 0 {
        assert(rows[0].id == t.last_line - rows.len() + 1);
        assert(k == gone) by {
            if k < gone {
                assert(rows[k].id >= start);
            }
            if k > gone {
                assert(rows[gone].id < start);
            }
        }
    }
}

/// A reader that passes the last id it received as `after_line` misses no line and gets none twice.
/// Between the two reads lines may have come. The second read gives the lines after that id, the
/// first of them, in the order of their ids, and each is after all that the first read gave; and where the first read went by
/// ids, what the two give, one after the other, is one run of the lines that are there at the second.
pub proof fn law_incremental_read(
    earlier: LineTables,
    later: LineTables,
    plan: ReadPlan,
    m: u32,
)
    requires
        later.wf(),
        earlier.lines.is_prefix_of(later.lines),
        rows_to_read(earlier.lines, plan).len() > 0,
    ensures
        ({
            let one = rows_to_read(earlier.lines, plan);
            let last = one.last().id;
            let next = start_spec(false, Some(last), None, 0) - 1;
            let two = rows_to_read(later.lines, page_plan(next, m as int));
            &&& two == crate::sql::first_n(
                later.lines.filter(|row: LineRow| last < row.id),
                m as int,
            )
            &&& crate::storage::ids_ascend(one + two)
            &&& plan.since_ns is None ==> one + two == crate::sql::first_n(
                crate::storage::from_id(later.lines, plan.after + 1),
                one.len() + m,
            )
        }),
{
    let a = earlier.lines;
    let b = later.lines;
    let one = rows_to_read(a, plan);
    let last = one.last().id;
    let two = rows_to_read(b, page_plan(last as int, m as int));
    assert forall|i: int, j: int| 0 <= i < j < a.len() implies a[i].id < a[j].id by {
        assert(a[i] == b[i] && a[j] == b[j]);
    }
    let q = crate::storage::from_id_is_tail(b, last + 1);
    assert forall|j: int| 0 <= j < two.len() implies (#[trigger] two[j]).id > last by {
        assert(two[j] == b[q + j]);
    }
    crate::storage::same_filter(
        b,
        |row: LineRow| last + 1 <= row.id,
        |row: LineRow| last < row.id,
    );
    let p = match plan.since_ns {
        Some(ns) => |row: LineRow| (ns as int) < row.ts,
        None => |row: LineRow| plan.after + 1 <= row.id,
    };
    crate::storage::filter_ascends(a, p);
    assert forall|i: int| 0 <= i < one.len() implies (#[trigger] one[i]).id <= last by {
        assert(one[i] == a.filter(p)[i]);
        assert(one.last() == a.filter(p)[one.len() - 1]);
    }
    rows_ascend(later, page_plan(last as int, m as int));
    assert(crate::storage::ids_ascend(one)) by {
        assert forall|i: int, j: int| 0 <= i < j < one.len() implies one[i].id < one[j].id by {
            assert(one[i] == a.filter(p)[i] && one[j] == a.filter(p)[j]);
        }
    }
    if plan.since_ns is None {
        joined_pages(earlier, later, plan, m);
    }
}

/// Two reads by ids join.
proof fn joined_pages(earlier: LineTables, later: LineTables, plan: ReadPlan, m: u32)
    requires
        later.wf(),
        earlier.lines.is_prefix_of(later.lines),
        plan.since_ns is None,
        rows_to_read(earlier.lines, plan).len() > 0,
    ensures
        ({
            let one = rows_to_read(earlier.lines, plan);
            let two = rows_to_read(later.lines, page_plan(one.last().id as int, m as int));
            one + two == crate::sql::first_n(
                crate::storage::from_id(later.lines, plan.after + 1),
                one.len() + m,
            )
        }),
{
    let a = earlier.lines;
    let b = later.lines;
    let one = rows_to_read(a, plan);
    assert forall|i: int, j: int| 0 <= i < j < a.len() implies a[i].id < a[j].id by {
        assert(a[i] == b[i] && a[j] == b[j]);
    }
    let k = crate::storage::from_id_is_tail(a, plan.after + 1);
    let l = crate::storage::from_id_is_tail(b, plan.after + 1);
    assert(k == l) by {
        assert(a[k].id >= plan.after + 1);
        assert(b[k] == a[k]);
        if l < k {
            assert(a[l].id < plan.after + 1);
            assert(b[l] == a[l]);
        }
    }
    assert(one =~= crate::sql::first_n(b.skip(k), one.len() as int));
    crate::storage::law_pages_join(later, plan.after + 1, one.len() as int, m as int);
}

/// No read returns more lines than its limit, and no limit is above 10000.
pub proof fn law_read_limited(rows: Seq<LineRow>, plan: ReadPlan, max_lines: Option<u32>)
    requires
        plan.max == read_limit_spec(max_lines),
    ensures
        rows_to_read(rows, plan).len() <= plan.max <= MAX_READ_LINES,
{
}

/// A read gives the first stored lines that it asks for: those after the time where one is given, and
/// otherwise those after the id.
pub proof fn law_read_rows(t: LineTables, plan: ReadPlan)
    requires
        t.wf(),
    ensures
        crate::storage::are_first(
            rows_to_read(t.lines, plan),
            t.lines,
            |row: LineRow|
                if plan.since_ns is Some {
                    row.ts > plan.since_ns->0
                } else {
                    row.id > plan.after
                },
            plan.max as int,
        ),
{
    let want = |row: LineRow|
        if plan.since_ns is Some {
            row.ts > plan.since_ns->0
        } else {
            row.id > plan.after
        };
    match plan.since_ns {
        Some(ns) => crate::storage::same_filter(
            t.lines,
            |row: LineRow| (ns as int) < row.ts,
            want,
        ),
        None => crate::storage::same_filter(
            t.lines,
            |row: LineRow| plan.after + 1 <= row.id,
            want,
        ),
    }
    crate::storage::picked_are_first(t, want, plan.max as int);
}

/// Where a read starts. A line to read after wins over a line to start at. A start counts from 1, and
/// a negative one from the last line back, but never before line 1. With a time the ids do not matter.
pub proof fn law_read_start(after_line: i64, start_line: i64, other: Option<i64>, last_id: int)
    requires
        last_id >= 0,
    ensures
        start_spec(false, Some(after_line), other, last_id) == after_line + 1,
        start_line >= 1 ==> start_spec(false, None, Some(start_line), last_id) == start_line,
        start_line == 0 ==> start_spec(false, None, Some(start_line), last_id) == 1,
        start_line < 0 && -start_line <= last_id ==> start_spec(
            false,
            None,
            Some(start_line),
            last_id,
        ) == last_id - (-start_line) + 1,
        start_line < 0 && -start_line > last_id ==> start_spec(
            false,
            None,
            Some(start_line),
            last_id,
        ) == 1,
        start_spec(false, None, None, last_id) == 1,
        start_spec(true, other, Some(start_line), last_id) == 1,
        counts_from_end(false, None, Some(start_line)) <==> start_line < 0,
        !counts_from_end(true, other, Some(start_line)),
        !counts_from_end(false, Some(after_line), other),
        !counts_from_end(false, None, None),
{
}

/// The last id is that of the newest line.
pub proof fn law_last_id(t: LineTables, row: LineRow)
    requires
        t.wf(),
    ensures
        t.lines.contains(row) ==> row.id <= last_id_of(t.lines),
        t.lines.len() > 0 ==> exists|i: int|
            0 <= i < t.lines.len() && (#[trigger] t.lines[i]).id == last_id_of(t.lines),
        t.lines.len() == 0 ==> last_id_of(t.lines) == 0,
{
    if t.lines.len() > 0 {
        assert(t.lines[t.lines.len() - 1].id == last_id_of(t.lines));
    }
    if t.lines.contains(row) {
        let k = t.lines.index_of(row);
        assert(t.lines[k] == row);
        if k < t.lines.len() - 1 {
            assert(t.lines[k].id < t.lines[t.lines.len() - 1].id);
        }
    }
}

/// A read returns 100 lines where no limit is given, what is asked for up to 10000, and never more.
pub proof fn law_read_limit(n: u32)
    ensures
        read_limit_spec(None) == 100,
        n <= 10000 ==> read_limit_spec(Some(n)) == n,
        n >= 10000 ==> read_limit_spec(Some(n)) == 10000,
{
}

/// The header of a read's answer: the first id and the last one, and how many lines are stored.
pub open spec fn read_header(rows: Seq<LineRow>, total: u64) -> Seq<char> {
    "[lines "@ + crate::text::signed_dec(rows[0].id as int) + "-"@ + crate::text::signed_dec(
        rows[rows.len() - 1].id as int,
    ) + " of "@ + crate::text::dec(total as nat) + " total]\n"@
}

/// What stands below the header of a read's answer.
pub open spec fn below_header(rows: Seq<LineRow>, after: i64, total: u64, timestamps: bool) -> Seq<
    char,
> {
    if rows.len() == 0 {
        Seq::empty()
    } else {
        read_answer(rows, after, total, timestamps).skip(read_header(rows, total).len() as int)
    }
}

/// The lines of two reads, one after the other, are the lines of both.
proof fn bodies_join(a: Seq<LineRow>, b: Seq<LineRow>, timestamps: bool)
    ensures
        read_body(a + b, timestamps) == read_body(a, timestamps) + read_body(b, timestamps),
    decreases b.len(),
{
    if b.len() == 0 {
        assert(a + b =~= a);
        assert(read_body(a, timestamps) + read_body(b, timestamps) =~= read_body(a, timestamps));
    } else {
        bodies_join(a, b.drop_last(), timestamps);
        assert((a + b).drop_last() =~= a + b.drop_last());
        assert(read_body(a + b, timestamps) =~= read_body(a, timestamps) + read_body(
            b,
            timestamps,
        ));
    }
}

proof fn below_is_body(rows: Seq<LineRow>, after: i64, total: u64, timestamps: bool)
    ensures
        below_header(rows, after, total, timestamps) == read_body(rows, timestamps),
        rows.len() > 0 ==> read_answer(rows, after, total, timestamps) == read_header(rows, total)
            + read_body(rows, timestamps),
{
    if rows.len() > 0 {
        let h = read_header(rows, total);
        let b = read_body(rows, timestamps);
        assert(read_answer(rows, after, total, timestamps) =~= h + b);
        assert((h + b).skip(h.len() as int) =~= b);
    }
}

/// The answer to a read that found lines is the header and then the lines, and what two reads show one
/// after the other, a read of both shows.
pub proof fn law_read_answers_join(
    a: Seq<LineRow>,
    b: Seq<LineRow>,
    after: i64,
    total: u64,
    timestamps: bool,
)
    ensures
        a.len() > 0 ==> read_answer(a, after, total, timestamps) == read_header(a, total)
            + below_header(a, after, total, timestamps),
        below_header(a + b, after, total, timestamps) == below_header(a, after, total, timestamps)
            + below_header(b, after, total, timestamps),
{
    below_is_body(a, after, total, timestamps);
    below_is_body(b, after, total, timestamps);
    below_is_body(a + b, after, total, timestamps);
    bodies_join(a, b, timestamps);
}

proof fn body_of_one(row: LineRow, timestamps: bool)
    ensures
        read_body(seq![row], timestamps) == read_line_text(row, timestamps),
{
    assert(seq![row].drop_last() =~= Seq::empty());
    assert(read_body(seq![row].drop_last(), timestamps) =~= Seq::empty());
    assert(read_body(seq![row], timestamps) =~= read_line_text(row, timestamps));
}

/// A line of a read's answer is the line's text and a line feed, behind its time and a space where
/// times are asked for.
pub proof fn law_read_of_one(row: LineRow, after: i64, total: u64)
    ensures
        below_header(seq![row], after, total, false) == row.text + "\n"@,
        below_header(seq![row], after, total, true) == crate::clock::clock(row.ts as int) + " "@
            + row.text + "\n"@,
{
    below_is_body(seq![row], after, total, false);
    below_is_body(seq![row], after, total, true);
    body_of_one(row, false);
    body_of_one(row, true);
    assert(read_line_text(row, false) =~= row.text + "\n"@);
}

/// Below the header of a read's answer each line stands at its turn, with the lines before it in front
/// and those after it behind, and nothing else.
pub proof fn law_read_answer_lines(
    rows: Seq<LineRow>,
    i: int,
    after: i64,
    total: u64,
    timestamps: bool,
)
    requires
        0 <= i < rows.len(),
    ensures
        below_header(rows, after, total, timestamps) == below_header(
            rows.take(i),
            after,
            total,
            timestamps,
        ) + (if timestamps {
            crate::clock::clock(rows[i].ts as int) + " "@
        } else {
            Seq::empty()
        }) + rows[i].text + "\n"@ + below_header(rows.skip(i + 1), after, total, timestamps),
{
    let one = seq![rows[i]];
    assert(rows =~= rows.take(i) + one + rows.skip(i + 1));
    law_read_answers_join(rows.take(i) + one, rows.skip(i + 1), after, total, timestamps);
    law_read_answers_join(rows.take(i), one, after, total, timestamps);
    below_is_body(one, after, total, timestamps);
    body_of_one(rows[i], timestamps);
    let front = below_header(rows.take(i), after, total, timestamps);
    let back = below_header(rows.skip(i + 1), after, total, timestamps);
    let time = if timestamps {
        crate::clock::clock(rows[i].ts as int) + " "@
    } else {
        Seq::empty()
    };
    assert(front + (time + rows[i].text + "\n"@) + back =~= front + time + rows[i].text + "\n"@
        + back);
}

/// Where a read found nothing, its answer says at which line it was to start and how many lines are
/// stored.
pub proof fn law_empty_read(after: i64, total: u64, timestamps: bool)
    ensures
        read_answer(Seq::empty(), after, total, timestamps) == "[no new lines after "@
            + crate::text::signed_dec(after + 1) + ", "@ + crate::text::dec(total as nat)
            + " total]"@,
{
}

/// A time that 64 bits hold stays as it is, an earlier one becomes the earliest and a later one the
/// latest; so the order of times is kept. A reading in seconds and nanoseconds is that many
/// nanoseconds, and one that failed says why.
pub proof fn law_times(a: int, b: int, secs: i64, part: u32, why: Seq<char>)
    ensures
        i64::MIN <= a <= i64::MAX ==> nearest(a) == a,
        a < i64::MIN ==> nearest(a) == i64::MIN,
        a > i64::MAX ==> nearest(a) == i64::MAX,
        a <= b ==> nearest(a) <= nearest(b),
        i64::MIN <= secs * 1_000_000_000 + part <= i64::MAX ==> iso_ns(Ok((secs, part))) == Ok::<
            i64,
            Seq<char>,
        >((secs * 1_000_000_000 + part) as i64),
        iso_ns(Ok((secs, part))) is Ok,
        iso_ns(Err(why)) == Err::<i64, Seq<char>>("invalid time format: "@ + why),
{
}

/// A range of times holds a line exactly if the line is not before the start, or not before 1970 where
/// only an end is given, and not after the end. Without bounds every line is in range.
pub proof fn law_time_ranges(s: i64, e: i64, row: LineRow)
    ensures
        range_spec(Some(Ok(s)), Some(Ok(e))) matches Ok(r) && (crate::storage::covers(r, row)
            <==> s <= row.ts && row.ts <= e),
        range_spec(Some(Ok(s)), None) matches Ok(r) && (crate::storage::covers(r, row) <==> s
            <= row.ts),
        range_spec(None, Some(Ok(e))) matches Ok(r) && (crate::storage::covers(r, row) <==> 0
            <= row.ts && row.ts <= e),
        range_spec(None, None) matches Ok(r) && crate::storage::covers(r, row),
{
}

/// A bound that is no time is refused with its message, the start's before the end's.
pub proof fn law_time_range_refused(
    start: Option<Result<i64, Seq<char>>>,
    end: Option<Result<i64, Seq<char>>>,
)
    ensures
        range_spec(start, end) is Err <==> (start matches Some(Err(_))) || (end matches Some(
            Err(_),
        )),
        start matches Some(Err(m)) ==> range_spec(start, end) == Err::<
            Option<TimeRange>,
            Seq<char>,
        >(m),
        start matches Some(Err(_)) || (end matches Some(Err(m)) ==> range_spec(start, end) == Err::<
            Option<TimeRange>,
            Seq<char>,
        >(m)),
{
}

/// The bounds that a text stands for.
pub proof fn law_bound_texts(text: Seq<char>, secs: i64, part: u32)
    ensures
        bound_text(None) is None,
        rfc3339(text) == Ok::<(i64, u32), Seq<char>>((secs, part)) && i64::MIN <= secs
            * 1_000_000_000 + part <= i64::MAX ==> bound_text(Some(text)) == Some(
            Ok::<i64, Seq<char>>((secs * 1_000_000_000 + part) as i64),
        ),
        rfc3339(text) matches Err(why) ==> bound_text(Some(text)) == Some(
            Err::<i64, Seq<char>>("invalid time format: "@ + why),
        ),
{
}

/// The status of a port: its name, its state, and what its buffer counts, each under its key. The
/// status that a tool gives also says when the last line came; the resource has no other keys.
pub proof fn law_status_keys(
    port: Seq<char>,
    state: ConnectionState,
    stats: BufferStats,
    key: Seq<char>,
)
    ensures
        ({
            let v = resource_values(port, state, stats);
            let w = status_values(port, state, stats);
            &&& v["port"@] == JsonScalar::Text(port)
            &&& v["state"@] == JsonScalar::Text(state.text())
            &&& v["total_lines"@] == JsonScalar::Number(stats.total_lines as int)
            &&& v["total_bytes"@] == JsonScalar::Number(stats.total_bytes as int)
            &&& v["db_size_bytes"@] == JsonScalar::Number(stats.db_size_bytes as int)
            &&& v.contains_key(key) <==> key == "port"@ || key == "state"@ || key
                == "total_lines"@ || key == "total_bytes"@ || key == "db_size_bytes"@
            &&& w.contains_key(key) <==> v.contains_key(key) || key == "last_activity"@
            &&& v.contains_key(key) ==> w[key] == v[key]
            &&& stats.last_timestamp_ns matches Some(ns) ==> w["last_activity"@]
                == JsonScalar::Text(crate::clock::iso(ns as int))
            &&& stats.last_timestamp_ns is None ==> w["last_activity"@] == JsonScalar::Text(
                "never"@,
            )
        }),
{
    reveal_strlit("port");
    reveal_strlit("state");
    reveal_strlit("total_lines");
    reveal_strlit("total_bytes");
    reveal_strlit("db_size_bytes");
    reveal_strlit("last_activity");
    assert("port"@.len() == 4 && "state"@.len() == 5);
    assert("total_lines"@.len() == 11 && "total_bytes"@.len() == 11);
    assert("db_size_bytes"@.len() == 13 && "last_activity"@.len() == 13);
    assert("total_lines"@[6] != "total_bytes"@[6]);
    assert("db_size_bytes"@[0] != "last_activity"@[0]);
}

/// The address of a port's status is the scheme, the port and the page.
pub proof fn law_resource_address(port: Seq<char>)
    ensures
        resource_uri_spec(port) == "serial://"@ + port + "/status"@,
{
}

/// A list shows every system port and then every managed one, each on a line of its own, in their
/// order, and says so where there is none.
pub proof fn law_list_shows_all(
    a: Seq<Seq<char>>,
    b: Seq<Seq<char>>,
    c: Seq<PortInfo>,
    d: Seq<PortInfo>,
    port: Seq<char>,
    managed: PortInfo,
)
    ensures
        list_text(Seq::empty(), Seq::empty()) == "System ports:\n"@ + "  (none detected)\n"@
            + "\nManaged connections:\n"@ + "  (none)\n"@,
        a.len() > 0 && c.len() > 0 ==> list_text(a, c) == "System ports:\n"@ + system_text(a)
            + "\nManaged connections:\n"@ + managed_text(c),
        a.len() > 0 ==> list_text(a, Seq::empty()) == "System ports:\n"@ + system_text(a)
            + "\nManaged connections:\n"@ + "  (none)\n"@,
        c.len() > 0 ==> list_text(Seq::empty(), c) == "System ports:\n"@
            + "  (none detected)\n"@ + "\nManaged connections:\n"@ + managed_text(c),
        system_text(a + b) == system_text(a) + system_text(b),
        managed_text(c + d) == managed_text(c) + managed_text(d),
        system_text(seq![port]) == "  "@ + port + "\n"@,
        managed_text(seq![managed]) == "  "@ + managed.name@ + " — "@ + managed.state.text()
            + " ("@ + crate::text::dec(managed.total_lines as nat) + " lines)\n"@,
{
    systems_join(a, b);
    managed_join(c, d);
    assert(seq![port].drop_last() =~= Seq::empty());
    assert(seq![managed].drop_last() =~= Seq::empty());
    assert(system_text(seq![port].drop_last()) =~= Seq::empty());
    assert(managed_text(seq![managed].drop_last()) =~= Seq::empty());
    assert(system_text(seq![port]) =~= "  "@ + port + "\n"@);
    assert(managed_text(seq![managed]) =~= managed_line(managed));
}

proof fn systems_join(a: Seq<Seq<char>>, b: Seq<Seq<char>>)
    ensures
        system_text(a + b) == system_text(a) + system_text(b),
    decreases b.len(),
{
    if b.len() == 0 {
        assert(a + b =~= a);
        assert(system_text(a) + system_text(b) =~= system_text(a));
    } else {
        systems_join(a, b.drop_last());
        assert((a + b).drop_last() =~= a + b.drop_last());
        assert(system_text(a + b) =~= system_text(a) + system_text(b));
    }
}

proof fn managed_join(a: Seq<PortInfo>, b: Seq<PortInfo>)
    ensures
        managed_text(a + b) == managed_text(a) + managed_text(b),
    decreases b.len(),
{
    if b.len() == 0 {
        assert(a + b =~= a);
        assert(managed_text(a) + managed_text(b) =~= managed_text(a));
    } else {
        managed_join(a, b.drop_last());
        assert((a + b).drop_last() =~= a + b.drop_last());
        assert(managed_text(a + b) =~= managed_text(a) + managed_text(b));
    }
}

/// Results and optional texts are seen as they are: a value as itself, a message and a text by their
/// characters.
pub proof fn law_outcomes(v: i64, m: String, s: &str)
    ensures
        outcome(Ok::<i64, String>(v)) == Ok::<i64, Seq<char>>(v),
        outcome(Err::<i64, String>(m)) == Err::<i64, Seq<char>>(m@),
        bound(Some(Ok::<i64, String>(v))) == Some(Ok::<i64, Seq<char>>(v)),
        bound(Some(Err::<i64, String>(m))) == Some(Err::<i64, Seq<char>>(m@)),
        bound(None) is None,
        opt_text(Some(s)) == Some(s@),
        opt_text(None) is None,
{
}

} // verus!
