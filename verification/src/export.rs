//! Taking lines out of a buffer: exports to files, archives, and what is said about them.
use vstd::prelude::*;

use crate::clock::{iso_text, stamp_text};
use crate::json::{no_values, new_object, put_i64, put_text, to_compact, JsonScalar};
use crate::sql::LineRow;
use crate::storage::{SqliteStorage, StorageError, StoredLine};
use crate::text::{
    contains, copy_text, flatten, push_dec, push_quotes_doubled, push_signed, quotes_doubled,
    same_text,
};

verus! {

/// The format of an export.
#[derive(Debug, Clone, Copy, PartialEq, Eq, Structural)]
pub enum ExportFormat {
    /// The lines as they are.
    Txt,
    /// Comma-separated values, after RFC 4180.
    Csv,
    /// A JSON object for each line.
    Jsonl,
}

/// The name of the format that is asked for: plain text where none is.
pub fn format_name(file_format: Option<&str>) -> (r: String)
    ensures
        r@ == (match file_format {
            Some(name) => name@,
            None => "txt"@,
        }),
{
    match file_format {
        Some(name) => copy_text(name),
        None => copy_text("txt"),
    }
}

/// A format by its name. Any other name stands for plain text.
pub open spec fn format_of(name: Seq<char>) -> ExportFormat {
    if name == "csv"@ {
        ExportFormat::Csv
    } else if name == "jsonl"@ {
        ExportFormat::Jsonl
    } else {
        ExportFormat::Txt
    }
}

/// A format by its name.
pub fn export_format(name: &str) -> (r: ExportFormat)
    ensures
        r == format_of(name@),
{
    if same_text(name, "csv") {
        ExportFormat::Csv
    } else if same_text(name, "jsonl") {
        ExportFormat::Jsonl
    } else {
        ExportFormat::Txt
    }
}

/// Refuse an output path that leads upwards.
pub fn check_export_path(path: &str) -> (r: Result<(), String>)
    ensures
        r is Err <==> crate::text::has_infix(path@, ".."@),
        r matches Err(m) ==> m@ == "invalid output path: path traversal not allowed"@,
{
    if contains(path, "..") {
        Err(copy_text("invalid output path: path traversal not allowed"))
    } else {
        Ok(())
    }
}

/// Refuse an output path whose directory is named and not there.
pub fn check_export_parent(parent: &str, there: bool) -> (r: Result<(), String>)
    ensures
        r is Err <==> parent@.len() > 0 && !there,
        r matches Err(m) ==> m@ == "parent directory does not exist: "@ + parent@,
{
    if parent.is_empty() || there {
        Ok(())
    } else {
        let mut m = copy_text("parent directory does not exist: ");
        m.append(parent);
        Err(m)
    }
}

/// The rows of an export: by default all from id 1 on.
pub open spec fn export_rows(
    rows: Seq<LineRow>,
    start_line: Option<i64>,
    end_line: Option<i64>,
) -> Seq<LineRow> {
    crate::storage::id_range(
        rows,
        match start_line {
            Some(n) => n as int,
            None => 1,
        },
        match end_line {
            Some(n) => n as int,
            None => i64::MAX as int,
        },
    )
}

/// Read the lines that an export asks for.
pub fn fetch_export(
    storage: &mut SqliteStorage,
    start_line: Option<i64>,
    end_line: Option<i64>,
) -> (r: Result<Vec<StoredLine>, StorageError>)
    ensures
        final(storage).path() == old(storage).path(),
        final(storage).setup() == old(storage).setup(),
        r matches Ok(v) ==> {
            &&& crate::sql::looked(old(storage)@, final(storage)@)
            &&& final(storage)@.now.wf()
            &&& crate::storage::ids_ascend(crate::sql::line_rows(v@))
            &&& crate::sql::line_rows(v@) == export_rows(
                final(storage)@.now.lines,
                start_line,
                end_line,
            )
            &&& forall|i: int|
                0 <= i < v@.len() ==> {
                    let line = #[trigger] v@[i];
                    &&& start_line is None ==> line.id >= 1
                    &&& start_line matches Some(s) ==> line.id >= s
                    &&& end_line matches Some(e) ==> line.id <= e
                }
        },
        r matches Err(e) ==> e is Sqlite && crate::sql::failed(old(storage)@, final(storage)@),
{
    let start: i64 = match start_line {
        Some(n) => n,
        None => 1,
    };
    let end: i64 = match end_line {
        Some(n) => n,
        None => i64::MAX,
    };
    let r = storage.export_range(start, end);
    proof {
        if r is Ok {
            crate::storage::picked_ascend(
                storage@.now,
                |row: LineRow| start as int <= row.id <= end as int,
                -1,
            );
            crate::storage::picked_are_first(
                storage@.now,
                |row: LineRow| start as int <= row.id <= end as int,
                -1,
            );
            let v = r->Ok_0@;
            assert forall|i: int| 0 <= i < v.len() implies {
                let line = #[trigger] v[i];
                start <= line.id <= end
            } by {
                assert(crate::sql::line_rows(v)[i].id == v[i].id);
            }
        }
    }
    r
}

/// The values of a JSON record.
pub open spec fn record_values(l: LineRow) -> Map<Seq<char>, JsonScalar> {
    no_values().insert("line"@, JsonScalar::Number(l.id as int)).insert(
        "timestamp"@,
        JsonScalar::Text(crate::clock::iso(l.ts as int)),
    ).insert("payload"@, JsonScalar::Text(l.text))
}

/// A line in a format.
pub open spec fn record_text(l: LineRow, format: ExportFormat) -> Seq<char> {
    match format {
        ExportFormat::Txt => l.text + "\n"@,
        ExportFormat::Csv => crate::text::signed_dec(l.id as int) + ","@ + crate::clock::iso(
            l.ts as int,
        ) + ",\""@ + quotes_doubled(l.text) + "\"\r\n"@,
        ExportFormat::Jsonl => crate::json::json_compact(record_values(l)) + "\n"@,
    }
}

/// The lines in a format.
pub open spec fn records_text(rows: Seq<LineRow>, format: ExportFormat) -> Seq<char>
    decreases rows.len(),
{
    if rows.len() == 0 {
        Seq::empty()
    } else {
        records_text(rows.drop_last(), format) + record_text(rows.last(), format)
    }
}

/// The content of an exported file.
pub open spec fn file_text(rows: Seq<LineRow>, format: ExportFormat) -> Seq<char> {
    (if format == ExportFormat::Csv {
        "line_number,timestamp,payload\r\n"@
    } else {
        Seq::empty()
    }) + records_text(rows, format)
}

/// The number of line feeds in a text.
pub open spec fn line_feeds(s: Seq<char>) -> nat
    decreases s.len(),
{
    if s.len() == 0 {
        0
    } else {
        line_feeds(s.drop_last()) + (if s.last() == '\n' {
            1nat
        } else {
            0nat
        })
    }
}

/// The line feeds of two texts add up.
proof fn line_feeds_add(a: Seq<char>, b: Seq<char>)
    ensures
        line_feeds(a + b) == line_feeds(a) + line_feeds(b),
    decreases b.len(),
{
    if b.len() == 0 {
        assert(a + b =~= a);
    } else {
        line_feeds_add(a, b.drop_last());
        assert((a + b).drop_last() =~= a + b.drop_last());
    }
}

/// A text without a line feed has none.
proof fn no_line_feeds(s: Seq<char>)
    requires
        !s.contains('\n'),
    ensures
        line_feeds(s) == 0,
    decreases s.len(),
{
    if s.len() > 0 {
        let f = s.drop_last();
        assert(!f.contains('\n')) by {
            if f.contains('\n') {
                let i = f.index_of('\n');
                assert(s[i] == '\n');
            }
        }
        no_line_feeds(f);
        assert(s[s.len() - 1] != '\n');
    }
}

/// Append a line in a format.
fn push_record(out: &mut String, l: &StoredLine, format: ExportFormat)
    ensures
        final(out)@ == old(out)@ + record_text(l.row(), format),
        format == ExportFormat::Jsonl ==> line_feeds(record_text(l.row(), format)) == 1,
{
    let ghost before = out@;
    match format {
        ExportFormat::Txt => {
            out.append(l.payload.as_str());
            out.append("\n");
        },
        ExportFormat::Csv => {
            push_signed(out, l.id);
            out.append(",");
            let t = iso_text(l.timestamp_ns);
            out.append(t.as_str());
            out.append(",\"");
            push_quotes_doubled(out, l.payload.as_str());
            out.append("\"\r\n");
        },
        ExportFormat::Jsonl => {
            let mut m = new_object();
            put_i64(&mut m, "line", l.id);
            let t = iso_text(l.timestamp_ns);
            put_text(&mut m, "timestamp", t.as_str());
            put_text(&mut m, "payload", l.payload.as_str());
            let s = match to_compact(&m) {
                Ok(s) => s,
                Err(_) => String::new(),
            };
            out.append(s.as_str());
            out.append("\n");
            proof {
                reveal_strlit("\n");
                no_line_feeds(s@);
                line_feeds_add(s@, "\n"@);
                assert("\n"@.drop_last() =~= Seq::empty());
                reveal_with_fuel(line_feeds, 2);
            }
        },
    }
    proof {
        assert(out@ =~= before + record_text(l.row(), format));
    }
}

/// The content of an exported file. A JSON record takes one line, whatever it holds.
pub fn export_text(lines: &Vec<StoredLine>, format: ExportFormat) -> (r: String)
    ensures
        r@ == file_text(crate::sql::line_rows(lines@), format),
        format == ExportFormat::Jsonl ==> line_feeds(r@) == lines@.len(),
{
    let ghost rows = crate::sql::line_rows(lines@);
    let mut s = match format {
        ExportFormat::Csv => copy_text("line_number,timestamp,payload\r\n"),
        _ => String::new(),
    };
    let ghost head = s@;
    let mut i: usize = 0;
    proof {
        assert(s@ =~= head + records_text(rows.take(0), format));
    }
    while i < lines.len()
        invariant
            i <= lines@.len(),
            rows == crate::sql::line_rows(lines@),
            s@ == head + records_text(rows.take(i as int), format),
            format == ExportFormat::Jsonl ==> line_feeds(s@) == i,
        decreases lines@.len() - i,
    {
        let ghost before = s@;
        push_record(&mut s, &lines[i], format);
        proof {
            assert(rows.take(i + 1).drop_last() =~= rows.take(i as int));
            assert(rows.take(i + 1).last() == lines@[i as int].row());
            line_feeds_add(before, record_text(lines@[i as int].row(), format));
            assert(s@ =~= head + records_text(rows.take(i + 1), format));
        }
        i = i + 1;
    }
    proof {
        assert(rows.take(lines@.len() as int) =~= rows);
    }
    s
}

/// The answer to an export.
pub fn exported_text(count: u64, path: &str, format_name: &str) -> (r: String)
    ensures
        r@ == "Exported "@ + crate::text::dec(count as nat) + " lines to "@ + path@ + " (format: "@
            + format_name@ + ")"@,
{
    let mut s = copy_text("Exported ");
    push_dec(&mut s, count);
    s.append(" lines to ");
    s.append(path);
    s.append(" (format: ");
    s.append(format_name);
    s.append(")");
    s
}

// --- Archives ---

/// Whether a clear archives: only where that is asked for.
pub fn archive_wanted(archive_current: Option<bool>) -> (r: bool)
    ensures
        r == (archive_current == Some(true)),
{
    match archive_current {
        Some(wanted) => wanted,
        None => false,
    }
}

/// The file that a port's lines are archived in, by the time of the archive.
pub fn archive_file(port: &str, now_ns: i64) -> (r: String)
    ensures
        r@ == crate::text::flat(port@) + "_"@ + crate::clock::stamp(now_ns as int) + ".db"@,
{
    let mut s = flatten(port);
    s.append("_");
    let t = stamp_text(now_ns);
    s.append(t.as_str());
    s.append(".db");
    s
}

/// The answer to a clear: how many lines there were, and where they are archived.
pub open spec fn cleared_spec(total: u64, archive: Option<Seq<char>>) -> Seq<char> {
    "Cleared buffer ("@ + crate::text::dec(total as nat) + (match archive {
        Some(path) => " lines archived to "@ + path + ")"@,
        None => " lines removed)"@,
    })
}

/// The answer to a clear.
pub fn cleared_text(total: u64, archive: Option<&str>) -> (r: String)
    ensures
        r@ == cleared_spec(total, crate::server::opt_text(archive)),
{
    let mut s = copy_text("Cleared buffer (");
    push_dec(&mut s, total);
    match archive {
        Some(path) => {
            s.append(" lines archived to ");
            s.append(path);
            s.append(")");
        },
        None => s.append(" lines removed)"),
    }
    proof {
        assert(s@ =~= cleared_spec(total, crate::server::opt_text(archive)));
    }
    s
}

// --- Laws ---

/// Where a reader of comma-separated values is.
#[derive(Debug, Clone, Copy, PartialEq, Eq, Structural)]
pub enum CsvPlace {
    /// At the beginning of a field.
    Start,
    /// In a field without quotation marks.
    Plain,
    /// In a quoted field.
    Quoted,
    /// After a quotation mark in a quoted field: its end, unless another one follows.
    Mark,
    /// After a carriage return behind a field.
    Return,
    /// After something that is no CSV.
    Lost,
}

/// A reader of comma-separated values.
#[verifier::ext_equal]
pub struct CsvReader {
    pub place: CsvPlace,
    /// The records that are complete.
    pub records: Seq<Seq<Seq<char>>>,
    /// The complete fields of the record that is being read.
    pub fields: Seq<Seq<char>>,
    /// The field that is being read.
    pub field: Seq<char>,
}

impl CsvReader {
    pub open spec fn new() -> CsvReader {
        CsvReader {
            place: CsvPlace::Start,
            records: Seq::empty(),
            fields: Seq::empty(),
            field: Seq::empty(),
        }
    }

    pub open spec fn at(self, place: CsvPlace) -> CsvReader {
        CsvReader { place, ..self }
    }

    /// The character belongs to the field.
    pub open spec fn takes(self, c: char, place: CsvPlace) -> CsvReader {
        CsvReader { place, field: self.field.push(c), ..self }
    }

    /// The field is complete.
    pub open spec fn field_ends(self) -> CsvReader {
        CsvReader {
            place: CsvPlace::Start,
            fields: self.fields.push(self.field),
            field: Seq::empty(),
            ..self
        }
    }

    /// The record is complete.
    pub open spec fn record_ends(self) -> CsvReader {
        CsvReader {
            place: CsvPlace::Start,
            records: self.records.push(self.fields.push(self.field)),
            fields: Seq::empty(),
            field: Seq::empty(),
        }
    }

    /// After one more character, by RFC 4180: a comma ends a field, CR and LF a record; a quoted
    /// field may hold any character, a quotation mark in it being doubled.
    pub open spec fn reads(self, c: char) -> CsvReader {
        match self.place {
            CsvPlace::Start | CsvPlace::Plain => if c == ',' {
                self.field_ends()
            } else if c == '\r' {
                self.at(CsvPlace::Return)
            } else if c == '"' && self.place == CsvPlace::Start {
                self.at(CsvPlace::Quoted)
            } else if c == '"' || c == '\n' {
                self.at(CsvPlace::Lost)
            } else {
                self.takes(c, CsvPlace::Plain)
            },
            CsvPlace::Quoted => if c == '"' {
                self.at(CsvPlace::Mark)
            } else {
                self.takes(c, CsvPlace::Quoted)
            },
            CsvPlace::Mark => if c == '"' {
                self.takes(c, CsvPlace::Quoted)
            } else if c == ',' {
                self.field_ends()
            } else if c == '\r' {
                self.at(CsvPlace::Return)
            } else {
                self.at(CsvPlace::Lost)
            },
            CsvPlace::Return => if c == '\n' {
                self.record_ends()
            } else {
                self.at(CsvPlace::Lost)
            },
            CsvPlace::Lost => self,
        }
    }

    /// After a text.
    pub open spec fn reads_all(self, s: Seq<char>) -> CsvReader
        decreases s.len(),
    {
        if s.len() == 0 {
            self
        } else {
            self.reads_all(s.drop_last()).reads(s.last())
        }
    }
}

/// The records of a text of comma-separated values, each a list of fields; none where the text is no
/// CSV. The last record may do without a line break.
pub open spec fn csv_records(s: Seq<char>) -> Option<Seq<Seq<Seq<char>>>> {
    let end = CsvReader::new().reads_all(s);
    match end.place {
        CsvPlace::Start => Some(
            if end.fields.len() == 0 {
                end.records
            } else {
                end.record_ends().records
            },
        ),
        CsvPlace::Plain | CsvPlace::Mark => Some(end.record_ends().records),
        _ => None,
    }
}

/// A text that can stand in a field without quotation marks.
spec fn plain(s: Seq<char>) -> bool {
    forall|i: int|
        0 <= i < s.len() ==> #[trigger] s[i] != ',' && s[i] != '"' && s[i] != '\r' && s[i] != '\n'
}

/// Reading goes on from text to text.
proof fn reads_on(r: CsvReader, a: Seq<char>, b: Seq<char>)
    ensures
        r.reads_all(a + b) == r.reads_all(a).reads_all(b),
    decreases b.len(),
{
    if b.len() == 0 {
        assert(a + b =~= a);
    } else {
        reads_on(r, a, b.drop_last());
        assert((a + b).drop_last() =~= a + b.drop_last());
    }
}

/// Reading one character.
proof fn reads_one(r: CsvReader, c: char)
    ensures
        r.reads_all(seq![c]) == r.reads(c),
{
    reveal_with_fuel(CsvReader::reads_all, 2);
    assert(seq![c].drop_last() =~= Seq::empty());
}

/// A plain text is read as a field.
proof fn reads_plain(r: CsvReader, s: Seq<char>)
    requires
        r.place == CsvPlace::Start,
        r.field.len() == 0,
        s.len() > 0,
        plain(s),
    ensures
        r.reads_all(s) == (CsvReader { place: CsvPlace::Plain, field: s, ..r }),
    decreases s.len(),
{
    let front = s.drop_last();
    assert forall|i: int| 0 <= i < front.len() implies #[trigger] front[i] != ',' && front[i] != '"'
        && front[i] != '\r' && front[i] != '\n' by {
        assert(front[i] == s[i]);
    }
    assert(s[s.len() - 1] == s.last());
    if front.len() > 0 {
        reads_plain(r, front);
        assert(front.push(s.last()) =~= s);
    } else {
        assert(r.reads_all(front) == r);
        assert(r.field.push(s.last()) =~= s);
    }
}

/// A text with its quotation marks doubled is read as the text.
proof fn reads_doubled(r: CsvReader, s: Seq<char>)
    requires
        r.place == CsvPlace::Quoted,
    ensures
        r.reads_all(quotes_doubled(s)) == (CsvReader { field: r.field + s, ..r }),
    decreases s.len(),
{
    if s.len() == 0 {
        assert(r.field + s =~= r.field);
    } else {
        let front = s.drop_last();
        let d = quotes_doubled(front);
        reads_doubled(r, front);
        let mid = r.reads_all(d);
        assert(mid.field.push(s.last()) =~= r.field + s);
        assert(d.push(s.last()).drop_last() =~= d);
        if s.last() == '"' {
            let e = d.push('"');
            assert(e.push('"').drop_last() =~= e);
            assert(r.reads_all(e) == mid.reads('"'));
            assert(r.reads_all(e.push('"')) == mid.reads('"').reads('"'));
        } else {
            assert(r.reads_all(d.push(s.last())) == mid.reads(s.last()));
        }
    }
}

/// Decimal numbers are plain.
proof fn dec_plain(n: nat)
    ensures
        plain(crate::text::dec(n)),
        crate::text::dec(n).len() > 0,
    decreases n,
{
    if n >= 10 {
        dec_plain(n / 10);
    }
}

/// Digits are plain.
proof fn fixed_plain(n: int, width: nat)
    ensures
        plain(crate::text::fixed_dec(n, width)),
        crate::text::fixed_dec(n, width).len() == width,
    decreases width,
{
    if width > 0 {
        fixed_plain(n / 10, (width - 1) as nat);
    }
}

/// Two plain texts are plain together.
proof fn plain_add(a: Seq<char>, b: Seq<char>)
    requires
        plain(a),
        plain(b),
    ensures
        plain(a + b),
{
    assert forall|i: int| 0 <= i < (a + b).len() implies #[trigger] (a + b)[i] != ',' && (a + b)[i]
        != '"' && (a + b)[i] != '\r' && (a + b)[i] != '\n' by {
        if i < a.len() {
            assert((a + b)[i] == a[i]);
        } else {
            assert((a + b)[i] == b[i - a.len()]);
        }
    }
}

/// Times are plain.
proof fn iso_plain(ns: int)
    ensures
        plain(crate::clock::iso(ns)),
        crate::clock::iso(ns).len() > 0,
{
    let d = crate::clock::date_of(ns / crate::clock::DAY_NS as int);
    let s = ns / 1_000_000_000;
    let (dash, colon, t, dot, z) = (seq!['-'], seq![':'], seq!['T'], seq!['.'], seq!['Z']);
    fixed_plain(d.year, 4);
    fixed_plain(d.month, 2);
    fixed_plain(d.day, 2);
    fixed_plain(s / 3600 % 24, 2);
    fixed_plain(s / 60 % 60, 2);
    fixed_plain(s % 60, 2);
    fixed_plain(ns / 1_000_000 % 1000, 3);
    let (y, mo, da) = (
        crate::text::fixed_dec(d.year, 4),
        crate::text::fixed_dec(d.month, 2),
        crate::text::fixed_dec(d.day, 2),
    );
    plain_add(y, dash);
    plain_add(y + dash, mo);
    plain_add(y + dash + mo, dash);
    plain_add(y + dash + mo + dash, da);
    let date = crate::clock::date_text(d, dash);
    let (h, mi, se, ms) = (
        crate::text::fixed_dec(s / 3600 % 24, 2),
        crate::text::fixed_dec(s / 60 % 60, 2),
        crate::text::fixed_dec(s % 60, 2),
        crate::text::fixed_dec(ns / 1_000_000 % 1000, 3),
    );
    plain_add(h, colon);
    plain_add(h + colon, mi);
    plain_add(h + colon + mi, colon);
    plain_add(h + colon + mi + colon, se);
    let time = crate::clock::day_time(ns, colon);
    plain_add(time, dot);
    plain_add(time + dot, ms);
    plain_add(date, t);
    plain_add(date + t, crate::clock::clock(ns));
    plain_add(date + t + crate::clock::clock(ns), z);
}

/// The fields of a line's record.
pub open spec fn csv_fields(l: LineRow) -> Seq<Seq<char>> {
    seq![crate::text::signed_dec(l.id as int), crate::clock::iso(l.ts as int), l.text]
}

/// A plain field and the comma behind it are read.
proof fn reads_field(r: CsvReader, s: Seq<char>)
    requires
        r.place == CsvPlace::Start,
        r.field.len() == 0,
        s.len() > 0,
        plain(s),
    ensures
        r.reads_all(s + seq![',']) == (CsvReader { fields: r.fields.push(s), ..r }),
{
    reads_plain(r, s);
    reads_on(r, s, seq![',']);
    reads_one(r.reads_all(s), ',');
    assert(r.field =~= Seq::empty());
}

/// The end of a record is read.
proof fn reads_break(r: CsvReader)
    requires
        r.place == CsvPlace::Plain || r.place == CsvPlace::Mark,
    ensures
        r.reads_all(seq!['\r', '\n']) == r.record_ends(),
{
    let (cr, lf) = (seq!['\r'], seq!['\n']);
    assert(cr + lf =~= seq!['\r', '\n']);
    reads_on(r, cr, lf);
    reads_one(r, '\r');
    reads_one(r.reads('\r'), '\n');
}

/// A line's record is read.
proof fn reads_record(r: CsvReader, l: LineRow)
    requires
        r.place == CsvPlace::Start,
        r.field.len() == 0,
        r.fields.len() == 0,
    ensures
        r.reads_all(record_text(l, ExportFormat::Csv)) == (CsvReader {
            records: r.records.push(csv_fields(l)),
            ..r
        }),
{
    reveal_strlit(",");
    reveal_strlit(",\"");
    reveal_strlit("\"\r\n");
    let id = crate::text::signed_dec(l.id as int);
    let time = crate::clock::iso(l.ts as int);
    let body = quotes_doubled(l.text);
    let (comma, mark, end) = (seq![','], seq!['"'], seq!['\r', '\n']);
    dec_plain(
        (if l.id < 0 {
            -l.id
        } else {
            l.id as int
        }) as nat,
    );
    if l.id < 0 {
        plain_add(seq!['-'], crate::text::dec((-l.id) as nat));
    }
    iso_plain(l.ts as int);
    let text = (id + comma) + ((time + comma) + (mark + (body + (mark + end))));
    assert(record_text(l, ExportFormat::Csv) =~= text);
    reads_on(r, id + comma, (time + comma) + (mark + (body + (mark + end))));
    reads_field(r, id);
    let a = r.reads_all(id + comma);
    reads_on(a, time + comma, mark + (body + (mark + end)));
    reads_field(a, time);
    let b = a.reads_all(time + comma);
    reads_on(b, mark, body + (mark + end));
    reads_one(b, '"');
    let c = b.reads('"');
    reads_on(c, body, mark + end);
    reads_doubled(c, l.text);
    let d = c.reads_all(body);
    reads_on(d, mark, end);
    reads_one(d, '"');
    let e = d.reads('"');
    reads_break(e);
    assert(e.field =~= l.text);
    assert(e.fields.push(e.field) =~= csv_fields(l));
    assert(r.fields =~= Seq::empty());
    assert(r.field =~= Seq::empty());
}

/// The records are read one after the other.
proof fn reads_records(r: CsvReader, rows: Seq<LineRow>)
    requires
        r.place == CsvPlace::Start,
        r.field.len() == 0,
        r.fields.len() == 0,
    ensures
        r.reads_all(records_text(rows, ExportFormat::Csv)) == (CsvReader {
            records: r.records + rows.map_values(|l: LineRow| csv_fields(l)),
            ..r
        }),
    decreases rows.len(),
{
    let fields = rows.map_values(|l: LineRow| csv_fields(l));
    if rows.len() == 0 {
        assert(r.records + fields =~= r.records);
    } else {
        let front = rows.drop_last();
        let before = records_text(front, ExportFormat::Csv);
        reads_records(r, front);
        let mid = r.reads_all(before);
        reads_on(r, before, record_text(rows.last(), ExportFormat::Csv));
        reads_record(mid, rows.last());
        assert(mid.records.push(csv_fields(rows.last())) =~= r.records + fields);
    }
}

/// The names of the fields.
pub open spec fn csv_header() -> Seq<Seq<char>> {
    seq!["line_number"@, "timestamp"@, "payload"@]
}

/// A reader of comma-separated values reads an exported file as the names of the fields and then a
/// record for each line, in their order: its id, its time and its payload as it was stored, whatever
/// quotation marks, commas or line breaks are in it.
pub proof fn law_csv_round_trip(rows: Seq<LineRow>)
    ensures
        csv_records(file_text(rows, ExportFormat::Csv)) == Some(
            seq![csv_header()] + rows.map_values(|l: LineRow| csv_fields(l)),
        ),
{
    reveal_strlit("line_number,timestamp,payload\r\n");
    reveal_strlit("line_number");
    reveal_strlit("timestamp");
    reveal_strlit("payload");
    let r = CsvReader::new();
    let (comma, end) = (seq![','], seq!['\r', '\n']);
    let head = "line_number,timestamp,payload\r\n"@;
    assert(head =~= ("line_number"@ + comma) + (("timestamp"@ + comma) + ("payload"@ + end)));
    reads_on(r, "line_number"@ + comma, ("timestamp"@ + comma) + ("payload"@ + end));
    reads_field(r, "line_number"@);
    let a = r.reads_all("line_number"@ + comma);
    reads_on(a, "timestamp"@ + comma, "payload"@ + end);
    reads_field(a, "timestamp"@);
    let b = a.reads_all("timestamp"@ + comma);
    reads_on(b, "payload"@, end);
    reads_plain(b, "payload"@);
    let c = b.reads_all("payload"@);
    reads_break(c);
    let d = c.record_ends();
    assert(c.fields.push(c.field) =~= csv_header());
    assert(d.records =~= seq![csv_header()]);
    reads_on(r, head, records_text(rows, ExportFormat::Csv));
    reads_records(d, rows);
}

/// The records of two ranges, one after the other, are the records of both.
pub proof fn law_exports_join(a: Seq<LineRow>, b: Seq<LineRow>, format: ExportFormat)
    ensures
        records_text(a + b, format) == records_text(a, format) + records_text(b, format),
    decreases b.len(),
{
    if b.len() == 0 {
        assert(a + b =~= a);
        assert(records_text(a, format) + records_text(b, format) =~= records_text(a, format));
    } else {
        law_exports_join(a, b.drop_last(), format);
        assert((a + b).drop_last() =~= a + b.drop_last());
        assert(records_text(a + b, format) =~= records_text(a, format) + records_text(b, format));
    }
}

/// A stored line is in an export exactly if its id is not before the start, or not before 1 where no
/// start is given, and not after the end where one is given. Both bounds are included, and only stored
/// lines are exported.
pub proof fn law_export_bounds(
    rows: Seq<LineRow>,
    start_line: Option<i64>,
    end_line: Option<i64>,
    row: LineRow,
)
    ensures
        export_rows(rows, start_line, end_line).contains(row) <==> {
            &&& rows.contains(row)
            &&& start_line is None ==> row.id >= 1
            &&& start_line matches Some(s) ==> row.id >= s
            &&& end_line matches Some(e) ==> row.id <= e
        },
{
    let start: int = match start_line {
        Some(n) => n as int,
        None => 1,
    };
    let end: int = match end_line {
        Some(n) => n as int,
        None => i64::MAX as int,
    };
    let p = |row: LineRow| start <= row.id <= end;
    let all = rows.filter(p);
    if all.contains(row) {
        crate::storage::filter_subset(rows, p, row);
        rows.lemma_filter_pred(p, all.index_of(row));
    }
    if rows.contains(row) && p(row) {
        rows.lemma_filter_contains(p, rows.index_of(row));
    }
}

/// An export has its lines in the order of their ids, each once, and all that are in its bounds.
pub proof fn law_export_order(
    t: crate::sql::LineTables,
    start_line: Option<i64>,
    end_line: Option<i64>,
)
    requires
        t.wf(),
    ensures
        crate::storage::are_first(
            export_rows(t.lines, start_line, end_line),
            t.lines,
            |row: LineRow|
                {
                    &&& start_line is None ==> row.id >= 1
                    &&& start_line matches Some(s) ==> row.id >= s
                    &&& end_line matches Some(e) ==> row.id <= e
                },
            -1,
        ),
{
    let start: int = match start_line {
        Some(n) => n as int,
        None => 1,
    };
    let end: int = match end_line {
        Some(n) => n as int,
        None => i64::MAX as int,
    };
    let want = |row: LineRow|
        {
            &&& start_line is None ==> row.id >= 1
            &&& start_line matches Some(s) ==> row.id >= s
            &&& end_line matches Some(e) ==> row.id <= e
        };
    crate::storage::same_filter(t.lines, |row: LineRow| start <= row.id <= end, want);
    crate::storage::picked_are_first(t, want, -1);
}

/// Two exports that meet, the second starting behind the end of the first, have between them what one
/// export over both has.
pub proof fn law_exports_meet(rows: Seq<LineRow>, s: i64, m: i64, e: i64, row: LineRow)
    requires
        s <= m < e,
    ensures
        export_rows(rows, Some(s), Some(e)).contains(row) <==> export_rows(
            rows,
            Some(s),
            Some(m),
        ).contains(row) || export_rows(rows, Some((m + 1) as i64), Some(e)).contains(row),
        !(export_rows(rows, Some(s), Some(m)).contains(row) && export_rows(
            rows,
            Some((m + 1) as i64),
            Some(e),
        ).contains(row)),
{
    law_export_bounds(rows, Some(s), Some(e), row);
    law_export_bounds(rows, Some(s), Some(m), row);
    law_export_bounds(rows, Some((m + 1) as i64), Some(e), row);
}

/// The names `csv` and `jsonl` stand for their formats, and any other for plain text.
pub proof fn law_formats(name: Seq<char>)
    ensures
        format_of(name) == ExportFormat::Csv <==> name == "csv"@,
        format_of(name) == ExportFormat::Jsonl <==> name == "jsonl"@,
{
    reveal_strlit("csv");
    reveal_strlit("jsonl");
    assert("csv"@.len() != "jsonl"@.len());
}

/// What a file holds of one line, in each format. Only comma-separated values have a header.
pub proof fn law_file_of_one(row: LineRow)
    ensures
        file_text(Seq::empty(), ExportFormat::Txt).len() == 0,
        file_text(Seq::empty(), ExportFormat::Jsonl).len() == 0,
        file_text(Seq::empty(), ExportFormat::Csv) == "line_number,timestamp,payload\r\n"@,
        file_text(seq![row], ExportFormat::Txt) == row.text + "\n"@,
        file_text(seq![row], ExportFormat::Jsonl) == crate::json::json_compact(record_values(row))
            + "\n"@,
        file_text(seq![row], ExportFormat::Csv) == "line_number,timestamp,payload\r\n"@
            + crate::text::signed_dec(row.id as int) + ","@ + crate::clock::iso(row.ts as int)
            + ",\""@ + quotes_doubled(row.text) + "\"\r\n"@,
{
    assert(seq![row].drop_last() =~= Seq::empty());
    assert forall|f: ExportFormat| #![trigger records_text(seq![row], f)] records_text(seq![row], f)
        == record_text(row, f) by {
        assert(records_text(seq![row].drop_last(), f) =~= Seq::empty());
        assert(records_text(seq![row], f) =~= record_text(row, f));
    }
    assert(file_text(seq![row], ExportFormat::Txt) =~= row.text + "\n"@);
    assert(file_text(seq![row], ExportFormat::Jsonl) =~= crate::json::json_compact(
        record_values(row),
    ) + "\n"@);
    assert(file_text(seq![row], ExportFormat::Csv) =~= "line_number,timestamp,payload\r\n"@
        + crate::text::signed_dec(row.id as int) + ","@ + crate::clock::iso(row.ts as int) + ",\""@
        + quotes_doubled(row.text) + "\"\r\n"@);
    assert(file_text(Seq::empty(), ExportFormat::Csv) =~= "line_number,timestamp,payload\r\n"@);
}

/// A file without a header is the files of its parts, one after the other.
pub proof fn law_files_join(a: Seq<LineRow>, b: Seq<LineRow>, format: ExportFormat)
    ensures
        format != ExportFormat::Csv ==> file_text(a + b, format) == file_text(a, format)
            + file_text(b, format),
        file_text(a + b, ExportFormat::Csv) == file_text(a, ExportFormat::Csv) + file_text(
            b,
            ExportFormat::Csv,
        ).skip("line_number,timestamp,payload\r\n"@.len() as int),
{
    law_exports_join(a, b, format);
    law_exports_join(a, b, ExportFormat::Csv);
    if format != ExportFormat::Csv {
        assert(file_text(a + b, format) =~= file_text(a, format) + file_text(b, format));
    }
    let h = "line_number,timestamp,payload\r\n"@;
    assert(file_text(b, ExportFormat::Csv).skip(h.len() as int) =~= records_text(
        b,
        ExportFormat::Csv,
    ));
    assert(file_text(a + b, ExportFormat::Csv) =~= file_text(a, ExportFormat::Csv) + file_text(
        b,
        ExportFormat::Csv,
    ).skip(h.len() as int));
}

/// A JSON record has the line's id, its time and its text under their keys and nothing else.
pub proof fn law_record_keys(row: LineRow, key: Seq<char>)
    ensures
        record_values(row)["line"@] == JsonScalar::Number(row.id as int),
        record_values(row)["timestamp"@] == JsonScalar::Text(crate::clock::iso(row.ts as int)),
        record_values(row)["payload"@] == JsonScalar::Text(row.text),
        record_values(row).contains_key(key) <==> key == "line"@ || key == "timestamp"@ || key
            == "payload"@,
{
    reveal_strlit("line");
    reveal_strlit("timestamp");
    reveal_strlit("payload");
    assert("line"@.len() == 4 && "timestamp"@.len() == 9 && "payload"@.len() == 7);
}

/// The answer to a clear says how many lines there were and what became of them.
pub proof fn law_cleared_answer(total: u64, path: Seq<char>)
    ensures
        cleared_spec(total, None) == "Cleared buffer ("@ + crate::text::dec(total as nat)
            + " lines removed)"@,
        cleared_spec(total, Some(path)) == "Cleared buffer ("@ + crate::text::dec(total as nat)
            + " lines archived to "@ + path + ")"@,
{
    assert(cleared_spec(total, Some(path)) =~= "Cleared buffer ("@ + crate::text::dec(total as nat)
        + " lines archived to "@ + path + ")"@);
}

} // verus!
