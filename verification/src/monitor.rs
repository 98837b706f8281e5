//! The state of a monitor window: what it shows, what it sends, and its history.
use std::collections::VecDeque;

use vstd::prelude::*;
use vstd::utf8::encode_utf8;

use crate::clock::clock_text;
use crate::control::{hex_part, text_bytes};
use crate::hex::{hex_decode_lossy, hex_encode, hex_format};
use crate::sql::{Db, LineTables};
use crate::storage::{SqliteStorage, StorageError, StoredLine};
use crate::text::{contains, copy_text, push_dec, same_text, trim};

verus! {

/// Maximum lines kept in the display buffer.
pub const MAX_DISPLAY_LINES: usize = 100_000;

/// The most lines that are taken from the buffer at once.
pub const POLL_LINES: u32 = 500;

/// The history entries that are loaded when a window opens.
pub const HISTORY_LOADED: u32 = 500;

/// A line of the display.
pub struct DisplayLine {
    pub timestamp: String,
    pub payload: String,
    /// The bytes for the hex view; none for a line that was sent.
    pub raw_bytes: Option<Vec<u8>>,
    pub is_sent: bool,
}

/// What is appended to a text that is sent.
#[derive(Debug, Clone, Copy, PartialEq, Eq, Structural)]
pub enum LineEnding {
    Nothing,
    Lf,
    CrLf,
    Cr,
}

impl LineEnding {
    /// The bytes of the ending.
    pub open spec fn bytes(self) -> Seq<u8> {
        match self {
            LineEnding::Nothing => Seq::empty(),
            LineEnding::Lf => seq![10u8],
            LineEnding::CrLf => seq![13u8, 10u8],
            LineEnding::Cr => seq![13u8],
        }
    }

    /// The bytes of the ending.
    pub fn suffix(self) -> (r: Vec<u8>)
        ensures
            r@ == self.bytes(),
    {
        let mut v: Vec<u8> = Vec::new();
        match self {
            LineEnding::Nothing => {},
            LineEnding::Lf => v.push(10),
            LineEnding::CrLf => {
                v.push(13);
                v.push(10);
            },
            LineEnding::Cr => v.push(13),
        }
        proof {
            assert(v@ =~= self.bytes());
        }
        v
    }

    /// The name of the ending.
    pub fn label(self) -> (r: &'static str)
        ensures
            r@ == (match self {
                LineEnding::Nothing => "None"@,
                LineEnding::Lf => "LF"@,
                LineEnding::CrLf => "CRLF"@,
                LineEnding::Cr => "CR"@,
            }),
    {
        match self {
            LineEnding::Nothing => "None",
            LineEnding::Lf => "LF",
            LineEnding::CrLf => "CRLF",
            LineEnding::Cr => "CR",
        }
    }
}

// --- Filtering ---

/// A text in small letters.
pub uninterp spec fn lowercase(s: Seq<char>) -> Seq<char>;

/// `str::to_lowercase` of std: the small-letter equivalent by Unicode.
#[verifier::external_body]
pub(crate) fn to_lowercase(s: &str) -> (r: String)
    ensures
        r@ == lowercase(s@),
{
    s.to_lowercase()
}

/// The line passes the filter, letters of either case being equal.
pub open spec fn passes(l: DisplayLine, filter: Seq<char>) -> bool {
    crate::text::has_infix(lowercase(l.payload@), lowercase(filter))
}

/// The places of the lines that pass the filter, in ascending order.
pub open spec fn passing(lines: Seq<DisplayLine>, filter: Seq<char>) -> Seq<usize>
    decreases lines.len(),
{
    if lines.len() == 0 {
        Seq::empty()
    } else if passes(lines.last(), filter) {
        passing(lines.drop_last(), filter).push((lines.len() - 1) as usize)
    } else {
        passing(lines.drop_last(), filter)
    }
}

/// The places that are left, and where they are, once the first `k` lines are gone.
pub open spec fn shifted(places: Seq<usize>, k: int) -> Seq<usize>
    decreases places.len(),
{
    if places.len() == 0 {
        Seq::empty()
    } else if places.last() < k {
        shifted(places.drop_last(), k)
    } else {
        shifted(places.drop_last(), k).push((places.last() - k) as usize)
    }
}

/// Places that pass are places of lines.
pub proof fn passing_are_places(lines: Seq<DisplayLine>, filter: Seq<char>)
    requires
        lines.len() <= usize::MAX,
    ensures
        forall|i: int|
            0 <= i < passing(lines, filter).len() ==> (#[trigger] passing(lines, filter)[i])
                < lines.len() && passes(lines[passing(lines, filter)[i] as int], filter),
        forall|i: int, j: int|
            0 <= i < j < passing(lines, filter).len() ==> passing(lines, filter)[i] < passing(
                lines,
                filter,
            )[j],
        forall|k: int|
            0 <= k < lines.len() && passes(#[trigger] lines[k], filter) ==> passing(
                lines,
                filter,
            ).contains(k as usize),
    decreases lines.len(),
{
    if lines.len() > 0 {
        let front = lines.drop_last();
        passing_are_places(front, filter);
        let p = passing(front, filter);
        let all = passing(lines, filter);
        assert forall|i: int| 0 <= i < all.len() implies (#[trigger] all[i]) < lines.len()
            && passes(lines[all[i] as int], filter) by {
            if i < p.len() {
                assert(all[i] == p[i]);
                assert(front[p[i] as int] == lines[p[i] as int]);
            }
        }
        assert forall|i: int, j: int| 0 <= i < j < all.len() implies all[i] < all[j] by {
            assert(all[i] == p[i]);
            if j < p.len() {
                assert(all[j] == p[j]);
            }
        }
        assert forall|k: int| 0 <= k < lines.len() && passes(#[trigger] lines[k], filter) implies all.contains(
            k as usize,
        ) by {
            if k < front.len() {
                assert(front[k] == lines[k]);
                let i = p.index_of(k as usize);
                assert(all[i] == k);
            } else {
                assert(all[all.len() - 1] == k);
            }
        }
    }
}

/// The places after the first lines are gone are those that pass among the lines that are left.
proof fn shifted_passing(lines: Seq<DisplayLine>, filter: Seq<char>, k: int)
    requires
        0 <= k <= lines.len() <= usize::MAX,
    ensures
        shifted(passing(lines, filter), k) == passing(lines.skip(k), filter),
    decreases lines.len(),
{
    if lines.len() == k {
        assert(lines.skip(k) =~= Seq::empty());
        passing_are_places(lines, filter);
        all_gone(passing(lines, filter), k);
    } else {
        let front = lines.drop_last();
        shifted_passing(front, filter, k);
        assert(lines.skip(k).drop_last() =~= front.skip(k));
        assert(lines.skip(k).last() == lines.last());
        let p = passing(front, filter);
        if passes(lines.last(), filter) {
            let place = (lines.len() - 1) as usize;
            assert(p.push(place).drop_last() =~= p);
        }
    }
}

/// Where every place is among the first `k`, none is left.
proof fn all_gone(places: Seq<usize>, k: int)
    requires
        forall|i: int| 0 <= i < places.len() ==> (#[trigger] places[i]) < k,
    ensures
        shifted(places, k) == Seq::<usize>::empty(),
    decreases places.len(),
{
    if places.len() > 0 {
        let f = places.drop_last();
        assert forall|i: int| 0 <= i < f.len() implies (#[trigger] f[i]) < k by {
            assert(f[i] == places[i]);
        }
        all_gone(f, k);
        assert(places[places.len() - 1] < k);
    }
}

// --- The window ---

/// The state of a monitor window.
pub struct MonitorApp {
    pub port_name: String,
    pub port_info: String,
    pub storage: SqliteStorage,
    pub lines: VecDeque<DisplayLine>,
    pub filtered_indices: Vec<usize>,
    pub auto_follow: bool,
    pub paused: bool,
    pub input: String,
    pub filter: String,
    pub filter_active: bool,
    pub line_ending: LineEnding,
    pub show_timestamps: bool,
    pub hex_view: bool,
    pub dtr_state: bool,
    pub rts_state: bool,
    /// The id of the last line shown; the largest integer before the first look at the buffer.
    pub last_id: i64,
    pub history: Vec<String>,
    /// What came of loading the history when the window opened.
    pub history_load: Result<(), StorageError>,
    pub history_idx: Option<usize>,
    pub history_draft: String,
    pub connected: bool,
}

/// Where the input line is in the history.
pub struct HistoryView {
    pub entries: Seq<Seq<char>>,
    /// The entry that is shown, if one is.
    pub idx: Option<int>,
    /// The input line.
    pub input: Seq<char>,
    /// What was being typed before the history was entered.
    pub draft: Seq<char>,
}

impl HistoryView {
    /// The entry that is shown is one of the history, and the input line shows it.
    pub open spec fn wf(self) -> bool {
        self.idx matches Some(i) ==> 0 <= i < self.entries.len() && self.input == self.entries[i]
    }

    /// One entry up: from the draft to the newest entry, from an entry to the one before it.
    pub open spec fn up(self) -> HistoryView {
        match self.idx {
            None => if self.entries.len() == 0 {
                self
            } else {
                HistoryView {
                    idx: Some(self.entries.len() - 1),
                    input: self.entries.last(),
                    draft: self.input,
                    ..self
                }
            },
            Some(i) => if i == 0 {
                self
            } else {
                HistoryView { idx: Some(i - 1), input: self.entries[i - 1], ..self }
            },
        }
    }

    /// One entry down: from an entry to the one after it, from the newest entry to the draft.
    pub open spec fn down(self) -> HistoryView {
        match self.idx {
            None => self,
            Some(i) => if i + 1 >= self.entries.len() {
                HistoryView { idx: None, input: self.draft, ..self }
            } else {
                HistoryView { idx: Some(i + 1), input: self.entries[i + 1], ..self }
            },
        }
    }
}

/// The display line of a stored line.
pub open spec fn displays(d: DisplayLine, l: crate::sql::LineRow) -> bool {
    &&& d.timestamp@ == crate::clock::clock(l.ts as int)
    &&& d.payload@ == l.text
    &&& d.raw_bytes matches Some(b) && b@ == encode_utf8(l.text)
    &&& !d.is_sent
}

/// The display lines show the stored lines, one for one.
pub open spec fn displays_all(d: Seq<DisplayLine>, rows: Seq<crate::sql::LineRow>) -> bool {
    d.len() == rows.len() && forall|i: int|
        0 <= i < d.len() ==> displays(#[trigger] d[i], rows[i])
}

/// The last items of a display that is cut to its maximum.
pub open spec fn display_cut(lines: Seq<DisplayLine>) -> Seq<DisplayLine> {
    crate::sql::last_n(lines, MAX_DISPLAY_LINES as int)
}

impl MonitorApp {
    /// The filter is on where there is one, and shows exactly the lines that pass it; the place in
    /// the history is one that the history has.
    pub open spec fn wf(self) -> bool {
        &&& self.filter_active == (self.filter@.len() > 0)
        &&& self.filtered_indices@ == (if self.filter_active {
            passing(self.lines@, self.filter@)
        } else {
            Seq::empty()
        })
        &&& self.history_idx matches Some(i) ==> i < self.history@.len()
    }

    /// Where the input line is in the history.
    pub open spec fn history_view(self) -> HistoryView {
        HistoryView {
            entries: crate::text::texts(self.history@),
            idx: match self.history_idx {
                Some(i) => Some(i as int),
                None => None,
            },
            input: self.input@,
            draft: self.history_draft@,
        }
    }

    /// Everything but what the window shows and knows of the buffer is as before.
    pub open spec fn same_but_lines(self, o: MonitorApp) -> bool {
        &&& self.port_name == o.port_name
        &&& self.port_info == o.port_info
        &&& self.auto_follow == o.auto_follow
        &&& self.paused == o.paused
        &&& self.input == o.input
        &&& self.filter == o.filter
        &&& self.filter_active == o.filter_active
        &&& self.line_ending == o.line_ending
        &&& self.show_timestamps == o.show_timestamps
        &&& self.hex_view == o.hex_view
        &&& self.dtr_state == o.dtr_state
        &&& self.rts_state == o.rts_state
        &&& self.history == o.history
        &&& self.history_load == o.history_load
        &&& self.history_idx == o.history_idx
        &&& self.history_draft == o.history_draft
        &&& self.connected == o.connected
    }

    /// A new window, with the history that the buffer holds.
    pub fn new(port_name: &str, port_info: &str, storage: SqliteStorage) -> (r: MonitorApp)
        ensures
            r.wf(),
            r.port_name@ == port_name@,
            r.port_info@ == port_info@,
            r.lines@.len() == 0,
            r.input@.len() == 0,
            r.filter@.len() == 0,
            r.auto_follow && !r.paused && r.show_timestamps && !r.hex_view && r.connected,
            !r.dtr_state && !r.rts_state,
            r.line_ending == LineEnding::CrLf,
            r.last_id == i64::MAX,
            r.history_idx is None,
            r.history_draft@.len() == 0,
            r.storage.path() == storage.path(),
            r.storage.setup() == storage.setup(),
            match r.history_load {
                Ok(_) => crate::sql::looked(storage@, r.storage@) && crate::text::texts(r.history@)
                    == crate::sql::command_texts(
                    crate::sql::last_n(r.storage@.now.commands, HISTORY_LOADED as int),
                ),
                Err(e) => e is Sqlite && crate::sql::failed(storage@, r.storage@)
                    && r.history@.len() == 0,
            },
    {
        let mut storage = storage;
        let (history, history_load): (Vec<String>, Result<(), StorageError>) =
            match storage.load_send_history(HISTORY_LOADED) {
            Ok(h) => (h, Ok(())),
            Err(e) => (Vec::new(), Err(e)),
        };
        MonitorApp {
            port_name: copy_text(port_name),
            port_info: copy_text(port_info),
            storage,
            lines: VecDeque::new(),
            filtered_indices: Vec::new(),
            auto_follow: true,
            paused: false,
            input: String::new(),
            filter: String::new(),
            filter_active: false,
            line_ending: LineEnding::CrLf,
            show_timestamps: true,
            hex_view: false,
            dtr_state: false,
            rts_state: false,
            last_id: i64::MAX,
            history,
            history_load,
            history_idx: None,
            history_draft: String::new(),
            connected: true,
        }
    }

    /// Work out which lines pass the filter.
    pub fn rebuild_filter(&mut self)
        ensures
            final(self).same_but_lines(MonitorApp { filter_active: final(self).filter_active, ..*old(self) }),
            final(self).storage == old(self).storage,
            final(self).lines@ == old(self).lines@,
            final(self).last_id == old(self).last_id,
            final(self).filter_active == (old(self).filter_active && old(self).filter@.len() > 0),
            final(self).filtered_indices@ == (if old(self).filter@.len() == 0 {
                Seq::empty()
            } else {
                passing(old(self).lines@, old(self).filter@)
            }),
    {
        if self.filter.as_str().is_empty() {
            self.filter_active = false;
            self.filtered_indices = Vec::new();
            return;
        }
        let query = to_lowercase(self.filter.as_str());
        let mut places: Vec<usize> = Vec::new();
        let n: usize = self.lines.len();
        let mut i: usize = 0;
        while i < n
            invariant
                i <= n,
                n == self.lines@.len(),
                query@ == lowercase(self.filter@),
                places@ == passing(self.lines@.take(i as int), self.filter@),
            decreases n - i,
        {
            proof {
                assert(self.lines@.take(i + 1).drop_last() =~= self.lines@.take(i as int));
            }
            let payload = to_lowercase(self.lines[i].payload.as_str());
            if contains(payload.as_str(), query.as_str()) {
                places.push(i);
            }
            i = i + 1;
        }
        proof {
            assert(self.lines@.take(n as int) =~= self.lines@);
        }
        self.filtered_indices = places;
    }

    /// Drop the oldest lines beyond the maximum.
    pub fn cut_display(&mut self)
        requires
            old(self).wf(),
        ensures
            final(self).wf(),
            final(self).same_but_lines(*old(self)),
            final(self).storage == old(self).storage,
            final(self).last_id == old(self).last_id,
            final(self).lines@ == display_cut(old(self).lines@),
    {
        if self.lines.len() <= MAX_DISPLAY_LINES {
            return;
        }
        let k: usize = self.lines.len() - MAX_DISPLAY_LINES;
        let mut gone: usize = 0;
        proof {
            assert(old(self).lines@.skip(0) =~= old(self).lines@);
        }
        while gone < k
            invariant
                gone <= k,
                old(self).lines@.len() - k == MAX_DISPLAY_LINES,
                self.lines@ == old(self).lines@.skip(gone as int),
                self.same_but_lines(*old(self)),
                self.storage == old(self).storage,
                self.last_id == old(self).last_id,
                self.filtered_indices == old(self).filtered_indices,
            decreases k - gone,
        {
            let _ = self.lines.pop_front();
            gone = gone + 1;
            proof {
                assert(self.lines@ =~= old(self).lines@.skip(gone as int));
            }
        }
        let mut places: Vec<usize> = Vec::new();
        let mut i: usize = 0;
        proof {
            assert(self.filtered_indices@.take(0) =~= Seq::empty());
        }
        while i < self.filtered_indices.len()
            invariant
                i <= self.filtered_indices@.len(),
                places@ == shifted(self.filtered_indices@.take(i as int), k as int),
            decreases self.filtered_indices@.len() - i,
        {
            proof {
                assert(self.filtered_indices@.take(i + 1).drop_last()
                    =~= self.filtered_indices@.take(i as int));
            }
            let p: usize = self.filtered_indices[i];
            if p >= k {
                places.push(p - k);
            }
            i = i + 1;
        }
        proof {
            assert(self.filtered_indices@.take(i as int) =~= self.filtered_indices@);
            if old(self).filter_active {
                shifted_passing(old(self).lines@, old(self).filter@, k as int);
            }
        }
        self.filtered_indices = places;
        proof {
            assert(self.lines@ =~= display_cut(old(self).lines@));
            assert(self.filtered_indices@ =~= (if self.filter_active {
                passing(self.lines@, self.filter@)
            } else {
                Seq::empty()
            }));
        }
    }

    /// Show the lines that have come. The first look at the buffer passes over as many ids as there
    /// are lines. Where the buffer cannot be read, nothing is shown and the error is handed back.
    pub fn poll(&mut self) -> (r: Result<(), StorageError>)
        requires
            old(self).wf(),
        ensures
            final(self).wf(),
            final(self).same_but_lines(*old(self)),
            final(self).storage.path() == old(self).storage.path(),
            final(self).storage.setup() == old(self).storage.setup(),
            old(self).paused ==> r is Ok && final(self).storage@ == old(self).storage@
                && final(self).last_id == old(self).last_id && final(self).lines@ == display_cut(
                old(self).lines@,
            ),
            !old(self).paused && r is Ok ==> exists|
                mid: Db<LineTables>,
                from: i64,
                fresh: Seq<DisplayLine>,
            | #[trigger] polled(*old(self), *final(self), mid, from, fresh),
            r matches Err(e) ==> {
                &&& e is Sqlite
                &&& final(self).lines@ == display_cut(old(self).lines@)
                &&& {
                    ||| old(self).last_id == i64::MAX && final(self).last_id == i64::MAX
                        && crate::sql::failed(old(self).storage@, final(self).storage@)
                    ||| exists|mid: Db<LineTables>, from: i64| #[trigger]
                        place_found(*old(self), mid, from) && from < i64::MAX
                            && final(self).last_id == from && crate::sql::failed(
                            mid,
                            final(self).storage@,
                        )
                }
            },
    {
        if self.paused {
            self.cut_display();
            return Ok(());
        }
        let from: i64 = match self.find_place() {
            Ok(from) => from,
            Err(e) => {
                self.cut_display();
                return Err(e);
            },
        };
        let ghost mid = self.storage@;
        proof {
            assert(place_found(*old(self), mid, from));
        }
        let r = self.bring(from);
        let ghost fresh = self.lines@.skip(old(self).lines@.len() as int);
        proof {
            assert(self.lines@ =~= old(self).lines@ + fresh);
        }
        self.cut_display();
        proof {
            if r is Ok {
                assert(polled(*old(self), *self, mid, from, fresh));
            }
        }
        r
    }

    /// Find out where the next look at the buffer begins.
    fn find_place(&mut self) -> (r: Result<i64, StorageError>)
        requires
            old(self).wf(),
        ensures
            final(self).wf(),
            final(self).same_but_lines(*old(self)),
            final(self).storage.path() == old(self).storage.path(),
            final(self).storage.setup() == old(self).storage.setup(),
            final(self).lines == old(self).lines,
            final(self).last_id == old(self).last_id,
            r matches Ok(from) ==> place_found(*old(self), final(self).storage@, from),
            r matches Err(e) ==> e is Sqlite && old(self).last_id == i64::MAX
                && crate::sql::failed(old(self).storage@, final(self).storage@),
    {
        if self.last_id < i64::MAX {
            return Ok(self.last_id);
        }
        match self.storage.get_stats(0) {
            Ok(stats) => Ok(
                if stats.total_lines <= i64::MAX as u64 {
                    stats.total_lines as i64
                } else {
                    0
                },
            ),
            Err(e) => Err(e),
        }
    }

    /// Show the lines after the id `from`.
    fn bring(&mut self, from: i64) -> (r: Result<(), StorageError>)
        requires
            old(self).wf(),
        ensures
            final(self).wf(),
            final(self).same_but_lines(*old(self)),
            final(self).storage.path() == old(self).storage.path(),
            final(self).storage.setup() == old(self).storage.setup(),
            final(self).lines@.len() >= old(self).lines@.len(),
            final(self).lines@.take(old(self).lines@.len() as int) == old(self).lines@,
            r is Ok ==> brought(
                old(self).storage@,
                *final(self),
                from,
                final(self).lines@.skip(old(self).lines@.len() as int),
            ),
            r matches Err(e) ==> {
                &&& e is Sqlite
                &&& final(self).lines@ == old(self).lines@
                &&& from < i64::MAX
                &&& final(self).last_id == from
                &&& crate::sql::failed(old(self).storage@, final(self).storage@)
            },
    {
        self.last_id = from;
        proof {
            assert(self.lines@.take(self.lines@.len() as int) =~= self.lines@);
        }
        if from == i64::MAX {
            return Ok(());
        }
        let v = match self.storage.read_lines(from + 1, POLL_LINES) {
            Ok(v) => v,
            Err(e) => return Err(e),
        };
        self.take_lines(&v);
        proof {
            if v@.len() > 0 {
                assert(crate::sql::line_rows(v@).last() == v@.last().row());
            }
            crate::storage::picked_ascend(
                self.storage@.now,
                |row: crate::sql::LineRow| from + 1 <= row.id,
                POLL_LINES as int,
            );
        }
        Ok(())
    }

    /// Append stored lines to the display, and those that pass to what the filter shows.
    pub fn take_lines(&mut self, v: &Vec<StoredLine>)
        requires
            old(self).wf(),
        ensures
            final(self).wf(),
            final(self).same_but_lines(*old(self)),
            final(self).storage == old(self).storage,
            final(self).lines@.len() == old(self).lines@.len() + v@.len(),
            final(self).lines@.take(old(self).lines@.len() as int) == old(self).lines@,
            displays_all(
                final(self).lines@.skip(old(self).lines@.len() as int),
                crate::sql::line_rows(v@),
            ),
            final(self).last_id == (if v@.len() == 0 {
                old(self).last_id
            } else {
                v@.last().id
            }),
    {
        self.show(v);
        if v.len() > 0 {
            self.rebuild_filter();
        } else {
            proof {
                assert(self.lines@ =~= old(self).lines@);
            }
        }
    }

    /// Append stored lines to the display.
    fn show(&mut self, v: &Vec<StoredLine>)
        ensures
            final(self).same_but_lines(*old(self)),
            final(self).storage == old(self).storage,
            final(self).filtered_indices == old(self).filtered_indices,
            final(self).lines@.len() == old(self).lines@.len() + v@.len(),
            final(self).lines@.take(old(self).lines@.len() as int) == old(self).lines@,
            displays_all(
                final(self).lines@.skip(old(self).lines@.len() as int),
                crate::sql::line_rows(v@),
            ),
            final(self).last_id == (if v@.len() == 0 {
                old(self).last_id
            } else {
                v@.last().id
            }),
    {
        let mut i: usize = 0;
        proof {
            assert(self.lines@.take(self.lines@.len() as int) =~= self.lines@);
        }
        while i < v.len()
            invariant
                i <= v@.len(),
                self.same_but_lines(*old(self)),
                self.storage == old(self).storage,
                self.filtered_indices == old(self).filtered_indices,
                self.lines@.len() == old(self).lines@.len() + i,
                self.lines@.take(old(self).lines@.len() as int) == old(self).lines@,
                forall|k: int|
                    0 <= k < i ==> displays(
                        #[trigger] self.lines@[old(self).lines@.len() + k],
                        v@[k].row(),
                    ),
                self.last_id == (if i == 0 {
                    old(self).last_id
                } else {
                    v@[i - 1].id
                }),
            decreases v@.len() - i,
        {
            let ghost before = self.lines@;
            let line = DisplayLine {
                timestamp: clock_text(v[i].timestamp_ns),
                payload: copy_text(v[i].payload.as_str()),
                raw_bytes: Some(text_bytes(v[i].payload.as_str())),
                is_sent: false,
            };
            self.lines.push_back(line);
            self.last_id = v[i].id;
            proof {
                let n = old(self).lines@.len() as int;
                assert(self.lines@.take(n) =~= before.take(n));
                assert forall|k: int| 0 <= k < i + 1 implies displays(
                    #[trigger] self.lines@[n + k],
                    v@[k].row(),
                ) by {
                    if k < i {
                        assert(self.lines@[n + k] == before[n + k]);
                    }
                }
            }
            i = i + 1;
        }
        proof {
            let fresh = self.lines@.skip(old(self).lines@.len() as int);
            assert forall|i: int| 0 <= i < fresh.len() implies displays(
                #[trigger] fresh[i],
                crate::sql::line_rows(v@)[i],
            ) by {
                assert(fresh[i] == self.lines@[old(self).lines@.len() + i]);
            }
        }
    }

    /// Empty the display.
    pub fn clear_display(&mut self)
        requires
            old(self).wf(),
        ensures
            final(self).wf(),
            final(self).same_but_lines(*old(self)),
            final(self).storage == old(self).storage,
            final(self).last_id == old(self).last_id,
            final(self).lines@.len() == 0,
    {
        self.lines = VecDeque::new();
        self.filtered_indices = Vec::new();
        proof {
            assert(self.filtered_indices@ =~= passing(self.lines@, self.filter@));
        }
    }

    /// Filter by another text. The empty text switches the filter off.
    pub fn set_filter(&mut self, filter: &str)
        requires
            old(self).wf(),
        ensures
            final(self).wf(),
            final(self).filter@ == filter@,
            final(self).lines@ == old(self).lines@,
            final(self).storage == old(self).storage,
            final(self).last_id == old(self).last_id,
            final(self).same_but_lines(
                (MonitorApp {
                    filter: final(self).filter,
                    filter_active: final(self).filter_active,
                    ..*old(self)
                }),
            ),
    {
        self.filter = copy_text(filter);
        self.filter_active = !filter.is_empty();
        self.rebuild_filter();
    }

    /// Stop or go on showing lines.
    pub fn toggle_pause(&mut self)
        ensures
            *final(self) == (MonitorApp { paused: !old(self).paused, ..*old(self) }),
    {
        self.paused = !self.paused;
    }

    /// Follow the end of the display again once the user is there, and stop following once the user
    /// scrolls away from it.
    pub fn follow(&mut self, at_bottom: bool, scrolled: bool)
        ensures
            *final(self) == (MonitorApp {
                auto_follow: if at_bottom {
                    true
                } else {
                    old(self).auto_follow && !scrolled
                },
                ..*old(self)
            }),
    {
        if at_bottom && !self.auto_follow {
            self.auto_follow = true;
        } else if !at_bottom && self.auto_follow && scrolled {
            self.auto_follow = false;
        }
    }

    /// Take the input line: the bytes to send, where there is anything to send. The line joins the
    /// history, unless it repeats the last entry, and the display.
    pub fn send_input(&mut self, now_ns: i64) -> (r: Option<SentInput>)
        requires
            old(self).wf(),
        ensures
            final(self).wf(),
            r is Some <==> crate::text::trimmed(old(self).input@).len() > 0,
            r is None ==> *final(self) == *old(self),
            r matches Some(sent) ==> {
                let text = crate::text::trimmed(old(self).input@);
                &&& sent.data@ == input_bytes(text, old(self).line_ending)
                &&& final(self).input@.len() == 0
                &&& final(self).history_idx is None
                &&& final(self).history_draft@.len() == 0
                &&& crate::text::texts(final(self).history@) == history_with(
                    crate::text::texts(old(self).history@),
                    text,
                )
                &&& sent_line(final(self).lines@.last(), text, now_ns)
                &&& final(self).lines@ == old(self).lines@.push(final(self).lines@.last())
                &&& final(self).last_id == old(self).last_id
                &&& if repeats(crate::text::texts(old(self).history@), text) {
                    sent.kept is Ok && final(self).storage == old(self).storage
                } else {
                    &&& final(self).storage.path() == old(self).storage.path()
                    &&& final(self).storage.setup() == old(self).storage.setup()
                    &&& history_kept(
                        old(self).storage@,
                        final(self).storage@,
                        now_ns,
                        text,
                        sent.kept,
                    )
                }
                &&& final(self).same_but_lines(
                    (MonitorApp {
                        input: final(self).input,
                        history: final(self).history,
                        history_idx: final(self).history_idx,
                        history_draft: final(self).history_draft,
                        ..*old(self)
                    }),
                )
            },
    {
        let text = trim(self.input.as_str());
        if text.as_str().is_empty() {
            return None;
        }
        let n: usize = self.history.len();
        let again: bool = n > 0 && same_text(self.history[n - 1].as_str(), text.as_str());
        proof {
            assert(again == repeats(crate::text::texts(old(self).history@), text@));
        }
        let kept: Result<(), StorageError> = if again {
            Ok(())
        } else {
            self.history.push(copy_text(text.as_str()));
            self.storage.append_send_history(now_ns, text.as_str())
        };
        proof {
            assert(crate::text::texts(self.history@) =~= history_with(
                crate::text::texts(old(self).history@),
                text@,
            ));
        }
        self.history_idx = None;
        self.history_draft = String::new();
        let data = match hex_part(text.as_str()) {
            Some(hex) => hex_decode_lossy(hex.as_str()),
            None => {
                let mut b = text_bytes(text.as_str());
                let mut end = self.line_ending.suffix();
                b.append(&mut end);
                b
            },
        };
        self.lines.push_back(
            DisplayLine {
                timestamp: clock_text(now_ns),
                payload: text,
                raw_bytes: None,
                is_sent: true,
            },
        );
        if self.filter_active {
            self.rebuild_filter();
        }
        self.input = String::new();
        Some(SentInput { data, kept })
    }

    /// Go to the entry before in the history. What was being typed is kept.
    pub fn history_up(&mut self)
        requires
            old(self).wf(),
        ensures
            final(self).wf(),
            final(self).lines@ == old(self).lines@,
            final(self).storage == old(self).storage,
            final(self).last_id == old(self).last_id,
            final(self).same_but_lines(
                (MonitorApp {
                    input: final(self).input,
                    history_idx: final(self).history_idx,
                    history_draft: final(self).history_draft,
                    ..*old(self)
                }),
            ),
            final(self).history_view() == old(self).history_view().up(),
    {
        let n: usize = self.history.len();
        if n == 0 {
            return;
        }
        match self.history_idx {
            None => {
                self.history_draft = copy_text(self.input.as_str());
                self.history_idx = Some(n - 1);
                self.input = copy_text(self.history[n - 1].as_str());
            },
            Some(idx) => {
                if idx > 0 {
                    self.history_idx = Some(idx - 1);
                    self.input = copy_text(self.history[idx - 1].as_str());
                }
            },
        }
    }

    /// Go to the entry after in the history; after the last one, back to what was being typed.
    pub fn history_down(&mut self)
        requires
            old(self).wf(),
        ensures
            final(self).wf(),
            final(self).lines@ == old(self).lines@,
            final(self).storage == old(self).storage,
            final(self).last_id == old(self).last_id,
            final(self).same_but_lines(
                (MonitorApp {
                    input: final(self).input,
                    history_idx: final(self).history_idx,
                    ..*old(self)
                }),
            ),
            final(self).history_view() == old(self).history_view().down(),
    {
        let n: usize = self.history.len();
        match self.history_idx {
            None => {},
            Some(idx) => {
                if idx + 1 >= n {
                    self.history_idx = None;
                    self.input = copy_text(self.history_draft.as_str());
                } else {
                    self.history_idx = Some(idx + 1);
                    self.input = copy_text(self.history[idx + 1].as_str());
                }
            },
        }
    }

    /// The number of rows to show.
    pub fn row_count(&self) -> (r: usize)
        ensures
            r == (if self.filter_active {
                self.filtered_indices@.len()
            } else {
                self.lines@.len()
            }),
    {
        if self.filter_active {
            self.filtered_indices.len()
        } else {
            self.lines.len()
        }
    }

    /// The place of the line in a row.
    pub fn row_line(&self, row: usize) -> (r: Option<usize>)
        requires
            self.wf(),
        ensures
            match r {
                Some(i) => i < self.lines@.len() && (if self.filter_active {
                    row < self.filtered_indices@.len() && i == self.filtered_indices@[row as int]
                } else {
                    i == row
                }),
                None => row >= (if self.filter_active {
                    self.filtered_indices@.len()
                } else {
                    self.lines@.len()
                }),
            },
    {
        let n: usize = self.lines.len();
        proof {
            passing_are_places(self.lines@, self.filter@);
        }
        if self.filter_active {
            if row < self.filtered_indices.len() {
                Some(self.filtered_indices[row])
            } else {
                None
            }
        } else if row < n {
            Some(row)
        } else {
            None
        }
    }

    /// What is said about the display: the number of lines, and of those that are shown.
    pub fn count_text(&self) -> (r: (String, Option<String>))
        ensures
            r.0@ == "Lines: "@ + crate::text::dec(self.lines@.len()),
            r.1 is Some <==> self.filter_active,
            r.1 matches Some(t) ==> t@ == "(showing "@ + crate::text::dec(
                self.filtered_indices@.len(),
            ) + ")"@,
    {
        let mut s = copy_text("Lines: ");
        push_dec(&mut s, self.lines.len() as u64);
        if self.filter_active {
            let mut t = copy_text("(showing ");
            push_dec(&mut t, self.filtered_indices.len() as u64);
            t.append(")");
            (s, Some(t))
        } else {
            (s, None)
        }
    }
}

/// What came of an input line that was sent.
pub struct SentInput {
    /// The bytes to send.
    pub data: Vec<u8>,
    /// The line was kept in the stored history.
    pub kept: Result<(), StorageError>,
}

/// Where the next look at the buffer begins: after the last line shown, or, at the first look, after
/// as many ids as there are lines.
pub open spec fn place_found(old: MonitorApp, mid: Db<LineTables>, from: i64) -> bool {
    if old.last_id != i64::MAX {
        mid == old.storage@ && from == old.last_id
    } else {
        crate::sql::looked(old.storage@, mid) && from == (if mid.now.lines.len() <= i64::MAX {
            mid.now.lines.len() as i64
        } else {
            0
        })
    }
}

/// `fresh` are the lines after the id `from`, the first of them, that the buffer had, in the order of
/// their ids.
pub open spec fn brought(
    mid: Db<LineTables>,
    new: MonitorApp,
    from: i64,
    fresh: Seq<DisplayLine>,
) -> bool {
    let rows = crate::sql::first_n(
        crate::storage::from_id(new.storage@.now.lines, from + 1),
        POLL_LINES as int,
    );
    if from < i64::MAX {
        &&& crate::sql::looked(mid, new.storage@)
        &&& crate::storage::ids_ascend(rows)
        &&& displays_all(fresh, rows)
        &&& new.last_id == (if rows.len() == 0 {
            from
        } else {
            rows.last().id
        })
    } else {
        new.storage@ == mid && fresh.len() == 0 && new.last_id == from
    }
}

/// A look at the buffer: `from` is where it begins, and `fresh` are the lines that it brings.
pub open spec fn polled(
    old: MonitorApp,
    new: MonitorApp,
    mid: Db<LineTables>,
    from: i64,
    fresh: Seq<DisplayLine>,
) -> bool {
    &&& place_found(old, mid, from)
    &&& new.lines@ == display_cut(old.lines@ + fresh)
    &&& brought(mid, new, from, fresh)
}

/// The bytes of an input line: hex as far as it can be decoded, or the text with its ending.
pub open spec fn input_bytes(text: Seq<char>, ending: LineEnding) -> Seq<u8> {
    if crate::control::is_hex(text) {
        crate::hex::good_bytes(
            crate::hex::loose_pairs(encode_utf8(crate::text::without_blanks(text.skip(2)))),
        )
    } else {
        encode_utf8(text) + ending.bytes()
    }
}

/// The text repeats the last entry of the history.
pub open spec fn repeats(history: Seq<Seq<char>>, text: Seq<char>) -> bool {
    history.len() > 0 && history.last() == text
}

/// The history after a text was sent.
pub open spec fn history_with(history: Seq<Seq<char>>, text: Seq<char>) -> Seq<Seq<char>> {
    if repeats(history, text) {
        history
    } else {
        history.push(text)
    }
}

/// The display line of a text that was sent.
pub open spec fn sent_line(d: DisplayLine, text: Seq<char>, now_ns: i64) -> bool {
    &&& d.timestamp@ == crate::clock::clock(now_ns as int)
    &&& d.payload@ == text
    &&& d.raw_bytes is None
    &&& d.is_sent
}

/// The buffer after a command was to join its send history, by what came of it.
pub open spec fn history_kept(
    old: Db<LineTables>,
    new: Db<LineTables>,
    ts: i64,
    command: Seq<char>,
    kept: Result<(), StorageError>,
) -> bool {
    match kept {
        Ok(_) => exists|mid: Db<LineTables>| #[trigger]
            crate::storage::command_stored(old, mid, ts, command) && crate::storage::history_cut(
                mid,
                new,
            ),
        Err(e) => e is Sqlite && (crate::sql::failed(old, new) || exists|mid: Db<LineTables>|
            #[trigger]
            crate::storage::command_stored(old, mid, ts, command) && crate::sql::failed(mid, new)),
    }
}

// --- What a window sends to its server ---

/// The line that carries bytes to the server.
pub fn data_line(data: &Vec<u8>) -> (r: String)
    ensures
        r@ == "__data:"@ + crate::hex::hex_text(data@),
{
    let mut s = copy_text("__data:");
    let h = hex_encode(data);
    s.append(h.as_str());
    s
}

/// The line that sets DTR.
pub open spec fn dtr_spec(on: bool) -> Seq<char> {
    if on {
        "__signal:dtr:1"@
    } else {
        "__signal:dtr:0"@
    }
}

/// The line that sets DTR.
pub fn dtr_line(on: bool) -> (r: &'static str)
    ensures
        r@ == dtr_spec(on),
{
    if on {
        "__signal:dtr:1"
    } else {
        "__signal:dtr:0"
    }
}

/// The line that sets RTS.
pub open spec fn rts_spec(on: bool) -> Seq<char> {
    if on {
        "__signal:rts:1"@
    } else {
        "__signal:rts:0"@
    }
}

/// The line that sets RTS.
pub fn rts_line(on: bool) -> (r: &'static str)
    ensures
        r@ == rts_spec(on),
{
    if on {
        "__signal:rts:1"
    } else {
        "__signal:rts:0"
    }
}

/// The line that asks for a reset.
pub open spec fn reset_spec() -> Seq<char> {
    "__macro:reset"@
}

/// The line that asks for a reset.
pub fn reset_line() -> (r: &'static str)
    ensures
        r@ == reset_spec(),
{
    "__macro:reset"
}

/// The line that asks for the bootloader.
pub open spec fn bootloader_spec() -> Seq<char> {
    "__macro:enter_bootloader"@
}

/// The line that asks for the bootloader.
pub fn bootloader_line() -> (r: &'static str)
    ensures
        r@ == bootloader_spec(),
{
    "__macro:enter_bootloader"
}

/// The message where a window's database cannot be opened.
pub fn open_failure_text(e: &StorageError) -> (r: String)
    ensures
        r@ == "failed to open DB: "@ + (e.kind() + e.words()),
{
    let mut s = copy_text("failed to open DB: ");
    let why = e.message();
    s.append(why.as_str());
    s
}

// --- How lines are shown ---

/// The colour of a line.
#[derive(Debug, Clone, Copy, PartialEq, Eq, Structural)]
pub enum Tone {
    Error,
    Warning,
    Debug,
    Info,
    Plain,
}

/// The colour of a line, by the marks in it.
pub open spec fn tone_spec(text: Seq<char>) -> Tone {
    if crate::text::has_infix(text, "[ERROR]"@) || crate::text::has_infix(text, "[PANIC]"@)
        || crate::text::has_infix(text, "error"@) {
        Tone::Error
    } else if crate::text::has_infix(text, "[WARN]"@) || crate::text::has_infix(text, "warning"@) {
        Tone::Warning
    } else if crate::text::has_infix(text, "[DEBUG]"@) {
        Tone::Debug
    } else if crate::text::has_infix(text, "[INFO]"@) {
        Tone::Info
    } else {
        Tone::Plain
    }
}

/// The colour of a line.
pub fn tone(text: &str) -> (r: Tone)
    ensures
        r == tone_spec(text@),
{
    if contains(text, "[ERROR]") || contains(text, "[PANIC]") || contains(text, "error") {
        Tone::Error
    } else if contains(text, "[WARN]") || contains(text, "warning") {
        Tone::Warning
    } else if contains(text, "[DEBUG]") {
        Tone::Debug
    } else if contains(text, "[INFO]") {
        Tone::Info
    } else {
        Tone::Plain
    }
}

/// A line as it is shown.
pub enum Shown {
    Sent(String),
    Hex(String),
    Text(String, Tone),
}

impl DisplayLine {
    /// The line as it is shown: what was sent is marked, and the rest is shown in hex or in colour.
    pub fn shown(&self, hex_view: bool) -> (r: Shown)
        ensures
            match r {
                Shown::Sent(t) => self.is_sent && t@ == ">> "@ + self.payload@,
                Shown::Hex(t) => !self.is_sent && hex_view && t@ == (match self.raw_bytes {
                    Some(b) => crate::hex::hex_dump(b@),
                    None => Seq::empty(),
                }),
                Shown::Text(t, c) => !self.is_sent && !hex_view && t@ == self.payload@ && c
                    == tone_spec(self.payload@),
            },
    {
        if self.is_sent {
            let mut s = copy_text(">> ");
            s.append(self.payload.as_str());
            Shown::Sent(s)
        } else if hex_view {
            Shown::Hex(
                match &self.raw_bytes {
                    Some(b) => hex_format(b.as_slice()),
                    None => String::new(),
                },
            )
        } else {
            Shown::Text(copy_text(self.payload.as_str()), tone(self.payload.as_str()))
        }
    }
}

/// The title of a window.
pub fn window_title(version: &str, port: &str, info: &str) -> (r: String)
    ensures
        r@ == "devserial "@ + version@ + " — "@ + port@ + " — "@ + info@,
{
    let mut s = copy_text("devserial ");
    s.append(version);
    s.append(" — ");
    s.append(port);
    s.append(" — ");
    s.append(info);
    s
}

// --- Laws ---

/// The display never holds more lines than its maximum, and it holds the newest.
pub proof fn law_display_bounded(lines: Seq<DisplayLine>)
    ensures
        display_cut(lines).len() <= MAX_DISPLAY_LINES,
        display_cut(lines) == lines.skip(lines.len() - display_cut(lines).len()),
{
    assert(display_cut(lines) =~= lines.skip(lines.len() - display_cut(lines).len()));
}

/// So many entries up.
pub open spec fn ups(h: HistoryView, k: nat) -> HistoryView
    decreases k,
{
    if k == 0 {
        h
    } else {
        ups(h, (k - 1) as nat).up()
    }
}

/// So many entries down.
pub open spec fn downs(h: HistoryView, k: nat) -> HistoryView
    decreases k,
{
    if k == 0 {
        h
    } else {
        downs(h.down(), (k - 1) as nat)
    }
}

/// How many entries there are above.
pub open spec fn above(h: HistoryView) -> int {
    match h.idx {
        None => h.entries.len() as int,
        Some(i) => i,
    }
}

/// In the history, as many entries down undo as many entries up: they lead back to what was there,
/// and on the way up the entries are shown from the newest to the oldest.
pub proof fn law_history_down_undoes_up(h: HistoryView, k: nat)
    requires
        h.wf(),
        k <= above(h),
    ensures
        ups(h, k).wf(),
        k > 0 ==> ups(h, k).idx == Some(above(h) - k) && ups(h, k).input == h.entries[above(h) - k],
        ups(h, k).entries == h.entries,
        downs(ups(h, k), k).idx == h.idx,
        downs(ups(h, k), k).input == h.input,
    decreases k,
{
    if k > 0 {
        let before = ups(h, (k - 1) as nat);
        law_history_down_undoes_up(h, (k - 1) as nat);
        if k > 1 {
            assert(before.up().down() == before);
        } else {
            reveal_with_fuel(downs, 2);
            reveal_with_fuel(ups, 2);
        }
    }
}

/// What an input line sends. A text that is not marked as hex is sent as it is, and only then an
/// ending comes after it: none, a line feed, a carriage return, or both in that order. A marked text
/// has no ending.
pub proof fn law_input_bytes(text: Seq<char>, ending: LineEnding, bytes: Seq<u8>)
    ensures
        !crate::control::is_hex(text) ==> {
            &&& input_bytes(text, LineEnding::Nothing) == encode_utf8(text)
            &&& input_bytes(text, LineEnding::Lf) == encode_utf8(text).push(10)
            &&& input_bytes(text, LineEnding::Cr) == encode_utf8(text).push(13)
            &&& input_bytes(text, LineEnding::CrLf) == encode_utf8(text).push(13).push(10)
        },
        crate::control::is_hex(text) ==> input_bytes(text, ending) == input_bytes(
            text,
            LineEnding::Nothing,
        ),
        input_bytes("0x"@ + crate::hex::hex_text(bytes), ending) == bytes,
        input_bytes("0x"@ + crate::hex::hex_dump(bytes), ending) == bytes,
{
    let t = encode_utf8(text);
    assert(t + Seq::<u8>::empty() =~= t);
    assert(t + seq![10u8] =~= t.push(10));
    assert(t + seq![13u8] =~= t.push(13));
    assert(t + seq![13u8, 10u8] =~= t.push(13).push(10));
    reveal_strlit("0x");
    let h = "0x"@ + crate::hex::hex_text(bytes);
    assert(h.subrange(0, 2) =~= "0x"@);
    assert(h.skip(2) =~= crate::hex::hex_text(bytes));
    let d = "0x"@ + crate::hex::hex_dump(bytes);
    assert(d.subrange(0, 2) =~= "0x"@);
    assert(d.skip(2) =~= crate::hex::hex_dump(bytes));
    crate::hex::law_hex_round_trip(bytes);
    crate::hex::law_dump_round_trip(bytes);
    crate::hex::law_hex_text_form(bytes);
    nothing_blank(crate::hex::hex_text(bytes));
}

/// A text without blanks stays as it is when they are taken out.
proof fn nothing_blank(s: Seq<char>)
    requires
        forall|i: int| 0 <= i < s.len() ==> #[trigger] s[i] != ' ',
    ensures
        crate::text::without_blanks(s) == s,
    decreases s.len(),
{
    if s.len() > 0 {
        nothing_blank(s.drop_last());
        assert(s[s.len() - 1] != ' ');
        assert(s.drop_last().push(s.last()) =~= s);
    }
}

/// The places that a filter leaves are those of the lines whose text has the filter in it, letters of
/// either case being equal, in ascending order.
pub proof fn law_filter(lines: Seq<DisplayLine>, filter: Seq<char>)
    requires
        lines.len() <= usize::MAX,
    ensures
        forall|i: int, j: int|
            0 <= i < j < passing(lines, filter).len() ==> passing(lines, filter)[i] < passing(
                lines,
                filter,
            )[j],
        forall|i: int|
            0 <= i < passing(lines, filter).len() ==> {
                let k = #[trigger] passing(lines, filter)[i];
                k < lines.len() && crate::text::has_infix(
                    lowercase(lines[k as int].payload@),
                    lowercase(filter),
                )
            },
        forall|k: int|
            0 <= k < lines.len() && crate::text::has_infix(
                lowercase((#[trigger] lines[k]).payload@),
                lowercase(filter),
            ) ==> passing(lines, filter).contains(k as usize),
    decreases lines.len(),
{
    if lines.len() > 0 {
        let rest = lines.drop_last();
        law_filter(rest, filter);
        let p = passing(rest, filter);
        let q = passing(lines, filter);
        assert forall|i: int| 0 <= i < q.len() implies {
            let k = #[trigger] q[i];
            k < lines.len() && crate::text::has_infix(
                lowercase(lines[k as int].payload@),
                lowercase(filter),
            )
        } by {
            if i < p.len() {
                assert(q[i] == p[i]);
                assert(rest[p[i] as int] == lines[p[i] as int]);
            }
        }
        assert forall|i: int, j: int| 0 <= i < j < q.len() implies q[i] < q[j] by {
            assert(q[i] == p[i]);
            if j < p.len() {
                assert(q[j] == p[j]);
            }
        }
        assert forall|k: int|
            0 <= k < lines.len() && crate::text::has_infix(
                lowercase((#[trigger] lines[k]).payload@),
                lowercase(filter),
            ) implies q.contains(k as usize) by {
            if k < rest.len() {
                assert(rest[k] == lines[k]);
                let i = p.index_of(k as usize);
                assert(q[i] == k as usize);
            } else {
                assert(q[q.len() - 1] == k as usize);
            }
        }
    }
}

/// Dropping lines from the front moves the places of those that stay and forgets the others, so what
/// passes a filter is the same as if only the later lines had ever been there.
pub proof fn law_shifted(a: Seq<usize>, b: Seq<usize>, place: usize, k: int)
    requires
        k >= 0,
    ensures
        shifted(a + b, k) == shifted(a, k) + shifted(b, k),
        place < k ==> shifted(seq![place], k).len() == 0,
        place >= k ==> shifted(seq![place], k) == seq![(place - k) as usize],
    decreases b.len(),
{
    reveal_with_fuel(shifted, 2);
    assert(seq![place].drop_last() =~= Seq::empty());
    assert(shifted(seq![place].drop_last(), k) =~= Seq::empty());
    if place >= k {
        assert(shifted(seq![place], k) =~= seq![(place - k) as usize]);
    }
    if b.len() == 0 {
        assert(a + b =~= a);
        assert(shifted(a, k) + shifted(b, k) =~= shifted(a, k));
    } else {
        law_shifted(a, b.drop_last(), place, k);
        assert((a + b).drop_last() =~= a + b.drop_last());
        assert(shifted(a + b, k) =~= shifted(a, k) + shifted(b, k));
    }
}

/// One entry up shows the one before, and from the line being typed the newest, keeping what was typed.
/// At the oldest entry it stays.
pub proof fn law_history_up(h: HistoryView)
    ensures
        h.up().entries == h.entries,
        h.entries.len() == 0 && h.idx is None ==> h.up() == h,
        h.entries.len() > 0 && h.idx is None ==> h.up().idx == Some(h.entries.len() - 1)
            && h.up().input == h.entries[h.entries.len() - 1] && h.up().draft == h.input,
        h.idx == Some(0int) ==> h.up() == h,
        h.idx matches Some(i) ==> i > 0 ==> h.up().idx == Some(i - 1) && h.up().input
            == h.entries[i - 1] && h.up().draft == h.draft,
        h.down().entries == h.entries,
        h.down().draft == h.draft,
        h.idx is None ==> h.down() == h,
        h.idx matches Some(i) ==> i == h.entries.len() - 1 ==> h.down().idx is None
            && h.down().input == h.draft,
        h.idx matches Some(i) ==> i < h.entries.len() - 1 ==> h.down().idx == Some(i + 1)
            && h.down().input == h.entries[i + 1],
{
}

/// A text that was sent is the last entry of the history, once: sending it again adds nothing. Nothing
/// else is lost or moved.
pub proof fn law_history_with(history: Seq<Seq<char>>, text: Seq<char>)
    ensures
        history_with(history, text).last() == text,
        history_with(history_with(history, text), text) == history_with(history, text),
        history.is_prefix_of(history_with(history, text)),
        history_with(history, text).len() <= history.len() + 1,
        history.len() > 0 && history[history.len() - 1] == text ==> history_with(history, text)
            == history,
        history.len() == 0 || history[history.len() - 1] != text ==> history_with(history, text)
            == history.push(text),
{
}

/// A stored line is shown with its time of day, its text and its bytes, and as one that was received;
/// a text that was sent with the time of sending, and as one that was sent.
pub proof fn law_shown_lines(
    d: Seq<DisplayLine>,
    rows: Seq<crate::sql::LineRow>,
    i: int,
    sent: DisplayLine,
    text: Seq<char>,
    now_ns: i64,
)
    requires
        displays_all(d, rows),
        sent_line(sent, text, now_ns),
    ensures
        d.len() == rows.len(),
        0 <= i < rows.len() ==> {
            &&& d[i].timestamp@ == crate::clock::clock(rows[i].ts as int)
            &&& d[i].payload@ == rows[i].text
            &&& d[i].raw_bytes is Some
            &&& d[i].raw_bytes->0@ == encode_utf8(rows[i].text)
            &&& !d[i].is_sent
        },
        sent.timestamp@ == crate::clock::clock(now_ns as int),
        sent.payload@ == text,
        sent.raw_bytes is None,
        sent.is_sent,
{
}

/// A display keeps its newest 100000 lines, in their order.
pub proof fn law_display_keeps_newest(lines: Seq<DisplayLine>)
    ensures
        lines.len() <= 100_000 ==> display_cut(lines) == lines,
        lines.len() > 100_000 ==> display_cut(lines).len() == 100_000 && forall|i: int|
            0 <= i < 100_000 ==> #[trigger] display_cut(lines)[i] == lines[lines.len() - 100_000
                + i],
{
}

/// A look at the buffer brings the first 500 stored lines after the last one that the window knows, and
/// puts them behind those that it shows; then the last of them is the one that it knows. Where none came
/// it knows what it knew.
pub proof fn law_polled(
    before: MonitorApp,
    after: MonitorApp,
    mid: Db<LineTables>,
    from: i64,
    fresh: Seq<DisplayLine>,
)
    requires
        polled(before, after, mid, from, fresh),
        after.storage@.now.wf(),
        before.last_id < i64::MAX,
    ensures
        from == before.last_id,
        exists|rows: Seq<crate::sql::LineRow>|
            {
                &&& #[trigger] displays_all(fresh, rows)
                &&& crate::storage::are_first(
                    rows,
                    after.storage@.now.lines,
                    |row: crate::sql::LineRow| row.id > before.last_id,
                    500,
                )
                &&& rows.len() > 0 ==> after.last_id == rows[rows.len() - 1].id
                &&& rows.len() == 0 ==> after.last_id == before.last_id
            },
        after.lines@ == display_cut(before.lines@ + fresh),
{
    let rows = crate::sql::first_n(
        crate::storage::from_id(after.storage@.now.lines, from + 1),
        POLL_LINES as int,
    );
    let want = |row: crate::sql::LineRow| row.id > before.last_id;
    crate::storage::same_filter(
        after.storage@.now.lines,
        |row: crate::sql::LineRow| from + 1 <= row.id,
        want,
    );
    crate::storage::picked_are_first(after.storage@.now, want, 500);
    assert(displays_all(fresh, rows));
}

/// The colour of a line follows the worst mark in it. Errors and panics come before warnings, those
/// before what is there for debugging, and that before what is there to know.
pub proof fn law_tones(text: Seq<char>)
    ensures
        tone_spec(text) == Tone::Error <==> crate::text::has_infix(text, "[ERROR]"@)
            || crate::text::has_infix(text, "[PANIC]"@) || crate::text::has_infix(text, "error"@),
        tone_spec(text) == Tone::Warning <==> tone_spec(text) != Tone::Error && (
        crate::text::has_infix(text, "[WARN]"@) || crate::text::has_infix(text, "warning"@)),
        tone_spec(text) == Tone::Debug <==> tone_spec(text) != Tone::Error && tone_spec(text)
            != Tone::Warning && crate::text::has_infix(text, "[DEBUG]"@),
        tone_spec(text) == Tone::Info <==> tone_spec(text) != Tone::Error && tone_spec(text)
            != Tone::Warning && tone_spec(text) != Tone::Debug && crate::text::has_infix(
            text,
            "[INFO]"@,
        ),
{
}

/// What brings lines into a window leaves the rest of it alone: the port, what is typed, the filter, the
/// ending, the ways of showing, the signals and the history.
pub proof fn law_rest_untouched(a: MonitorApp, b: MonitorApp)
    requires
        a.same_but_lines(b),
    ensures
        a.port_name == b.port_name && a.port_info == b.port_info,
        a.auto_follow == b.auto_follow && a.paused == b.paused && a.connected == b.connected,
        a.input == b.input && a.line_ending == b.line_ending,
        a.filter == b.filter && a.filter_active == b.filter_active,
        a.show_timestamps == b.show_timestamps && a.hex_view == b.hex_view,
        a.dtr_state == b.dtr_state && a.rts_state == b.rts_state,
        a.history == b.history && a.history_idx == b.history_idx && a.history_draft
            == b.history_draft && a.history_load == b.history_load,
{
}

/// Where the input line is in the history is read off the window: its entries, the one that is shown,
/// the line and what was typed before.
pub proof fn law_history_seen(app: MonitorApp, i: int)
    ensures
        app.history_view().entries.len() == app.history@.len(),
        0 <= i < app.history@.len() ==> app.history_view().entries[i] == app.history@[i]@,
        app.history_view().input == app.input@,
        app.history_view().draft == app.history_draft@,
        app.history_idx is None <==> app.history_view().idx is None,
        app.history_idx matches Some(k) ==> app.history_view().idx == Some(k as int),
{
}

/// In a private buffer a command that was kept is the newest of at most 1000, behind the newest of those
/// that were there.
pub proof fn law_history_kept(
    before: Db<LineTables>,
    after: Db<LineTables>,
    ts: i64,
    command: Seq<char>,
)
    requires
        before.alone,
        history_kept(before, after, ts, command, Ok(())),
    ensures
        after.now.commands.len() == (if before.now.commands.len() < 1000 {
            before.now.commands.len() + 1
        } else {
            1000
        }),
        after.now.commands.last().text == command,
        after.now.commands.last().ts == ts,
        after.now.lines == before.now.lines,
{
    let mid = choose|mid: Db<LineTables>| #[trigger]
        crate::storage::command_stored(before, mid, ts, command) && crate::storage::history_cut(
            mid,
            after,
        );
    crate::storage::law_command_appended(before, mid, after, ts, command);
}

/// How many lines a look brings and how many entries of the history are loaded, at most.
pub proof fn law_portions()
    ensures
        POLL_LINES == 500,
        HISTORY_LOADED == 500,
        crate::tui::POLL_LINES == 500,
{
}

/// A look begins after the last line that the window knows.
pub proof fn law_place_found(app: MonitorApp, mid: Db<LineTables>, from: i64)
    requires
        place_found(app, mid, from),
    ensures
        app.last_id < i64::MAX ==> from == app.last_id && mid == app.storage@,
        app.last_id == i64::MAX && mid.now.lines.len() <= i64::MAX ==> from
            == mid.now.lines.len(),
        app.last_id == i64::MAX && app.storage@.alone ==> mid == app.storage@,
{
}

} // verus!
