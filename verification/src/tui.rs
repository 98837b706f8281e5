//! The state of the terminal monitor: its lines, its keys and its scrolling.
use vstd::prelude::*;
use vstd::utf8::encode_utf8;

use crate::clock::clock_text;
use crate::control::text_bytes;
use crate::sql::LineRow;
use crate::storage::{SqliteStorage, StorageError, StoredLine};
use crate::text::{contains, copy_text, push_dec, without_last};

verus! {

/// The most lines that are taken from the buffer at once.
pub const POLL_LINES: u32 = 500;

/// The rows of the terminal that show no lines.
pub const OTHER_ROWS: u16 = 6;

/// The lines that a page key scrolls.
pub const PAGE_LINES: usize = 20;

/// The state of the terminal monitor.
pub struct AppState {
    /// The lines: time of day and payload.
    pub lines: Vec<(String, String)>,
    /// The id of the last line.
    pub last_id: i64,
    /// The first line that is shown.
    pub scroll_offset: usize,
    /// The newest lines are shown as they come.
    pub auto_follow: bool,
    pub input: String,
    pub port_name: String,
    pub baud: u32,
}

/// A key of the terminal.
#[derive(Debug, Clone, Copy, PartialEq, Eq, Structural)]
pub enum TuiKey {
    CtrlC,
    Char(char),
    Backspace,
    Enter,
    Up,
    Down,
    PageUp,
    PageDown,
    End,
    Other,
}

/// What a key asks for.
pub enum KeyAction {
    /// Go on.
    Continue,
    /// Leave the monitor.
    Quit,
    /// Write the bytes to the port.
    Send(Vec<u8>),
}

/// A line of the display, as texts.
pub open spec fn line_view(l: (String, String)) -> (Seq<char>, Seq<char>) {
    (l.0@, l.1@)
}

/// The lines of the display, as texts.
pub open spec fn lines_view(v: Seq<(String, String)>) -> Seq<(Seq<char>, Seq<char>)> {
    v.map_values(|l: (String, String)| line_view(l))
}

/// The display lines of stored lines.
pub open spec fn rows_view(rows: Seq<LineRow>) -> Seq<(Seq<char>, Seq<char>)> {
    rows.map_values(|l: LineRow| (crate::clock::clock(l.ts as int), l.text))
}

/// The lines that fit into the terminal. A terminal of unknown height is taken to fit 20.
pub open spec fn visible_spec(height: Option<u16>) -> usize {
    match height {
        Some(h) => if h < OTHER_ROWS {
            0
        } else {
            (h - OTHER_ROWS) as usize
        },
        None => 20,
    }
}

/// The lines that fit into the terminal.
pub fn visible_rows(height: Option<u16>) -> (r: usize)
    ensures
        r == visible_spec(height),
{
    match height {
        Some(h) => if h < OTHER_ROWS {
            0
        } else {
            (h - OTHER_ROWS) as usize
        },
        None => 20,
    }
}

/// The furthest that `len` lines can be scrolled.
pub open spec fn max_scroll(len: int, visible: int) -> int {
    if visible >= len {
        0
    } else {
        len - visible
    }
}

/// The smaller of two numbers.
pub open spec fn least(a: int, b: int) -> int {
    if a < b {
        a
    } else {
        b
    }
}

/// The input line after a key.
pub open spec fn input_after(input: Seq<char>, key: TuiKey) -> Seq<char> {
    match key {
        TuiKey::Char(c) => if c == 'q' && input.len() == 0 {
            input
        } else {
            input.push(c)
        },
        TuiKey::Backspace => if input.len() == 0 {
            input
        } else {
            input.drop_last()
        },
        TuiKey::Enter => Seq::empty(),
        _ => input,
    }
}

/// The first line that is shown after a key.
pub open spec fn scroll_after(offset: int, len: int, visible: int, key: TuiKey) -> int {
    match key {
        TuiKey::Up => if offset >= 1 {
            offset - 1
        } else {
            0
        },
        TuiKey::PageUp => if offset >= PAGE_LINES {
            offset - PAGE_LINES
        } else {
            0
        },
        TuiKey::Down => least(offset + 1, max_scroll(len, visible)),
        TuiKey::PageDown => least(offset + PAGE_LINES, max_scroll(len, visible)),
        _ => offset,
    }
}

/// Whether the newest lines are followed after a key: scrolling up stops it, reaching the end or the
/// key for it starts it.
pub open spec fn follow_after(
    follow: bool,
    offset: int,
    len: int,
    visible: int,
    key: TuiKey,
) -> bool {
    match key {
        TuiKey::Up | TuiKey::PageUp => false,
        TuiKey::Down | TuiKey::PageDown => follow || scroll_after(offset, len, visible, key)
            >= max_scroll(len, visible),
        TuiKey::End => true,
        _ => follow,
    }
}

/// What a key asks for: Ctrl+C leaves, and so does `q` on an empty input line; Enter sends the input
/// line with a line ending.
pub open spec fn asks_for(input: Seq<char>, key: TuiKey, action: KeyAction) -> bool {
    match key {
        TuiKey::CtrlC => action is Quit,
        TuiKey::Char(c) => if c == 'q' && input.len() == 0 {
            action is Quit
        } else {
            action is Continue
        },
        TuiKey::Enter => if input.len() > 0 {
            action matches KeyAction::Send(b) && b@ == encode_utf8(input) + seq![13u8, 10u8]
        } else {
            action is Continue
        },
        _ => action is Continue,
    }
}

/// No id is above the largest.
proof fn none_beyond(rows: Seq<LineRow>)
    ensures
        crate::storage::from_id(rows, i64::MAX + 1) == Seq::<LineRow>::empty(),
    decreases rows.len(),
{
    reveal(Seq::filter);
    if rows.len() > 0 {
        none_beyond(rows.drop_last());
    }
}

impl AppState {
    /// The first line that is shown is a line, or the end.
    pub open spec fn wf(self) -> bool {
        self.scroll_offset <= self.lines@.len()
    }

    pub fn new(port_name: &str, baud: u32) -> (r: AppState)
        ensures
            r.wf(),
            r.lines@.len() == 0,
            r.last_id == 0,
            r.scroll_offset == 0,
            r.auto_follow,
            r.input@.len() == 0,
            r.port_name@ == port_name@,
            r.baud == baud,
    {
        AppState {
            lines: Vec::new(),
            last_id: 0,
            scroll_offset: 0,
            auto_follow: true,
            input: String::new(),
            port_name: copy_text(port_name),
            baud,
        }
    }

    /// Show stored lines after those that are shown.
    pub fn take_lines(&mut self, v: &Vec<StoredLine>)
        requires
            old(self).wf(),
        ensures
            final(self).wf(),
            lines_view(final(self).lines@) == lines_view(old(self).lines@) + rows_view(
                crate::sql::line_rows(v@),
            ),
            *final(self) == (AppState {
                lines: final(self).lines,
                last_id: if v@.len() == 0 {
                    old(self).last_id
                } else {
                    v@.last().id
                },
                ..*old(self)
            }),
    {
        let ghost rows = crate::sql::line_rows(v@);
        let mut i: usize = 0;
        proof {
            assert(lines_view(self.lines@) =~= lines_view(old(self).lines@) + rows_view(
                rows.take(0),
            ));
        }
        while i < v.len()
            invariant
                i <= v@.len(),
                rows == crate::sql::line_rows(v@),
                self.lines@.len() == old(self).lines@.len() + i,
                lines_view(self.lines@) == lines_view(old(self).lines@) + rows_view(
                    rows.take(i as int),
                ),
                *self == (AppState {
                    lines: self.lines,
                    last_id: if i == 0 {
                        old(self).last_id
                    } else {
                        v@[i - 1].id
                    },
                    ..*old(self)
                }),
            decreases v@.len() - i,
        {
            let ghost before = self.lines@;
            let ghost fresh = (crate::clock::clock(v@[i as int].timestamp_ns as int), v@[i as int].payload@);
            self.lines.push((clock_text(v[i].timestamp_ns), copy_text(v[i].payload.as_str())));
            self.last_id = v[i].id;
            proof {
                assert(lines_view(self.lines@) =~= lines_view(before).push(fresh));
                assert(rows_view(rows.take(i + 1)) =~= rows_view(rows.take(i as int)).push(fresh));
                assert(lines_view(self.lines@) =~= lines_view(old(self).lines@) + rows_view(
                    rows.take(i + 1),
                ));
            }
            i = i + 1;
        }
        proof {
            assert(rows.take(rows.len() as int) =~= rows);
        }
    }

    /// Take the lines that have come since the last look at the buffer. After the largest id there
    /// are none, and then the buffer is not looked at. Where the buffer could not be read, nothing
    /// is taken.
    pub fn poll(&mut self, storage: &mut SqliteStorage) -> (r: Result<(), StorageError>)
        requires
            old(self).wf(),
        ensures
            final(self).wf(),
            final(storage).path() == old(storage).path(),
            final(storage).setup() == old(storage).setup(),
            old(self).last_id == i64::MAX ==> r is Ok && final(storage)@ == old(storage)@,
            r is Ok ==> {
                let rows = crate::sql::first_n(
                    crate::storage::from_id(final(storage)@.now.lines, old(self).last_id + 1),
                    POLL_LINES as int,
                );
                &&& crate::sql::looked(old(storage)@, final(storage)@)
                &&& crate::storage::ids_ascend(rows)
                &&& lines_view(final(self).lines@) == lines_view(old(self).lines@) + rows_view(rows)
                &&& *final(self) == (AppState {
                    lines: final(self).lines,
                    last_id: if rows.len() == 0 {
                        old(self).last_id
                    } else {
                        rows.last().id
                    },
                    ..*old(self)
                })
            },
            r matches Err(e) ==> {
                &&& e is Sqlite
                &&& crate::sql::failed(old(storage)@, final(storage)@)
                &&& *final(self) == *old(self)
            },
    {
        if self.last_id == i64::MAX {
            proof {
                let rows = storage@.now.lines;
                none_beyond(rows);
                assert(lines_view(self.lines@) =~= lines_view(self.lines@) + rows_view(
                    Seq::empty(),
                ));
            }
            return Ok(());
        }
        let v = match storage.read_lines(self.last_id + 1, POLL_LINES) {
            Ok(v) => v,
            Err(e) => return Err(e),
        };
        self.take_lines(&v);
        proof {
            assert(v@.len() > 0 ==> crate::sql::line_rows(v@).last() == v@.last().row());
            let first = old(self).last_id + 1;
            crate::storage::picked_ascend(
                storage@.now,
                |row: LineRow| first <= row.id,
                POLL_LINES as int,
            );
        }
        Ok(())
    }

    /// Scroll to the newest lines, where they are followed.
    pub fn follow(&mut self, visible: usize)
        requires
            old(self).wf(),
        ensures
            final(self).wf(),
            *final(self) == (AppState {
                scroll_offset: if old(self).auto_follow && old(self).lines@.len() > 0 {
                    max_scroll(old(self).lines@.len() as int, visible as int) as usize
                } else {
                    old(self).scroll_offset
                },
                ..*old(self)
            }),
    {
        if self.auto_follow && self.lines.len() > 0 {
            self.scroll_offset =
            if visible >= self.lines.len() {
                0
            } else {
                self.lines.len() - visible
            };
        }
    }

    /// Scroll down by some lines, and follow the newest lines once the end is reached.
    fn scroll_down(&mut self, by: usize, visible: usize)
        requires
            old(self).wf(),
        ensures
            final(self).wf(),
            final(self).scroll_offset == least(
                old(self).scroll_offset + by,
                max_scroll(old(self).lines@.len() as int, visible as int),
            ),
            final(self).auto_follow == (old(self).auto_follow || final(self).scroll_offset
                >= max_scroll(old(self).lines@.len() as int, visible as int)),
            *final(self) == (AppState {
                scroll_offset: final(self).scroll_offset,
                auto_follow: final(self).auto_follow,
                ..*old(self)
            }),
    {
        let max: usize = if visible >= self.lines.len() {
            0
        } else {
            self.lines.len() - visible
        };
        self.scroll_offset =
        if self.scroll_offset >= max || max - self.scroll_offset <= by {
            max
        } else {
            self.scroll_offset + by
        };
        if self.scroll_offset >= max {
            self.auto_follow = true;
        }
    }

    /// Take a key in.
    pub fn on_key(&mut self, key: TuiKey, visible: usize) -> (r: KeyAction)
        requires
            old(self).wf(),
        ensures
            final(self).wf(),
            asks_for(old(self).input@, key, r),
            final(self).input@ == input_after(old(self).input@, key),
            final(self).scroll_offset == scroll_after(
                old(self).scroll_offset as int,
                old(self).lines@.len() as int,
                visible as int,
                key,
            ),
            final(self).auto_follow == follow_after(
                old(self).auto_follow,
                old(self).scroll_offset as int,
                old(self).lines@.len() as int,
                visible as int,
                key,
            ),
            *final(self) == (AppState {
                input: final(self).input,
                scroll_offset: final(self).scroll_offset,
                auto_follow: final(self).auto_follow,
                ..*old(self)
            }),
    {
        match key {
            TuiKey::CtrlC => return KeyAction::Quit,
            TuiKey::Char(c) => {
                if c == 'q' && self.input.as_str().is_empty() {
                    return KeyAction::Quit;
                }
                self.input.push(c);
            },
            TuiKey::Backspace => {
                self.input = without_last(self.input.as_str());
            },
            TuiKey::Enter => {
                if !self.input.as_str().is_empty() {
                    let mut data = text_bytes(self.input.as_str());
                    let ghost body = data@;
                    data.push(13);
                    data.push(10);
                    proof {
                        assert(data@ =~= body + seq![13u8, 10u8]);
                    }
                    self.input = String::new();
                    return KeyAction::Send(data);
                }
            },
            TuiKey::Up => {
                self.auto_follow = false;
                self.scroll_offset =
                if self.scroll_offset >= 1 {
                    self.scroll_offset - 1
                } else {
                    0
                };
            },
            TuiKey::Down => self.scroll_down(1, visible),
            TuiKey::PageUp => {
                self.auto_follow = false;
                self.scroll_offset =
                if self.scroll_offset >= PAGE_LINES {
                    self.scroll_offset - PAGE_LINES
                } else {
                    0
                };
            },
            TuiKey::PageDown => self.scroll_down(PAGE_LINES, visible),
            TuiKey::End => {
                self.auto_follow = true;
            },
            TuiKey::Other => {},
        }
        KeyAction::Continue
    }

    /// The lines that are shown in `height` rows: from the first to before the second.
    pub fn visible_range(&self, height: usize) -> (r: (usize, usize))
        requires
            self.wf(),
        ensures
            r.0 == self.scroll_offset,
            r.1 == least(self.scroll_offset + height, self.lines@.len() as int),
            r.0 <= r.1 <= self.lines@.len(),
    {
        let end: usize = if self.lines.len() - self.scroll_offset < height {
            self.lines.len()
        } else {
            self.scroll_offset + height
        };
        (self.scroll_offset, end)
    }

    /// The status line.
    pub open spec fn status_spec(self) -> Seq<char> {
        " "@ + self.port_name@ + " | "@ + crate::text::dec(self.baud as nat) + " 8N1 | Lines: "@
            + crate::text::dec(self.lines@.len()) + " | "@ + (if self.auto_follow {
            "AUTO-FOLLOW"@
        } else {
            "PAUSED"@
        })
    }

    /// The status line.
    pub fn status_text(&self) -> (r: String)
        ensures
            r@ == self.status_spec(),
    {
        let mut s = copy_text(" ");
        s.append(self.port_name.as_str());
        s.append(" | ");
        push_dec(&mut s, self.baud as u64);
        s.append(" 8N1 | Lines: ");
        push_dec(&mut s, self.lines.len() as u64);
        s.append(" | ");
        s.append(
            if self.auto_follow {
                "AUTO-FOLLOW"
            } else {
                "PAUSED"
            },
        );
        s
    }

    /// The input line with its prompt.
    pub fn prompt_text(&self) -> (r: String)
        ensures
            r@ == "> "@ + self.input@,
    {
        let mut s = copy_text("> ");
        s.append(self.input.as_str());
        s
    }
}

/// The colour of a line.
#[derive(Debug, Clone, Copy, PartialEq, Eq, Structural)]
pub enum LineTone {
    Red,
    Yellow,
    DarkGray,
    White,
}

/// The colour of a line, by the marks in it.
pub open spec fn line_tone_spec(payload: Seq<char>) -> LineTone {
    if crate::text::has_infix(payload, "[ERROR]"@) || crate::text::has_infix(payload, "[PANIC]"@) {
        LineTone::Red
    } else if crate::text::has_infix(payload, "[WARN]"@) {
        LineTone::Yellow
    } else if crate::text::has_infix(payload, "[DEBUG]"@) {
        LineTone::DarkGray
    } else {
        LineTone::White
    }
}

/// The colour of a line.
pub fn line_tone(payload: &str) -> (r: LineTone)
    ensures
        r == line_tone_spec(payload@),
{
    if contains(payload, "[ERROR]") || contains(payload, "[PANIC]") {
        LineTone::Red
    } else if contains(payload, "[WARN]") {
        LineTone::Yellow
    } else if contains(payload, "[DEBUG]") {
        LineTone::DarkGray
    } else {
        LineTone::White
    }
}

// --- Laws ---

/// No key scrolls beyond the lines, and what is followed after scrolling down is the end.
pub proof fn law_scroll_stays_inside(offset: int, len: int, visible: int, key: TuiKey, follow: bool)
    requires
        0 <= offset <= len,
        0 <= visible,
    ensures
        0 <= scroll_after(offset, len, visible, key) <= len,
        (key == TuiKey::Down || key == TuiKey::PageDown) && !follow && follow_after(
            follow,
            offset,
            len,
            visible,
            key,
        ) ==> scroll_after(offset, len, visible, key) == max_scroll(len, visible),
{
}

/// Typing adds the character at the end, and the backspace takes the last one away; so the one undoes
/// the other. Sending empties the line. A `q` on an empty line is not typed.
pub proof fn law_typing(input: Seq<char>, c: char)
    ensures
        c != 'q' || input.len() > 0 ==> {
            &&& input_after(input, TuiKey::Char(c)) == input.push(c)
            &&& input_after(input_after(input, TuiKey::Char(c)), TuiKey::Backspace) == input
        },
        input_after(Seq::empty(), TuiKey::Char('q')).len() == 0,
        input_after(Seq::empty(), TuiKey::Backspace).len() == 0,
        input_after(input, TuiKey::Enter).len() == 0,
        input_after(input, TuiKey::Up) == input && input_after(input, TuiKey::Down) == input,
        input_after(input, TuiKey::PageUp) == input && input_after(input, TuiKey::PageDown)
            == input,
        input_after(input, TuiKey::End) == input && input_after(input, TuiKey::Other) == input,
        input_after(input, TuiKey::CtrlC) == input,
{
    assert(input.push(c).drop_last() =~= input);
}

/// The monitor is left by its break key and by a `q` on an empty line, and by nothing else. A line that
/// is not empty is sent when it is entered, as its bytes, a carriage return and a line feed, and no
/// other key sends anything.
pub proof fn law_actions(input: Seq<char>, key: TuiKey, action: KeyAction)
    requires
        asks_for(input, key, action),
    ensures
        action is Quit <==> key is CtrlC || key == TuiKey::Char('q') && input.len() == 0,
        action is Send <==> key is Enter && input.len() > 0,
        action matches KeyAction::Send(b) ==> b@ == encode_utf8(input).push(13).push(10),
{
    assert(encode_utf8(input) + seq![13u8, 10u8] =~= encode_utf8(input).push(13).push(10));
}

/// Scrolling moves by one line, or by twenty for a page, and stops at the first line and where the last
/// line is the last that fits. Inside those bounds up undoes down. Other keys do not scroll.
pub proof fn law_scrolling(offset: int, len: int, visible: int, c: char)
    requires
        0 <= offset,
        0 <= visible,
        0 <= len,
    ensures
        offset >= 1 ==> scroll_after(offset, len, visible, TuiKey::Up) == offset - 1,
        scroll_after(0, len, visible, TuiKey::Up) == 0,
        offset >= 20 ==> scroll_after(offset, len, visible, TuiKey::PageUp) == offset - 20,
        offset < 20 ==> scroll_after(offset, len, visible, TuiKey::PageUp) == 0,
        offset + 1 + visible <= len ==> scroll_after(offset, len, visible, TuiKey::Down) == offset
            + 1,
        offset + 20 + visible <= len ==> scroll_after(offset, len, visible, TuiKey::PageDown)
            == offset + 20,
        offset + 1 + visible > len && visible <= len ==> scroll_after(
            offset,
            len,
            visible,
            TuiKey::Down,
        ) == len - visible,
        offset + 20 + visible > len && visible <= len ==> scroll_after(
            offset,
            len,
            visible,
            TuiKey::PageDown,
        ) == len - visible,
        visible > len ==> scroll_after(offset, len, visible, TuiKey::Down) == 0 && scroll_after(
            offset,
            len,
            visible,
            TuiKey::PageDown,
        ) == 0,
        scroll_after(offset, len, visible, TuiKey::End) == offset,
        scroll_after(offset, len, visible, TuiKey::Enter) == offset,
        scroll_after(offset, len, visible, TuiKey::Backspace) == offset,
        scroll_after(offset, len, visible, TuiKey::Other) == offset,
        scroll_after(offset, len, visible, TuiKey::CtrlC) == offset,
        scroll_after(offset, len, visible, TuiKey::Char(c)) == offset,
{
}

/// Scrolling up stops the following of new lines. Scrolling down to the end starts it, and so does the
/// key for the end. Other keys leave it as it is.
pub proof fn law_following(follow: bool, offset: int, len: int, visible: int, key: TuiKey)
    requires
        0 <= offset,
        0 <= visible,
        0 <= len,
    ensures
        key is Up || key is PageUp ==> !follow_after(follow, offset, len, visible, key),
        key is End ==> follow_after(follow, offset, len, visible, key),
        key is Down ==> (follow_after(follow, offset, len, visible, key) <==> follow || offset + 1
            + visible >= len),
        key is PageDown ==> (follow_after(follow, offset, len, visible, key) <==> follow || offset
            + 20 + visible >= len),
        key is CtrlC || key is Char || key is Backspace || key is Enter || key is Other
            ==> follow_after(follow, offset, len, visible, key) == follow,
{
}

/// The lines take what the terminal has but for six rows, and twenty where its height is not known.
pub proof fn law_visible(h: u16)
    ensures
        visible_spec(None) == 20,
        h >= 6 ==> visible_spec(Some(h)) == h - 6,
        h < 6 ==> visible_spec(Some(h)) == 0,
{
}

/// Stored lines are shown one for one, with their times and their texts.
pub proof fn law_lines_shown(rows: Seq<LineRow>, v: Seq<(String, String)>)
    ensures
        rows_view(rows).len() == rows.len(),
        forall|i: int|
            0 <= i < rows.len() ==> #[trigger] rows_view(rows)[i] == (
                crate::clock::clock(rows[i].ts as int),
                rows[i].text,
            ),
        lines_view(v).len() == v.len(),
        forall|i: int| 0 <= i < v.len() ==> #[trigger] lines_view(v)[i] == (v[i].0@, v[i].1@),
{
}

/// The colour of a line follows the worst mark in it.
pub proof fn law_line_tones(payload: Seq<char>)
    ensures
        line_tone_spec(payload) == LineTone::Red <==> crate::text::has_infix(payload, "[ERROR]"@)
            || crate::text::has_infix(payload, "[PANIC]"@),
        line_tone_spec(payload) == LineTone::Yellow <==> line_tone_spec(payload) != LineTone::Red
            && crate::text::has_infix(payload, "[WARN]"@),
        line_tone_spec(payload) == LineTone::DarkGray <==> line_tone_spec(payload)
            != LineTone::Red && line_tone_spec(payload) != LineTone::Yellow
            && crate::text::has_infix(payload, "[DEBUG]"@),
{
}

/// The status line names the port, the baud rate, the number of lines, and whether new lines are
/// followed.
pub proof fn law_status(app: AppState)
    ensures
        app.auto_follow ==> app.status_spec() == " "@ + app.port_name@ + " | "@ + crate::text::dec(
            app.baud as nat,
        ) + " 8N1 | Lines: "@ + crate::text::dec(app.lines@.len()) + " | "@ + "AUTO-FOLLOW"@,
        !app.auto_follow ==> app.status_spec() == " "@ + app.port_name@ + " | "@ + crate::text::dec(
            app.baud as nat,
        ) + " 8N1 | Lines: "@ + crate::text::dec(app.lines@.len()) + " | "@ + "PAUSED"@,
{
}

} // verus!
