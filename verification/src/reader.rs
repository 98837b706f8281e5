//! From bytes to stored lines: splitting, batching, and what to do when a device goes away.
use vstd::arithmetic::power2::pow2;
use vstd::prelude::*;
use vstd::utf8::{decode_utf8, valid_utf8};

use crate::sql::Db;
use crate::sql::LineTables;
use crate::storage::{SqliteStorage, StorageError};
use crate::text::{copy_text, push_dec};

verus! {

/// Connection state of a port.
#[derive(Debug, Clone, PartialEq, Eq, Structural)]
pub enum ConnectionState {
    Connected,
    Disconnected { since_ms: u64, attempts: u32 },
    Reconnecting,
}

/// A line ready to be stored.
#[derive(Debug, Clone)]
pub struct IngestedLine {
    pub timestamp_ns: i64,
    pub payload: String,
}

/// A source that is never connected again once it is lost.
pub struct NoReconnect;

impl ConnectionState {
    /// The state as it is shown to users.
    pub open spec fn text(self) -> Seq<char> {
        match self {
            ConnectionState::Connected => "Connected"@,
            ConnectionState::Disconnected { since_ms, attempts } => "Disconnected { since_ms: "@
                + crate::text::dec(since_ms as nat) + ", attempts: "@ + crate::text::dec(
                attempts as nat,
            ) + " }"@,
            ConnectionState::Reconnecting => "Reconnecting"@,
        }
    }

    /// The state as it is shown to users.
    pub fn describe(&self) -> (r: String)
        ensures
            r@ == self.text(),
    {
        match self {
            ConnectionState::Connected => copy_text("Connected"),
            ConnectionState::Disconnected { since_ms, attempts } => {
                let mut s = copy_text("Disconnected { since_ms: ");
                push_dec(&mut s, *since_ms);
                s.append(", attempts: ");
                push_dec(&mut s, *attempts as u64);
                s.append(" }");
                s
            },
            ConnectionState::Reconnecting => copy_text("Reconnecting"),
        }
    }

    /// A copy.
    pub fn duplicate(&self) -> (r: ConnectionState)
        ensures
            r == *self,
    {
        match self {
            ConnectionState::Connected => ConnectionState::Connected,
            ConnectionState::Disconnected { since_ms, attempts } => ConnectionState::Disconnected {
                since_ms: *since_ms,
                attempts: *attempts,
            },
            ConnectionState::Reconnecting => ConnectionState::Reconnecting,
        }
    }
}

// --- Bytes to lines ---

/// The text of a byte string, with U+FFFD for what is not UTF-8.
pub uninterp spec fn lossy_utf8(bytes: Seq<u8>) -> Seq<char>;

/// `String::from_utf8_lossy` of std: valid UTF-8 is decoded, anything else is replaced by U+FFFD,
/// so that only the empty byte string gives the empty text. Which bytes one U+FFFD stands for is
/// not stated.
#[verifier::external_body]
pub(crate) fn from_utf8_lossy(bytes: &[u8]) -> (r: String)
    ensures
        r@ == lossy_utf8(bytes@),
        valid_utf8(bytes@) ==> r@ == decode_utf8(bytes@),
        (r@.len() == 0) == (bytes@.len() == 0),
{
    String::from_utf8_lossy(bytes).into_owned()
}

/// The text of a byte string is true to it: UTF-8 is decoded as it is, and something is left of
/// anything.
pub open spec fn true_text(bytes: Seq<u8>) -> bool {
    &&& valid_utf8(bytes) ==> lossy_utf8(bytes) == decode_utf8(bytes)
    &&& (lossy_utf8(bytes).len() == 0) == (bytes.len() == 0)
}

/// The texts of byte strings are true to them.
pub open spec fn true_texts(raw: Seq<Seq<u8>>) -> bool {
    forall|i: int| 0 <= i < raw.len() ==> true_text(#[trigger] raw[i])
}

/// The complete lines in `data`, without their delimiters. The first goes on from `start`.
pub open spec fn pieces(start: Seq<u8>, data: Seq<u8>, d: u8) -> Seq<Seq<u8>>
    decreases data.len(),
{
    if data.len() == 0 {
        Seq::empty()
    } else if data.last() == d {
        pieces(start, data.drop_last(), d).push(unfinished(start, data.drop_last(), d))
    } else {
        pieces(start, data.drop_last(), d)
    }
}

/// What stands after the last delimiter in `data`; with `start` before it where there is none.
pub open spec fn unfinished(start: Seq<u8>, data: Seq<u8>, d: u8) -> Seq<u8>
    decreases data.len(),
{
    if data.len() == 0 {
        start
    } else if data.last() == d {
        Seq::empty()
    } else {
        unfinished(start, data.drop_last(), d).push(data.last())
    }
}

/// A line as its time stamp and its text.
pub open spec fn ingested(l: IngestedLine) -> (i64, Seq<char>) {
    (l.timestamp_ns, l.payload@)
}

/// The lines of a batch.
pub open spec fn ingested_all(v: Seq<IngestedLine>) -> Seq<(i64, Seq<char>)> {
    v.map_values(|l: IngestedLine| ingested(l))
}

/// Byte strings as lines that came at `ts`.
pub open spec fn stamped(raw: Seq<Seq<u8>>, ts: i64) -> Seq<(i64, Seq<char>)> {
    raw.map_values(|b: Seq<u8>| (ts, lossy_utf8(b)))
}

/// Split `data` at the delimiter. Complete lines join the batch, the rest waits in `partial`.
pub fn process_bytes(
    data: &[u8],
    delimiter: u8,
    timestamp_ns: i64,
    partial: &mut Vec<u8>,
    batch: &mut Vec<IngestedLine>,
)
    ensures
        final(partial)@ == unfinished(old(partial)@, data@, delimiter),
        ingested_all(final(batch)@) == ingested_all(old(batch)@) + stamped(
            pieces(old(partial)@, data@, delimiter),
            timestamp_ns,
        ),
        true_texts(pieces(old(partial)@, data@, delimiter)),
{
    let mut i: usize = 0;
    proof {
        assert(data@.take(0) =~= Seq::empty());
        assert(stamped(Seq::empty(), timestamp_ns) =~= Seq::empty());
        assert(ingested_all(batch@) =~= ingested_all(old(batch)@) + Seq::empty());
    }
    while i < data.len()
        invariant
            i <= data@.len(),
            partial@ == unfinished(old(partial)@, data@.take(i as int), delimiter),
            ingested_all(batch@) == ingested_all(old(batch)@) + stamped(
                pieces(old(partial)@, data@.take(i as int), delimiter),
                timestamp_ns,
            ),
            true_texts(pieces(old(partial)@, data@.take(i as int), delimiter)),
        decreases data@.len() - i,
    {
        let byte: u8 = data[i];
        let ghost seen = data@.take(i as int);
        proof {
            assert(data@.take(i + 1).drop_last() =~= seen);
        }
        if byte == delimiter {
            let payload = from_utf8_lossy(partial.as_slice());
            let ghost before = batch@;
            let ghost raw = partial@;
            batch.push(IngestedLine { timestamp_ns, payload });
            proof {
                assert(ingested_all(batch@) =~= ingested_all(before).push(
                    (timestamp_ns, lossy_utf8(raw)),
                ));
                assert(stamped(pieces(old(partial)@, seen, delimiter).push(raw), timestamp_ns)
                    =~= stamped(pieces(old(partial)@, seen, delimiter), timestamp_ns).push(
                    (timestamp_ns, lossy_utf8(raw)),
                ));
                assert(ingested_all(batch@) =~= ingested_all(old(batch)@) + stamped(
                    pieces(old(partial)@, data@.take(i + 1), delimiter),
                    timestamp_ns,
                ));
            }
            partial.clear();
        } else {
            partial.push(byte);
        }
        i = i + 1;
    }
    proof {
        assert(data@.take(data@.len() as int) =~= data@);
    }
}

/// Close the batch: an unfinished line becomes its last line, and `partial` is empty. Returns the
/// batch, which is empty where there is nothing to send.
pub fn flush_batch(batch: &mut Vec<IngestedLine>, partial: &mut Vec<u8>, now_ns: i64) -> (r: Vec<
    IngestedLine,
>)
    ensures
        final(batch)@.len() == 0,
        final(partial)@.len() == 0,
        ingested_all(r@) == ingested_all(old(batch)@) + (if old(partial)@.len() == 0 {
            Seq::empty()
        } else {
            seq![(now_ns, lossy_utf8(old(partial)@))]
        }),
        old(partial)@.len() > 0 ==> true_text(old(partial)@),
{
    let mut out: Vec<IngestedLine> = Vec::new();
    std::mem::swap(&mut out, batch);
    if partial.len() > 0 {
        let payload = from_utf8_lossy(partial.as_slice());
        out.push(IngestedLine { timestamp_ns: now_ns, payload });
        partial.clear();
    }
    proof {
        assert(ingested_all(out@) =~= ingested_all(old(batch)@) + (if old(partial)@.len() == 0 {
            Seq::empty()
        } else {
            seq![(now_ns, lossy_utf8(old(partial)@))]
        }));
    }
    out
}

// --- The reader's decisions ---

/// What a reader waits for.
pub enum ReadEvent {
    /// The port is being closed.
    Shutdown,
    /// The source has ended.
    Eof,
    /// Bytes have arrived.
    Data(Vec<u8>),
    /// The source has failed.
    Failed,
    /// Nothing has come for the flush interval.
    Tick,
}

/// What a reader does next.
#[derive(Debug, Clone, Copy, PartialEq, Eq, Structural)]
pub enum ReadNext {
    /// Wait for the next event.
    Continue,
    /// End for good.
    Stop,
    /// End, the device being lost.
    Lost,
}

/// What an event asks for: a batch to store, where it is not empty, and then the next thing.
pub struct ReadAction {
    pub send: Vec<IngestedLine>,
    pub next: ReadNext,
}

/// The state of a reader between two events.
pub struct ReaderCore {
    pub delimiter: u8,
    /// The batch is sent on as soon as it holds this many lines.
    pub batch_size: usize,
    pub partial: Vec<u8>,
    pub batch: Vec<IngestedLine>,
}

/// The lines that a reader holds once `data` came at `now_ns`.
pub open spec fn lines_after(core: ReaderCore, data: Seq<u8>, now_ns: i64) -> Seq<
    (i64, Seq<char>),
> {
    ingested_all(core.batch@) + stamped(pieces(core.partial@, data, core.delimiter), now_ns)
}

/// The lines that a reader holds when it ends at `now_ns`, an unfinished one last.
pub open spec fn lines_at_end(core: ReaderCore, now_ns: i64) -> Seq<(i64, Seq<char>)> {
    ingested_all(core.batch@) + (if core.partial@.len() == 0 {
        Seq::empty()
    } else {
        seq![(now_ns, lossy_utf8(core.partial@))]
    })
}

impl ReaderCore {
    pub fn new(delimiter: u8, batch_size: usize) -> (r: ReaderCore)
        ensures
            r.delimiter == delimiter,
            r.batch_size == batch_size,
            r.partial@.len() == 0,
            r.batch@.len() == 0,
    {
        ReaderCore { delimiter, batch_size, partial: Vec::new(), batch: Vec::new() }
    }

    /// Take an event in at the time `now_ns`.
    pub fn step(&mut self, event: ReadEvent, now_ns: i64) -> (r: ReadAction)
        ensures
            final(self).delimiter == old(self).delimiter,
            final(self).batch_size == old(self).batch_size,
            match event {
                ReadEvent::Shutdown | ReadEvent::Eof => {
                    &&& r.next == ReadNext::Stop
                    &&& ingested_all(r.send@) == lines_at_end(*old(self), now_ns)
                    &&& old(self).partial@.len() > 0 ==> true_text(old(self).partial@)
                    &&& final(self).batch@.len() == 0
                    &&& final(self).partial@.len() == 0
                },
                ReadEvent::Failed => {
                    &&& r.next == ReadNext::Lost
                    &&& ingested_all(r.send@) == lines_at_end(*old(self), now_ns)
                    &&& old(self).partial@.len() > 0 ==> true_text(old(self).partial@)
                    &&& final(self).batch@.len() == 0
                    &&& final(self).partial@.len() == 0
                },
                ReadEvent::Data(data) => {
                    let lines = lines_after(*old(self), data@, now_ns);
                    &&& r.next == ReadNext::Continue
                    &&& true_texts(pieces(old(self).partial@, data@, old(self).delimiter))
                    &&& final(self).partial@ == unfinished(
                        old(self).partial@,
                        data@,
                        old(self).delimiter,
                    )
                    &&& if lines.len() >= old(self).batch_size {
                        ingested_all(r.send@) == lines && final(self).batch@.len() == 0
                    } else {
                        r.send@.len() == 0 && ingested_all(final(self).batch@) == lines
                    }
                },
                ReadEvent::Tick => {
                    &&& r.next == ReadNext::Continue
                    &&& r.send@ == old(self).batch@
                    &&& final(self).batch@.len() == 0
                    &&& final(self).partial@ == old(self).partial@
                },
            },
    {
        match event {
            ReadEvent::Shutdown | ReadEvent::Eof => {
                let send = flush_batch(&mut self.batch, &mut self.partial, now_ns);
                ReadAction { send, next: ReadNext::Stop }
            },
            ReadEvent::Failed => {
                let send = flush_batch(&mut self.batch, &mut self.partial, now_ns);
                ReadAction { send, next: ReadNext::Lost }
            },
            ReadEvent::Data(data) => {
                process_bytes(
                    data.as_slice(),
                    self.delimiter,
                    now_ns,
                    &mut self.partial,
                    &mut self.batch,
                );
                let mut send: Vec<IngestedLine> = Vec::new();
                proof {
                    assert(self.batch@.len() == ingested_all(self.batch@).len());
                }
                if self.batch.len() >= self.batch_size {
                    std::mem::swap(&mut send, &mut self.batch);
                }
                ReadAction { send, next: ReadNext::Continue }
            },
            ReadEvent::Tick => {
                let mut send: Vec<IngestedLine> = Vec::new();
                std::mem::swap(&mut send, &mut self.batch);
                ReadAction { send, next: ReadNext::Continue }
            },
        }
    }
}

/// What a reader does next where nobody takes its batch any more: it ends.
pub fn after_failed_send(next: ReadNext) -> (r: ReadNext)
    ensures
        r == (if next == ReadNext::Continue {
            ReadNext::Stop
        } else {
            next
        }),
{
    match next {
        ReadNext::Continue => ReadNext::Stop,
        other => other,
    }
}

// --- Reconnecting ---

/// The wait before an attempt: the interval, doubled for each attempt before it, and never more
/// than the cap.
pub open spec fn backoff_spec(base_ms: u64, cap_ms: u64, attempt: nat) -> int {
    let wait = base_ms * pow2((attempt - 1) as nat);
    if wait < cap_ms {
        wait
    } else {
        cap_ms as int
    }
}

/// The wait before the given attempt, in milliseconds. Attempts count from 1.
pub fn backoff_ms(base_ms: u64, cap_ms: u64, attempt: u32) -> (r: u64)
    requires
        attempt >= 1,
    ensures
        r == backoff_spec(base_ms, cap_ms, attempt as nat),
{
    let mut wait: u64 = if base_ms < cap_ms {
        base_ms
    } else {
        cap_ms
    };
    let mut n: u32 = 1;
    proof {
        first_wait(base_ms, cap_ms);
    }
    while n < attempt && 0 < wait && wait < cap_ms
        invariant
            1 <= n <= attempt,
            wait == backoff_spec(base_ms, cap_ms, n as nat),
        decreases attempt - n,
    {
        proof {
            doubling(base_ms, cap_ms, n as nat);
        }
        wait = if wait > cap_ms / 2 || wait * 2 >= cap_ms {
            cap_ms
        } else {
            wait * 2
        };
        n = n + 1;
    }
    proof {
        law_backoff_grows(base_ms, cap_ms, n as nat, attempt as nat);
        if wait == 0 && base_ms > 0 && cap_ms > 0 {
            vstd::arithmetic::power2::lemma_pow2_pos((n - 1) as nat);
            assert(base_ms * pow2((n - 1) as nat) > 0) by (nonlinear_arith)
                requires
                    base_ms > 0,
                    pow2((n - 1) as nat) > 0,
            ;
        }
        if base_ms == 0 {
            assert(base_ms * pow2((attempt - 1) as nat) == 0) by (nonlinear_arith)
                requires
                    base_ms == 0,
            ;
        }
    }
    wait
}

/// The first attempt waits for the interval, up to the cap.
proof fn first_wait(base_ms: u64, cap_ms: u64)
    ensures
        backoff_spec(base_ms, cap_ms, 1) == (if base_ms < cap_ms {
            base_ms
        } else {
            cap_ms
        }),
{
    vstd::arithmetic::power2::lemma2_to64();
    let one = pow2(0);
    assert(base_ms * one == base_ms) by (nonlinear_arith)
        requires
            one == 1,
    ;
}

/// One attempt more doubles the wait, up to the cap.
proof fn doubling(base_ms: u64, cap_ms: u64, n: nat)
    requires
        n >= 1,
    ensures
        backoff_spec(base_ms, cap_ms, n + 1) == (if backoff_spec(base_ms, cap_ms, n) * 2
            < cap_ms {
            backoff_spec(base_ms, cap_ms, n) * 2
        } else {
            cap_ms as int
        }),
{
    vstd::arithmetic::power2::lemma_pow2_unfold(n);
    let p = pow2((n - 1) as nat) as int;
    let b = base_ms as int;
    assert(b * (2 * p) == 2 * (b * p)) by (nonlinear_arith);
}

/// A later attempt never waits less than an earlier one, and none waits longer than the cap. Up to
/// the cap each wait is twice the one before.
pub proof fn law_backoff_grows(base_ms: u64, cap_ms: u64, n: nat, m: nat)
    requires
        1 <= n <= m,
    ensures
        backoff_spec(base_ms, cap_ms, n) <= backoff_spec(base_ms, cap_ms, m) <= cap_ms,
        backoff_spec(base_ms, cap_ms, 1) == (if base_ms < cap_ms {
            base_ms
        } else {
            cap_ms
        }),
        backoff_spec(base_ms, cap_ms, n + 1) == (if backoff_spec(base_ms, cap_ms, n) * 2
            < cap_ms {
            backoff_spec(base_ms, cap_ms, n) * 2
        } else {
            cap_ms as int
        }),
    decreases m - n,
{
    first_wait(base_ms, cap_ms);
    doubling(base_ms, cap_ms, n);
    vstd::arithmetic::power2::lemma_pow2_pos((n - 1) as nat);
    assert(base_ms * pow2((n - 1) as nat) >= 0) by (nonlinear_arith)
        requires
            base_ms >= 0,
            pow2((n - 1) as nat) > 0,
    ;
    if n < m {
        law_backoff_grows(base_ms, cap_ms, n + 1, m);
    }
}

/// The state to show of a port whose reader has just been started.
pub fn initial_state() -> (r: ConnectionState)
    ensures
        r == ConnectionState::Connected,
{
    ConnectionState::Connected
}

/// The attempts to reach a device again.
pub struct Reconnect {
    pub base_ms: u64,
    pub cap_ms: u64,
    pub attempts: u32,
}

impl Reconnect {
    pub fn new(base_ms: u64, cap_ms: u64) -> (r: Reconnect)
        ensures
            r == (Reconnect { base_ms, cap_ms, attempts: 0 }),
    {
        Reconnect { base_ms, cap_ms, attempts: 0 }
    }

    /// Begin the next attempt, `elapsed_ms` after the device was lost: the state to show, and the
    /// wait before the attempt.
    pub fn next_attempt(&mut self, elapsed_ms: u128) -> (r: (ConnectionState, u64))
        ensures
            final(self).base_ms == old(self).base_ms,
            final(self).cap_ms == old(self).cap_ms,
            final(self).attempts == attempt_after(old(self).attempts),
            r.0 == waiting_state(elapsed_ms, final(self).attempts as int),
            r.1 == backoff_spec(
                old(self).base_ms,
                old(self).cap_ms,
                final(self).attempts as nat,
            ),
    {
        if self.attempts < u32::MAX {
            self.attempts = self.attempts + 1;
        }
        let since_ms: u64 = if elapsed_ms > u64::MAX as u128 {
            u64::MAX
        } else {
            elapsed_ms as u64
        };
        let wait = backoff_ms(self.base_ms, self.cap_ms, self.attempts);
        (ConnectionState::Disconnected { since_ms, attempts: self.attempts }, wait)
    }
}

/// What happens to the link to a device.
#[derive(Debug, Clone, Copy, PartialEq, Eq, Structural)]
pub enum LinkEvent {
    /// The reader has ended.
    Ended(ReadNext),
    /// The loss has been shown.
    Reported,
    /// The wait before an attempt is over.
    Waited,
    /// The port is being closed.
    Shutdown,
    /// The attempt has succeeded.
    Connected,
    /// The attempt has failed.
    Refused,
}

/// What is done about the link to a device, and the state to show.
#[derive(Debug, PartialEq, Eq, Structural)]
pub enum LinkAction {
    /// Show that the device was lost.
    Report { show: ConnectionState },
    /// Wait before the next attempt.
    Wait { show: ConnectionState, ms: u64 },
    /// Try to reach the device.
    Try { show: ConnectionState },
    /// Read from the device again.
    Resume { show: ConnectionState },
    /// Give the link up.
    End { show: Option<ConnectionState> },
}

/// The link to a device.
pub struct Link {
    /// A lost device is looked for again.
    pub auto_reconnect: bool,
    pub attempts: Reconnect,
}

/// The state to show `elapsed_ms` after a device was lost, before an attempt.
pub open spec fn waiting_state(elapsed_ms: u128, attempts: int) -> ConnectionState {
    ConnectionState::Disconnected {
        since_ms: if elapsed_ms > u64::MAX {
            u64::MAX
        } else {
            elapsed_ms as u64
        },
        attempts: attempts as u32,
    }
}

/// The number of an attempt after `n` others.
pub open spec fn attempt_after(n: u32) -> int {
    if n == u32::MAX {
        u32::MAX as int
    } else {
        n + 1
    }
}

/// What is done about a link. `elapsed_ms` is the time since the device was lost.
pub open spec fn link_spec(link: Link, event: LinkEvent, elapsed_ms: u128) -> LinkAction {
    let wait = |n: int|
        LinkAction::Wait {
            show: waiting_state(elapsed_ms, n),
            ms: backoff_spec(link.attempts.base_ms, link.attempts.cap_ms, n as nat) as u64,
        };
    match event {
        LinkEvent::Ended(ReadNext::Lost) => if link.auto_reconnect {
            LinkAction::Report { show: waiting_state(0, 0) }
        } else {
            LinkAction::End { show: Some(waiting_state(0, 0)) }
        },
        LinkEvent::Ended(_) => LinkAction::End { show: None },
        LinkEvent::Reported => wait(attempt_after(link.attempts.attempts)),
        LinkEvent::Waited => LinkAction::Try { show: ConnectionState::Reconnecting },
        LinkEvent::Shutdown => LinkAction::End { show: None },
        LinkEvent::Connected => LinkAction::Resume { show: ConnectionState::Connected },
        LinkEvent::Refused => wait(attempt_after(link.attempts.attempts)),
    }
}

/// The attempts that were made after an event.
pub open spec fn attempts_spec(link: Link, event: LinkEvent) -> int {
    match event {
        LinkEvent::Ended(ReadNext::Lost) => 0,
        LinkEvent::Reported => attempt_after(link.attempts.attempts),
        LinkEvent::Refused => attempt_after(link.attempts.attempts),
        _ => link.attempts.attempts as int,
    }
}

/// The link after an event.
pub open spec fn link_after(link: Link, event: LinkEvent) -> Link {
    Link {
        attempts: Reconnect {
            attempts: attempts_spec(link, event) as u32,
            ..link.attempts
        },
        ..link
    }
}

impl Link {
    pub fn new(auto_reconnect: bool, base_ms: u64, cap_ms: u64) -> (r: Link)
        ensures
            r == (Link { auto_reconnect, attempts: Reconnect { base_ms, cap_ms, attempts: 0 } }),
    {
        Link { auto_reconnect, attempts: Reconnect::new(base_ms, cap_ms) }
    }

    /// Take an event in, `elapsed_ms` after the device was lost. A lost device is looked for again
    /// and again, with growing waits, until it is found or the port is closed.
    pub fn step(&mut self, event: LinkEvent, elapsed_ms: u128) -> (r: LinkAction)
        ensures
            r == link_spec(*old(self), event, elapsed_ms),
            *final(self) == link_after(*old(self), event),
    {
        match event {
            LinkEvent::Ended(ReadNext::Lost) => {
                self.attempts.attempts = 0;
                let show = ConnectionState::Disconnected { since_ms: 0, attempts: 0 };
                if self.auto_reconnect {
                    LinkAction::Report { show }
                } else {
                    LinkAction::End { show: Some(show) }
                }
            },
            LinkEvent::Ended(_) => LinkAction::End { show: None },
            LinkEvent::Reported => {
                let (show, ms) = self.attempts.next_attempt(elapsed_ms);
                LinkAction::Wait { show, ms }
            },
            LinkEvent::Waited => LinkAction::Try { show: ConnectionState::Reconnecting },
            LinkEvent::Shutdown => LinkAction::End { show: None },
            LinkEvent::Connected => LinkAction::Resume { show: ConnectionState::Connected },
            LinkEvent::Refused => {
                let (show, ms) = self.attempts.next_attempt(elapsed_ms);
                LinkAction::Wait { show, ms }
            },
        }
    }
}

// --- Storing batches ---

/// A batch as the rows of an insertion.
pub open spec fn batch_rows(pairs: Seq<(i64, &str)>) -> Seq<(i64, Seq<char>)> {
    pairs.map_values(|p: (i64, &str)| (p.0, p.1@))
}

/// The buffer after a batch was to be stored in it: stored, or dropped whole where that failed.
pub open spec fn batch_handled(
    old: Db<LineTables>,
    mid: Db<LineTables>,
    batch: Seq<(i64, Seq<char>)>,
    stored: bool,
) -> bool {
    if stored {
        old.saved is None && exists|pairs: Seq<(i64, &str)>|
            batch_rows(pairs) == batch && #[trigger] crate::storage::batch_stored(old, mid, pairs)
    } else {
        crate::storage::given_up(old, mid)
    }
}

/// `new` is `mid` after the buffer was cut to its last `max_lines` lines; 0 stands for no bound.
pub open spec fn bounded(mid: Db<LineTables>, new: Db<LineTables>, max_lines: u64) -> bool {
    if max_lines == 0 {
        new == mid
    } else {
        crate::storage::lines_cut(mid, new, max_lines as int)
    }
}

/// `new` is `old` after a batch was to be stored in it and the buffer cut to its bound, by what came
/// of the two.
pub open spec fn batch_done(
    old: Db<LineTables>,
    new: Db<LineTables>,
    batch: Seq<(i64, Seq<char>)>,
    max_lines: u64,
    stored: bool,
    trimmed: bool,
) -> bool {
    exists|mid: Db<LineTables>| #[trigger]
        batch_handled(old, mid, batch, stored) && (if trimmed {
            bounded(mid, new, max_lines)
        } else {
            crate::sql::failed(mid, new)
        })
}

/// What came of a batch.
pub struct BatchOutcome {
    /// The lines were stored.
    pub stored: Result<(), StorageError>,
    /// The buffer was cut to its bound.
    pub trimmed: Result<(), StorageError>,
}

/// Store a batch and cut the buffer to its last `max_lines` lines (0 = unlimited).
pub fn store_batch(
    storage: &mut SqliteStorage,
    batch: &Vec<IngestedLine>,
    max_lines: u64,
) -> (r: BatchOutcome)
    ensures
        final(storage).path() == old(storage).path(),
        final(storage).setup() == old(storage).setup(),
        r.stored matches Err(e) ==> e is Sqlite,
        r.trimmed matches Err(e) ==> e is Sqlite,
        max_lines == 0 ==> r.trimmed is Ok,
        batch_done(
            old(storage)@,
            final(storage)@,
            ingested_all(batch@),
            max_lines,
            r.stored is Ok,
            r.trimmed is Ok,
        ),
{
    let mut pairs: Vec<(i64, &str)> = Vec::new();
    let mut i: usize = 0;
    while i < batch.len()
        invariant
            i <= batch@.len(),
            pairs@.len() == i,
            forall|k: int|
                0 <= k < i ==> (#[trigger] pairs@[k]).0 == batch@[k].timestamp_ns && pairs@[k].1@
                    == batch@[k].payload@,
        decreases batch@.len() - i,
    {
        pairs.push((batch[i].timestamp_ns, batch[i].payload.as_str()));
        i = i + 1;
    }
    let stored = storage.insert_lines(pairs.as_slice());
    let ghost mid = storage@;
    proof {
        assert(batch_rows(pairs@) =~= ingested_all(batch@));
        assert(batch_handled(old(storage)@, mid, ingested_all(batch@), stored is Ok));
    }
    let trimmed = storage.trim_lines(max_lines);
    BatchOutcome { stored, trimmed }
}

// --- Laws ---

/// Every piece with its delimiter, one after the other.
pub open spec fn delimited(raw: Seq<Seq<u8>>, d: u8) -> Seq<u8>
    decreases raw.len(),
{
    if raw.len() == 0 {
        Seq::empty()
    } else {
        delimited(raw.drop_last(), d) + raw.last().push(d)
    }
}

/// How the bytes are cut into reads makes no difference: two reads give the lines, and leave the
/// unfinished line, of one read of both.
pub proof fn law_chunks_join(start: Seq<u8>, a: Seq<u8>, b: Seq<u8>, d: u8)
    ensures
        pieces(start, a + b, d) == pieces(start, a, d) + pieces(unfinished(start, a, d), b, d),
        unfinished(start, a + b, d) == unfinished(unfinished(start, a, d), b, d),
    decreases b.len(),
{
    if b.len() == 0 {
        assert(a + b =~= a);
        assert(pieces(start, a, d) + pieces(unfinished(start, a, d), b, d) =~= pieces(start, a, d));
    } else {
        law_chunks_join(start, a, b.drop_last(), d);
        assert((a + b).drop_last() =~= a + b.drop_last());
        assert(pieces(start, a + b, d) =~= pieces(start, a, d) + pieces(
            unfinished(start, a, d),
            b,
            d,
        ));
    }
}

/// No byte is lost or made up: the lines with their delimiters, and the unfinished line after them,
/// are the bytes that came.
pub proof fn law_bytes_kept(start: Seq<u8>, data: Seq<u8>, d: u8)
    ensures
        delimited(pieces(start, data, d), d) + unfinished(start, data, d) == start + data,
    decreases data.len(),
{
    if data.len() == 0 {
        assert(delimited(pieces(start, data, d), d) + unfinished(start, data, d) =~= start + data);
    } else {
        let front = data.drop_last();
        law_bytes_kept(start, front, d);
        let raw = pieces(start, front, d);
        let u = unfinished(start, front, d);
        assert(start + data =~= (start + front).push(data.last()));
        if data.last() == d {
            assert(pieces(start, data, d) == raw.push(u));
            assert(raw.push(u).drop_last() =~= raw);
            assert(delimited(raw.push(u), d) =~= delimited(raw, d) + u.push(d));
        }
        assert(delimited(pieces(start, data, d), d) + unfinished(start, data, d) =~= start + data);
    }
}

/// No line holds the delimiter.
pub proof fn law_lines_undelimited(start: Seq<u8>, data: Seq<u8>, d: u8)
    requires
        !start.contains(d),
    ensures
        forall|i: int|
            0 <= i < pieces(start, data, d).len() ==> !(#[trigger] pieces(start, data, d)[i]).contains(
                d,
            ),
        !unfinished(start, data, d).contains(d),
    decreases data.len(),
{
    if data.len() > 0 {
        let front = data.drop_last();
        law_lines_undelimited(start, front, d);
        let u = unfinished(start, front, d);
        let all = pieces(start, data, d);
        assert forall|i: int| 0 <= i < all.len() implies !(#[trigger] all[i]).contains(d) by {
            if i < pieces(start, front, d).len() {
                assert(all[i] == pieces(start, front, d)[i]);
            }
        }
        if data.last() != d {
            assert forall|k: int| 0 <= k < u.push(data.last()).len() implies u.push(data.last())[k]
                != d by {
                if k < u.len() {
                    assert(u.contains(u[k]));
                }
            }
        }
    }
}

/// A lost device is never given up while the port is open, where reconnecting is on: the loss is
/// shown, every attempt that fails is followed by a wait, no longer than the cap, and by another
/// attempt; and a device that was found is read again.
pub proof fn law_link_keeps_trying(link: Link, elapsed_ms: u128)
    requires
        link.auto_reconnect,
    ensures
        link_spec(link, LinkEvent::Ended(ReadNext::Lost), elapsed_ms) is Report,
        link_spec(link, LinkEvent::Reported, elapsed_ms) matches LinkAction::Wait { ms, .. } && ms
            <= link.attempts.cap_ms,
        link_spec(link, LinkEvent::Waited, elapsed_ms) is Try,
        link_spec(link, LinkEvent::Refused, elapsed_ms) matches LinkAction::Wait { ms, .. } && ms
            <= link.attempts.cap_ms,
        link_spec(link, LinkEvent::Connected, elapsed_ms) is Resume,
{
    let n = attempt_after(link.attempts.attempts) as nat;
    law_backoff_grows(link.attempts.base_ms, link.attempts.cap_ms, n, n);
}

/// The state that an action shows, if any.
pub open spec fn shown(action: LinkAction) -> Option<ConnectionState> {
    match action {
        LinkAction::Report { show } => Some(show),
        LinkAction::Wait { show, .. } => Some(show),
        LinkAction::Try { show } => Some(show),
        LinkAction::Resume { show } => Some(show),
        LinkAction::End { show } => show,
    }
}

/// The link after a number of events.
pub open spec fn link_at(link: Link, events: Seq<LinkEvent>) -> Link
    decreases events.len(),
{
    if events.len() == 0 {
        link
    } else {
        link_after(link_at(link, events.drop_last()), events.last())
    }
}

/// The states shown in the course of events, each at its time since the device was lost.
pub open spec fn states_shown(link: Link, events: Seq<LinkEvent>, times: Seq<u128>) -> Seq<
    Option<ConnectionState>,
> {
    Seq::new(
        events.len(),
        |i: int| shown(link_spec(link_at(link, events.take(i)), events[i], times[i])),
    )
}

/// The events of a loss after which `k` attempts are refused and the next one succeeds.
pub open spec fn outage(k: nat) -> Seq<LinkEvent> {
    Seq::new(
        2 * k + 4,
        |i: int|
            if i == 0 {
                LinkEvent::Ended(ReadNext::Lost)
            } else if i == 1 {
                LinkEvent::Reported
            } else if i % 2 == 0 {
                LinkEvent::Waited
            } else if i == 2 * k + 3 {
                LinkEvent::Connected
            } else {
                LinkEvent::Refused
            },
    )
}

/// The attempts counted in the course of an outage.
proof fn outage_attempts(link: Link, k: nat, i: nat)
    requires
        link.auto_reconnect,
        k < u32::MAX,
        1 <= i <= 2 * k + 3,
    ensures
        link_at(link, outage(k).take(i as int)) == (Link {
            attempts: Reconnect { attempts: (i / 2) as u32, ..link.attempts },
            ..link
        }),
    decreases i,
{
    let part = outage(k).take(i as int);
    assert(part.drop_last() =~= outage(k).take(i - 1));
    assert(part.last() == outage(k)[i - 1]);
    if i == 1 {
        assert(outage(k).take(0) =~= Seq::empty());
        assert(link_at(link, outage(k).take(0)) == link);
    } else {
        outage_attempts(link, k, (i - 1) as nat);
    }
}

/// What is shown of an outage: first that the device is lost, with no attempt made; before each
/// attempt its number and the time since the loss, and then that it is made; and at the end that the
/// device is there again.
pub proof fn law_outage_shown(link: Link, k: nat, times: Seq<u128>)
    requires
        link.auto_reconnect,
        k < u32::MAX,
        times.len() == 2 * k + 4,
    ensures
        ({
            let states = states_shown(link, outage(k), times);
            &&& states.len() == 2 * k + 4
            &&& states[0] == Some(ConnectionState::Disconnected { since_ms: 0, attempts: 0 })
            &&& forall|i: int|
                0 <= i <= k ==> #[trigger] states[2 * i + 1] == Some(
                    waiting_state(times[2 * i + 1], i + 1),
                )
            &&& forall|i: int|
                0 <= i <= k ==> #[trigger] states[2 * i + 2] == Some(ConnectionState::Reconnecting)
            &&& states[2 * k as int + 3] == Some(ConnectionState::Connected)
        }),
{
    let states = states_shown(link, outage(k), times);
    assert(outage(k).take(0) =~= Seq::empty());
    assert forall|i: int| 0 <= i <= k implies #[trigger] states[2 * i + 1] == Some(
        waiting_state(times[2 * i + 1], i + 1),
    ) by {
        outage_attempts(link, k, (2 * i + 1) as nat);
        assert((2 * i + 1) / 2 == i);
        assert((2 * i + 1) % 2 == 1);
    }
    assert forall|i: int| 0 <= i <= k implies #[trigger] states[2 * i + 2] == Some(
        ConnectionState::Reconnecting,
    ) by {
        assert((2 * i + 2) % 2 == 0);
    }
    assert((2 * k + 3) % 2 == 1);
}

/// The tables after rows were stored one after the other.
pub open spec fn with_rows(t: LineTables, rows: Seq<(i64, Seq<char>)>) -> LineTables
    decreases rows.len(),
{
    if rows.len() == 0 {
        t
    } else {
        with_rows(t, rows.drop_last()).with_line(rows.last().0, rows.last().1)
    }
}

/// The rows of the first `n` batches, one after the other.
pub open spec fn all_rows(batches: Seq<Seq<(i64, Seq<char>)>>, n: nat) -> Seq<(i64, Seq<char>)>
    decreases n,
{
    if n == 0 {
        Seq::empty()
    } else {
        all_rows(batches, (n - 1) as nat) + batches[n - 1]
    }
}

/// Storing a batch is storing its rows.
proof fn lines_are_rows(t: LineTables, pairs: Seq<(i64, &str)>)
    ensures
        crate::storage::with_lines(t, pairs) == with_rows(t, batch_rows(pairs)),
    decreases pairs.len(),
{
    if pairs.len() > 0 {
        lines_are_rows(t, pairs.drop_last());
        assert(batch_rows(pairs).drop_last() =~= batch_rows(pairs.drop_last()));
    }
}

/// Rows that are stored one batch after the other are stored as one.
proof fn rows_join(t: LineTables, a: Seq<(i64, Seq<char>)>, b: Seq<(i64, Seq<char>)>)
    ensures
        with_rows(with_rows(t, a), b) == with_rows(t, a + b),
    decreases b.len(),
{
    if b.len() == 0 {
        assert(a + b =~= a);
    } else {
        rows_join(t, a, b.drop_last());
        assert((a + b).drop_last() =~= a + b.drop_last());
    }
}

/// Storing rows keeps the earlier lines, and what it appends does not depend on them.
proof fn rows_follow(t: LineTables, u: LineTables, rows: Seq<(i64, Seq<char>)>)
    requires
        u == (LineTables { lines: u.lines, ..t }),
    ensures
        with_rows(t, rows).lines.len() == t.lines.len() + rows.len(),
        with_rows(t, rows).lines.take(t.lines.len() as int) == t.lines,
        with_rows(t, rows).lines.skip(t.lines.len() as int) == with_rows(u, rows).lines.skip(
            u.lines.len() as int,
        ),
        with_rows(u, rows) == (LineTables {
            lines: u.lines + with_rows(t, rows).lines.skip(t.lines.len() as int),
            ..with_rows(t, rows)
        }),
    decreases rows.len(),
{
    let (m, n) = (t.lines.len() as int, u.lines.len() as int);
    if rows.len() == 0 {
        assert(t.lines.take(m) =~= t.lines);
        assert(t.lines.skip(m) =~= Seq::empty());
        assert(u.lines.skip(n) =~= Seq::empty());
        assert(u.lines + t.lines.skip(m) =~= u.lines);
    } else {
        let front = rows.drop_last();
        rows_follow(t, u, front);
        let (a, b) = (with_rows(t, front).lines, with_rows(u, front).lines);
        let (x, y) = (with_rows(t, rows).lines, with_rows(u, rows).lines);
        assert(b =~= u.lines + a.skip(m));
        assert(x.take(m) =~= a.take(m));
        assert(x.skip(m) =~= a.skip(m).push(x.last()));
        assert(y.skip(n) =~= b.skip(n).push(y.last()));
        assert(y =~= u.lines + x.skip(m));
    }
}

/// Cutting before more is appended makes no difference to a cut afterwards.
proof fn cut_twice<A>(a: Seq<A>, b: Seq<A>, n: int)
    requires
        n >= 0,
    ensures
        crate::sql::last_n(crate::sql::last_n(a, n) + b, n) == crate::sql::last_n(a + b, n),
{
    assert(crate::sql::last_n(crate::sql::last_n(a, n) + b, n) =~= crate::sql::last_n(a + b, n));
}

/// `states` are the states of a buffer from batch to batch: each was stored or not, as `stored` says,
/// and the buffer cut to its bound.
pub open spec fn run_of_batches(
    states: Seq<Db<LineTables>>,
    batches: Seq<Seq<(i64, Seq<char>)>>,
    stored: Seq<bool>,
    max_lines: u64,
) -> bool {
    &&& states.len() == batches.len() + 1
    &&& stored.len() == batches.len()
    &&& forall|i: int|
        0 <= i < batches.len() ==> batch_done(
            states[i],
            states[i + 1],
            #[trigger] batches[i],
            max_lines,
            stored[i],
            true,
        )
}

/// After one batch that was stored, the database being private: the rows were appended, and the last
/// lines are left.
proof fn one_batch(
    old: Db<LineTables>,
    new: Db<LineTables>,
    batch: Seq<(i64, Seq<char>)>,
    max_lines: u64,
)
    requires
        old.alone,
        batch_done(old, new, batch, max_lines, true, true),
    ensures
        new.alone,
        new.now == (if max_lines == 0 {
            with_rows(old.now, batch)
        } else {
            with_rows(old.now, batch).keeping_lines(max_lines as int)
        }),
{
    let mid = choose|mid: Db<LineTables>| #[trigger]
        batch_handled(old, mid, batch, true) && bounded(mid, new, max_lines);
    let pairs = choose|pairs: Seq<(i64, &str)>|
        batch_rows(pairs) == batch && #[trigger] crate::storage::batch_stored(old, mid, pairs);
    lines_are_rows(old.now, pairs);
}

/// After any number of batches that were stored in a private database.
proof fn many_batches(
    states: Seq<Db<LineTables>>,
    batches: Seq<Seq<(i64, Seq<char>)>>,
    stored: Seq<bool>,
    max_lines: u64,
    n: nat,
)
    requires
        run_of_batches(states, batches, stored, max_lines),
        n <= batches.len(),
        states[0].alone,
        forall|i: int| 0 <= i < n ==> #[trigger] stored[i],
    ensures
        states[n as int].alone,
        max_lines == 0 ==> states[n as int].now == with_rows(states[0].now, all_rows(batches, n)),
        max_lines > 0 && n > 0 ==> states[n as int].now == with_rows(
            states[0].now,
            all_rows(batches, n),
        ).keeping_lines(max_lines as int),
    decreases n,
{
    if n > 0 {
        let k = (n - 1) as nat;
        many_batches(states, batches, stored, max_lines, k);
        assert(stored[k as int]);
        let batch = batches[k as int];
        one_batch(states[k as int], states[n as int], batch, max_lines);
        let full = with_rows(states[0].now, all_rows(batches, k));
        rows_join(states[0].now, all_rows(batches, k), batch);
        if max_lines > 0 && k > 0 {
            let cut = full.keeping_lines(max_lines as int);
            rows_follow(full, cut, batch);
            let more = with_rows(full, batch).lines.skip(full.lines.len() as int);
            assert(with_rows(full, batch).lines =~= full.lines + more);
            cut_twice(full.lines, more, max_lines as int);
        } else if k == 0 {
            assert(all_rows(batches, 0) =~= Seq::empty());
        }
    }
}

/// A bounded buffer never holds more lines than its bound after a batch, however many batches there
/// were; where they were stored in a private database, it holds the most recent of all lines. An
/// unlimited buffer loses none: each batch that is stored leaves the lines that it found as they were,
/// and a private database holds all lines that ever came.
pub proof fn law_buffer_bounded(
    states: Seq<Db<LineTables>>,
    batches: Seq<Seq<(i64, Seq<char>)>>,
    stored: Seq<bool>,
    max_lines: u64,
)
    requires
        run_of_batches(states, batches, stored, max_lines),
    ensures
        max_lines > 0 ==> forall|i: int|
            1 <= i < states.len() ==> (#[trigger] states[i]).now.lines.len() <= max_lines,
        states[0].alone && (forall|i: int| 0 <= i < stored.len() ==> #[trigger] stored[i])
            ==> forall|i: int|
            1 <= i < states.len() ==> (#[trigger] states[i]).now.lines == (if max_lines == 0 {
                with_rows(states[0].now, all_rows(batches, i as nat)).lines
            } else {
                crate::sql::last_n(
                    with_rows(states[0].now, all_rows(batches, i as nat)).lines,
                    max_lines as int,
                )
            }),
        max_lines == 0 ==> forall|i: int|
            0 <= i < batches.len() && #[trigger] stored[i] ==> exists|base: LineTables| #[trigger]
                crate::sql::found(states[i], base) && base.lines.is_prefix_of(
                    states[i + 1].now.lines,
                ),
{
    if max_lines > 0 {
        assert forall|i: int| 1 <= i < states.len() implies (#[trigger] states[i]).now.lines.len()
            <= max_lines by {
            assert(batch_done(
                states[i - 1],
                states[i],
                batches[i - 1],
                max_lines,
                stored[i - 1],
                true,
            ));
        }
    }
    if states[0].alone && (forall|i: int| 0 <= i < stored.len() ==> #[trigger] stored[i]) {
        assert forall|i: int| 1 <= i < states.len() implies (#[trigger] states[i]).now.lines == (
        if max_lines == 0 {
            with_rows(states[0].now, all_rows(batches, i as nat)).lines
        } else {
            crate::sql::last_n(
                with_rows(states[0].now, all_rows(batches, i as nat)).lines,
                max_lines as int,
            )
        }) by {
            many_batches(states, batches, stored, max_lines, i as nat);
        }
    }
    if max_lines == 0 {
        assert forall|i: int| 0 <= i < batches.len() && #[trigger] stored[i] implies exists|
            base: LineTables,
        | #[trigger]
            crate::sql::found(states[i], base) && base.lines.is_prefix_of(
                states[i + 1].now.lines,
            ) by {
            let batch = batches[i];
            let mid = choose|mid: Db<LineTables>| #[trigger]
                batch_handled(states[i], mid, batch, true) && bounded(
                    mid,
                    states[i + 1],
                    max_lines,
                );
            let pairs = choose|pairs: Seq<(i64, &str)>|
                batch_rows(pairs) == batch && #[trigger] crate::storage::batch_stored(
                    states[i],
                    mid,
                    pairs,
                );
            let base = choose|base: LineTables| #[trigger]
                crate::sql::found(states[i], base) && mid.now == crate::storage::with_lines(
                    base,
                    pairs,
                );
            lines_are_rows(base, pairs);
            rows_follow(base, base, batch);
            assert(crate::sql::found(states[i], base));
        }
    }
}

/// What a device sent is what a read of the buffer gives back: the lines of a chunk, stored as a
/// batch, are read in the order in which they came, each whole, under consecutive ids; what is UTF-8
/// comes back as the text that it encodes.
pub proof fn law_captured_read_back(
    t: LineTables,
    start: Seq<u8>,
    data: Seq<u8>,
    d: u8,
    ts: i64,
    batch: Seq<(i64, &str)>,
    count: int,
)
    requires
        t.wf(),
        batch_rows(batch) == stamped(pieces(start, data, d), ts),
        t.last_line + batch.len() <= i64::MAX,
        count >= batch.len(),
    ensures
        ({
            let raw = pieces(start, data, d);
            let read = crate::sql::first_n(
                crate::storage::from_id(
                    crate::storage::with_lines(t, batch).lines,
                    t.last_line + 1,
                ),
                count,
            );
            &&& read.len() == raw.len()
            &&& forall|i: int|
                0 <= i < raw.len() ==> (#[trigger] read[i]).id == t.last_line + 1 + i && read[i].ts
                    == ts && read[i].text == lossy_utf8(raw[i])
            &&& forall|i: int|
                0 <= i < raw.len() && true_text(raw[i]) && valid_utf8(raw[i]) ==> (
                #[trigger] read[i]).text == decode_utf8(raw[i])
        }),
{
    crate::storage::law_read_back(t, batch, count);
    let raw = pieces(start, data, d);
    assert(batch_rows(batch).len() == stamped(raw, ts).len());
    assert forall|i: int| 0 <= i < raw.len() implies (#[trigger] batch[i]).0 == ts && batch[i].1@
        == lossy_utf8(raw[i]) by {
        assert(batch_rows(batch)[i] == stamped(raw, ts)[i]);
    }
}

/// Lines that are stored one batch after the other are stored as one batch.
pub proof fn law_batches_join(t: LineTables, a: Seq<(i64, &str)>, b: Seq<(i64, &str)>)
    ensures
        crate::storage::with_lines(crate::storage::with_lines(t, a), b)
            == crate::storage::with_lines(t, a + b),
    decreases b.len(),
{
    if b.len() == 0 {
        assert(a + b =~= a);
    } else {
        law_batches_join(t, a, b.drop_last());
        assert((a + b).drop_last() =~= a + b.drop_last());
    }
}

/// The lines that a reader holds after some bytes came: those that it held, as they were, and behind
/// them one for each line that the bytes finished, with the text of its bytes and the time at which
/// they came. When it ends, what is unfinished is a line too, unless it is empty.
pub proof fn law_lines_held(core: ReaderCore, data: Seq<u8>, now_ns: i64)
    ensures
        ({
            let whole = pieces(core.partial@, data, core.delimiter);
            let held = lines_after(core, data, now_ns);
            let n = core.batch@.len();
            &&& held.len() == n + whole.len()
            &&& forall|i: int|
                0 <= i < n ==> #[trigger] held[i] == (
                    core.batch@[i].timestamp_ns,
                    core.batch@[i].payload@,
                )
            &&& forall|i: int|
                n <= i < held.len() ==> #[trigger] held[i] == (now_ns, lossy_utf8(whole[i - n]))
        }),
        ({
            let held = lines_at_end(core, now_ns);
            let n = core.batch@.len();
            &&& core.partial@.len() == 0 ==> held.len() == n
            &&& core.partial@.len() > 0 ==> held.len() == n + 1 && held[n as int] == (
                now_ns,
                lossy_utf8(core.partial@),
            )
            &&& forall|i: int|
                0 <= i < n ==> #[trigger] held[i] == (
                    core.batch@[i].timestamp_ns,
                    core.batch@[i].payload@,
                )
        }),
{
}

/// A single byte either ends the line that is unfinished or joins it.
pub proof fn law_one_byte(start: Seq<u8>, b: u8, d: u8)
    ensures
        b == d ==> pieces(start, seq![b], d) == seq![start] && unfinished(start, seq![b], d).len()
            == 0,
        b != d ==> pieces(start, seq![b], d).len() == 0 && unfinished(start, seq![b], d)
            == start.push(b),
{
    reveal_with_fuel(pieces, 2);
    reveal_with_fuel(unfinished, 2);
    assert(seq![b].drop_last() =~= Seq::empty());
    assert(pieces(start, seq![b].drop_last(), d) =~= Seq::<Seq<u8>>::empty());
    assert(unfinished(start, seq![b].drop_last(), d) == start);
    if b == d {
        assert(pieces(start, seq![b], d) =~= seq![start]);
    }
}

/// The first attempt waits for the configured time, and each further one twice as long as the one
/// before, but none longer than the cap.
pub proof fn law_backoff_doubles(base_ms: u64, cap_ms: u64, n: nat)
    requires
        n >= 1,
    ensures
        backoff_spec(base_ms, cap_ms, 1) == (if base_ms < cap_ms {
            base_ms
        } else {
            cap_ms
        }),
        backoff_spec(base_ms, cap_ms, n + 1) == (if 2 * backoff_spec(base_ms, cap_ms, n) < cap_ms {
            2 * backoff_spec(base_ms, cap_ms, n)
        } else {
            cap_ms as int
        }),
        backoff_spec(base_ms, cap_ms, n) <= cap_ms,
{
    vstd::arithmetic::power2::lemma2_to64();
    let p = pow2((n - 1) as nat);
    vstd::arithmetic::power2::lemma_pow2_unfold(n);
    assert(pow2(n) == 2 * p);
    assert(base_ms * pow2(n) == 2 * (base_ms * p)) by (nonlinear_arith)
        requires
            pow2(n) == 2 * p,
    ;
    assert(base_ms * pow2(0) == base_ms) by (nonlinear_arith)
        requires
            pow2(0) == 1,
    ;
}

/// What is done about a link. A lost device is reported, and its port is opened again only where that
/// is asked for. An order to stop ends it without a word. Between attempts it waits, showing how long
/// the device has been gone and how many attempts there were; an attempt that succeeds resumes, and one
/// that is refused leads to the next.
pub proof fn law_link_decisions(link: Link, elapsed_ms: u128)
    requires
        link.attempts.attempts < u32::MAX,
    ensures
        link.auto_reconnect ==> link_spec(link, LinkEvent::Ended(ReadNext::Lost), elapsed_ms)
            == (LinkAction::Report {
            show: ConnectionState::Disconnected { since_ms: 0, attempts: 0 },
        }),
        !link.auto_reconnect ==> link_spec(link, LinkEvent::Ended(ReadNext::Lost), elapsed_ms)
            == (LinkAction::End {
            show: Some(ConnectionState::Disconnected { since_ms: 0, attempts: 0 }),
        }),
        link_spec(link, LinkEvent::Shutdown, elapsed_ms) == (LinkAction::End { show: None }),
        link_spec(link, LinkEvent::Waited, elapsed_ms) == (LinkAction::Try {
            show: ConnectionState::Reconnecting,
        }),
        link_spec(link, LinkEvent::Connected, elapsed_ms) == (LinkAction::Resume {
            show: ConnectionState::Connected,
        }),
        elapsed_ms <= u64::MAX ==> link_spec(link, LinkEvent::Reported, elapsed_ms)
            == (LinkAction::Wait {
            show: ConnectionState::Disconnected {
                since_ms: elapsed_ms as u64,
                attempts: (link.attempts.attempts + 1) as u32,
            },
            ms: backoff_spec(
                link.attempts.base_ms,
                link.attempts.cap_ms,
                (link.attempts.attempts + 1) as nat,
            ) as u64,
        }),
        link_spec(link, LinkEvent::Refused, elapsed_ms) == link_spec(
            link,
            LinkEvent::Reported,
            elapsed_ms,
        ),
        link_after(link, LinkEvent::Ended(ReadNext::Lost)).attempts.attempts == 0,
        link_after(link, LinkEvent::Reported).attempts.attempts == link.attempts.attempts + 1,
        link_after(link, LinkEvent::Refused).attempts.attempts == link.attempts.attempts + 1,
        link_after(link, LinkEvent::Waited) == link,
        link_after(link, LinkEvent::Connected) == link,
        link_after(link, LinkEvent::Shutdown) == link,
{
}

/// The states are shown by their names, and a lost device with its two numbers.
pub proof fn law_state_texts(since_ms: u64, attempts: u32)
    ensures
        ConnectionState::Connected.text() == "Connected"@,
        ConnectionState::Reconnecting.text() == "Reconnecting"@,
        (ConnectionState::Disconnected { since_ms, attempts }).text()
            == "Disconnected { since_ms: "@ + crate::text::dec(since_ms as nat) + ", attempts: "@
            + crate::text::dec(attempts as nat) + " }"@,
{
}

/// Lines of a batch and rows of an insertion are seen one for one, with their time stamps and texts.
pub proof fn law_batches_seen(v: Seq<IngestedLine>, pairs: Seq<(i64, &str)>)
    ensures
        ingested_all(v).len() == v.len(),
        forall|i: int|
            0 <= i < v.len() ==> #[trigger] ingested_all(v)[i] == (v[i].timestamp_ns, v[i].payload@),
        batch_rows(pairs).len() == pairs.len(),
        forall|i: int|
            0 <= i < pairs.len() ==> #[trigger] batch_rows(pairs)[i] == (pairs[i].0, pairs[i].1@),
{
}

/// A bound of 0 lines is no bound. Any other leaves a private buffer with its newest lines, as many as
/// the bound says or as there are.
pub proof fn law_bounds(mid: Db<LineTables>, new: Db<LineTables>, max_lines: u64)
    requires
        mid.alone,
        bounded(mid, new, max_lines),
    ensures
        max_lines == 0 || mid.now.lines.len() <= max_lines ==> new.now.lines == mid.now.lines,
        max_lines > 0 && mid.now.lines.len() > max_lines ==> new.now.lines.len() == max_lines
            && forall|i: int|
            0 <= i < max_lines ==> #[trigger] new.now.lines[i]
                == mid.now.lines[mid.now.lines.len() - max_lines + i],
        new.now.commands == mid.now.commands,
{
}

/// A batch that a reader hands over is stored whole in a private buffer or not at all. Stored, it stands
/// behind the lines that were there, with its time stamps and texts; otherwise the lines that last are
/// those from before.
pub proof fn law_batch_handled(
    before: Db<LineTables>,
    mid: Db<LineTables>,
    batch: Seq<(i64, Seq<char>)>,
    stored: bool,
)
    requires
        before.alone,
        before.saved is None,
        before.now.wf(),
        before.now.last_line + batch.len() <= i64::MAX,
        batch_handled(before, mid, batch, stored),
    ensures
        stored ==> {
            &&& mid.now.lines.len() == before.now.lines.len() + batch.len()
            &&& forall|i: int|
                0 <= i < before.now.lines.len() ==> #[trigger] mid.now.lines[i]
                    == before.now.lines[i]
            &&& forall|i: int|
                0 <= i < batch.len() ==> {
                    let row = #[trigger] mid.now.lines[before.now.lines.len() + i];
                    row.ts == batch[i].0 && row.text == batch[i].1
                }
        },
        !stored ==> (mid.saved is None ==> mid.now == before.now) && (mid.saved is Some
            ==> mid.saved->0 == before.now),
{
    if stored {
        let pairs = choose|pairs: Seq<(i64, &str)>|
            batch_rows(pairs) == batch && #[trigger] crate::storage::batch_stored(
                before,
                mid,
                pairs,
            );
        law_batches_seen(Seq::empty(), pairs);
        crate::storage::law_batch_in_private(before, mid, pairs);
        assert forall|i: int| 0 <= i < batch.len() implies {
            let row = #[trigger] mid.now.lines[before.now.lines.len() + i];
            row.ts == batch[i].0 && row.text == batch[i].1
        } by {
            assert(batch_rows(pairs)[i] == (pairs[i].0, pairs[i].1@));
        }
    } else {
        crate::storage::law_failed_batch(before, mid);
    }
}

} // verus!
