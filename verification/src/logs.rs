//! The log stream of a sandbox: the backlog that a viewer gets on connecting,
//! and the steps of tailing what is appended afterwards.

use vstd::prelude::*;
use vstd::string::*;

use crate::error::{ManagerError, ManagerErrorView};
use crate::state::ManagerState;
use crate::text::join;

verus! {

/// The number of lines that a viewer gets as backlog at most.
pub const INITIAL_BACKLOG_LINES: usize = 1000;

/// The time between two looks at the log for new data, in milliseconds.
pub const POLL_INTERVAL_MS: u64 = 100;

/// How often the stream waits for a log that does not exist yet.
pub const MAX_ARTIFACT_WAITS: u32 = 50;

/// How long the stream listens for a viewer's close in each round, in
/// milliseconds.
pub const CLOSE_CHECK_MS: u64 = 1;

/// The byte that ends a line.
pub const NEWLINE: u8 = 10;

/// A line begins at position `k` of `data`: at the very start, or just after a
/// newline, and before the end.
pub open spec fn is_line_start(data: Seq<u8>, k: int) -> bool {
    0 <= k < data.len() && (k == 0 || data[k - 1] == NEWLINE)
}

/// The number of lines of `data` that begin at position `k` or later.
pub open spec fn lines_from(data: Seq<u8>, k: int) -> nat
    decreases data.len() - k,
{
    if k < 0 || k >= data.len() {
        0
    } else {
        lines_from(data, k + 1) + if is_line_start(data, k) {
            1nat
        } else {
            0nat
        }
    }
}

/// The number of lines of `data`. A last line without a newline counts.
pub open spec fn line_count(data: Seq<u8>) -> nat {
    lines_from(data, 0)
}

/// The smaller of two numbers.
pub open spec fn at_most(n: nat, limit: nat) -> nat {
    if n <= limit {
        n
    } else {
        limit
    }
}

/// The backlog of `data` under a bound of `max_lines` begins at position `k`:
/// `k` is the end of `data` or the start of a line, and from `k` on `data`
/// holds as many lines as it has in all, or `max_lines` where it has more.
pub open spec fn is_backlog_start(data: Seq<u8>, max_lines: nat, k: int) -> bool {
    &&& 0 <= k <= data.len()
    &&& k == data.len() || is_line_start(data, k)
    &&& lines_from(data, k) == at_most(line_count(data), max_lines)
}

/// From an earlier position on there are at least as many lines as from a
/// later one.
pub proof fn lemma_lines_from_monotone(data: Seq<u8>, a: int, b: int)
    requires
        0 <= a <= b,
    ensures
        lines_from(data, a) >= lines_from(data, b),
    decreases b - a,
{
    if a < b {
        lemma_lines_from_monotone(data, a + 1, b);
    }
}

/// Between two different line starts the number of lines that follow differs.
proof fn lemma_line_starts_differ(data: Seq<u8>, a: int, b: int)
    requires
        is_line_start(data, a),
        a < b,
    ensures
        lines_from(data, a) > lines_from(data, b),
{
    lemma_lines_from_monotone(data, a + 1, b);
}

/// The start of the backlog is determined: no two positions are both the start
/// of the backlog of the same data under the same bound.
pub proof fn lemma_backlog_start_unique(data: Seq<u8>, max_lines: nat, a: int, b: int)
    requires
        is_backlog_start(data, max_lines, a),
        is_backlog_start(data, max_lines, b),
    ensures
        a == b,
{
    if a < b {
        lemma_line_starts_differ(data, a, b);
    } else if b < a {
        lemma_line_starts_differ(data, b, a);
    }
}

/// Counting the lines of what follows a line start gives the lines of the
/// whole from there on.
proof fn lemma_lines_of_suffix(data: Seq<u8>, k: int, j: int)
    requires
        0 <= k <= data.len(),
        k == data.len() || is_line_start(data, k),
        0 <= j,
    ensures
        lines_from(data.skip(k), j) == lines_from(data, k + j),
    decreases data.len() - k - j,
{
    let rest = data.skip(k);
    if j < rest.len() {
        lemma_lines_of_suffix(data, k, j + 1);
        if j > 0 {
            assert(rest[j - 1] == data[k + j - 1]);
        }
        assert(is_line_start(rest, j) == is_line_start(data, k + j));
    }
}

/// The backlog keeps to its bound: it holds as many lines as the data has, or
/// `max_lines` where the data has more, and so never more than `max_lines`.
pub proof fn lemma_backlog_within_bound(data: Seq<u8>, max_lines: nat, k: int)
    requires
        is_backlog_start(data, max_lines, k),
    ensures
        line_count(data.skip(k)) == at_most(line_count(data), max_lines),
        line_count(data.skip(k)) <= max_lines,
{
    lemma_lines_of_suffix(data, k, 0);
}

/// The position at which the backlog of `data` begins under a bound of
/// `max_lines` lines.
pub open spec fn backlog_offset(data: Seq<u8>, max_lines: nat) -> int {
    choose|k: int| is_backlog_start(data, max_lines, k)
}

/// The backlog of `data` under a bound of `max_lines` lines: what follows the
/// position at which the backlog begins.
pub open spec fn backlog_text(data: Seq<u8>, max_lines: nat) -> Seq<u8> {
    data.skip(backlog_offset(data, max_lines))
}

/// Looking backwards from position `i`, with `k` the last line start passed,
/// a start of the backlog is found.
proof fn lemma_backlog_start_below(data: Seq<u8>, max_lines: nat, i: int, k: int) -> (r: int)
    requires
        0 <= i <= k <= data.len(),
        lines_from(data, i) == lines_from(data, k),
        lines_from(data, k) <= max_lines,
        k == data.len() || is_line_start(data, k),
    ensures
        is_backlog_start(data, max_lines, r),
    decreases i,
{
    if i == 0 || lines_from(data, i) == max_lines {
        lemma_lines_from_monotone(data, 0, i);
        k
    } else if is_line_start(data, i - 1) {
        lemma_backlog_start_below(data, max_lines, i - 1, i - 1)
    } else {
        lemma_backlog_start_below(data, max_lines, i - 1, k)
    }
}

/// Every log has a backlog under every bound: the position that
/// [`backlog_offset`] names is the start of the backlog.
pub proof fn lemma_backlog_start_exists(data: Seq<u8>, max_lines: nat)
    ensures
        is_backlog_start(data, max_lines, backlog_offset(data, max_lines)),
{
    let k = lemma_backlog_start_below(data, max_lines, data.len() as int, data.len() as int);
}

/// The backlog keeps to its bound, whatever the log holds: it has as many
/// lines as the log, or `max_lines` where the log has more.
pub proof fn lemma_backlog_bounded(data: Seq<u8>, max_lines: nat)
    ensures
        line_count(backlog_text(data, max_lines)) == at_most(line_count(data), max_lines),
        line_count(backlog_text(data, max_lines)) <= max_lines,
{
    lemma_backlog_start_exists(data, max_lines);
    lemma_backlog_within_bound(data, max_lines, backlog_offset(data, max_lines));
}

/// The position at which the backlog of `data` begins under a bound of
/// `max_lines` lines.
pub fn backlog_start(data: &Vec<u8>, max_lines: usize) -> (k: usize)
    ensures
        is_backlog_start(data@, max_lines as nat, k as int),
        k == backlog_offset(data@, max_lines as nat),
{
    let len = data.len();
    let mut k: usize = len;
    let mut count: usize = 0;
    let mut i: usize = len;
    while i > 0 && count < max_lines
        invariant
            len == data.len(),
            i <= k <= len,
            count <= max_lines,
            count == lines_from(data@, i as int),
            count == lines_from(data@, k as int),
            k == len || is_line_start(data@, k as int),
        decreases i,
    {
        let starts = i == 1 || data[i - 2] == NEWLINE;
        assert(starts == is_line_start(data@, i - 1));
        if starts {
            count = count + 1;
            k = i - 1;
        }
        i = i - 1;
    }
    proof {
        lemma_lines_from_monotone(data@, 0, i as int);
        lemma_backlog_start_unique(
            data@,
            max_lines as nat,
            k as int,
            backlog_offset(data@, max_lines as nat),
        );
    }
    k
}

/// The backlog of `data` under a bound of `max_lines` lines: its last
/// `max_lines` lines, or all of it where it has fewer.
pub fn backlog(data: &Vec<u8>, max_lines: usize) -> (r: Vec<u8>)
    ensures
        r@ == backlog_text(data@, max_lines as nat),
        line_count(r@) == at_most(line_count(data@), max_lines as nat),
{
    let start = backlog_start(data, max_lines);
    let mut out: Vec<u8> = Vec::new();
    let mut i: usize = start;
    while i < data.len()
        invariant
            start <= i <= data.len(),
            out@ == data@.subrange(start as int, i as int),
        decreases data.len() - i,
    {
        out.push(data[i]);
        i = i + 1;
    }
    proof {
        assert(out@ =~= data@.skip(start as int));
        lemma_backlog_within_bound(data@, max_lines as nat, start as int);
    }
    out
}

/// How long the stream waits before it looks again for a log that does not
/// exist yet, in milliseconds.
pub const ARTIFACT_WAIT_MS: u64 = 100;

/// The name of the log of the sandbox with id `id` within the log directory.
pub open spec fn log_file_text(id: Seq<char>) -> Seq<char> {
    id + ".log"@
}

/// The name of the log of the sandbox with id `id` within the log directory.
pub fn log_file_name(id: &str) -> (r: String)
    ensures
        r@ == log_file_text(id@),
{
    join(id, ".log")
}

/// What the stream of one viewer is waiting for.
#[derive(Clone, Copy, Debug, PartialEq, Eq, Structural)]
pub enum TailPhase {
    /// Whether the log exists; `waits` says how often it has waited already.
    Probing { waits: u32 },
    /// Whether the log could be opened.
    Opening,
    /// The content of the log from its start.
    ReadingBacklog,
    /// Whether the backlog reached the viewer.
    SendingBacklog,
    /// What was appended to the log since the last read.
    Tailing,
    /// Whether the appended data reached the viewer.
    SendingTail,
    /// Whether the viewer has closed.
    CheckingClose,
    /// Whether the notice that there is no log reached the viewer.
    Notifying,
    /// Nothing: the stream has ended.
    Closed,
}

/// The stream of one viewer: what it is waiting for, and the bound of its
/// backlog in lines.
#[derive(Clone, Copy, Debug, PartialEq, Eq, Structural)]
pub struct LogTail {
    pub phase: TailPhase,
    pub backlog_lines: usize,
}

/// What the caller reports back after it has done what it was told.
#[derive(Debug)]
pub enum TailEvent {
    /// Whether the log exists.
    Probed { found: bool },
    /// Whether the log could be opened.
    Opened { ok: bool },
    /// The bytes read from the last position up to the end of the log.
    Read { data: Vec<u8> },
    /// Whether the message reached the viewer.
    Sent { ok: bool },
    /// Whether the viewer has closed or is gone.
    CloseChecked { closed: bool },
}

/// The mathematical value of a [`TailEvent`].
pub enum TailEventView {
    Probed { found: bool },
    Opened { ok: bool },
    Read { data: Seq<u8> },
    Sent { ok: bool },
    CloseChecked { closed: bool },
}

impl View for TailEvent {
    type V = TailEventView;

    open spec fn view(&self) -> TailEventView {
        match self {
            TailEvent::Probed { found } => TailEventView::Probed { found: *found },
            TailEvent::Opened { ok } => TailEventView::Opened { ok: *ok },
            TailEvent::Read { data } => TailEventView::Read { data: data@ },
            TailEvent::Sent { ok } => TailEventView::Sent { ok: *ok },
            TailEvent::CloseChecked { closed } => TailEventView::CloseChecked { closed: *closed },
        }
    }
}

/// What the caller is to do next.
#[derive(Debug)]
pub enum TailAction {
    /// Look whether the log exists, and report `Probed`.
    Probe,
    /// Wait this many milliseconds, look whether the log exists, and report
    /// `Probed`.
    ProbeAfter { millis: u64 },
    /// Open the log, and report `Opened`.
    Open,
    /// Read the log from its start to its end, and report `Read`.
    ReadAll,
    /// Wait this many milliseconds, read what follows the last position up to
    /// the end of the log, and report `Read`.
    ReadAfter { millis: u64 },
    /// Send these bytes to the viewer as one message, and report `Sent`.
    Send { payload: Vec<u8> },
    /// Send this notice to the viewer as one message, and report `Sent`.
    Notify { text: String },
    /// Listen this many milliseconds for the viewer's close, and report
    /// `CloseChecked`.
    CheckClose { millis: u64 },
    /// End the stream and release what it holds.
    Close,
}

/// The mathematical value of a [`TailAction`].
pub enum TailActionView {
    Probe,
    ProbeAfter { millis: u64 },
    Open,
    ReadAll,
    ReadAfter { millis: u64 },
    Send { payload: Seq<u8> },
    Notify { text: Seq<char> },
    CheckClose { millis: u64 },
    Close,
}

impl View for TailAction {
    type V = TailActionView;

    open spec fn view(&self) -> TailActionView {
        match self {
            TailAction::Probe => TailActionView::Probe,
            TailAction::ProbeAfter { millis } => TailActionView::ProbeAfter { millis: *millis },
            TailAction::Open => TailActionView::Open,
            TailAction::ReadAll => TailActionView::ReadAll,
            TailAction::ReadAfter { millis } => TailActionView::ReadAfter { millis: *millis },
            TailAction::Send { payload } => TailActionView::Send { payload: payload@ },
            TailAction::Notify { text } => TailActionView::Notify { text: text@ },
            TailAction::CheckClose { millis } => TailActionView::CheckClose { millis: *millis },
            TailAction::Close => TailActionView::Close,
        }
    }
}

impl LogTail {
    /// The same stream in another phase.
    pub open spec fn at(self, phase: TailPhase) -> LogTail {
        LogTail { phase, ..self }
    }

    /// The stream goes on to read what is appended.
    pub open spec fn tail_on(self) -> (LogTail, TailActionView) {
        (self.at(TailPhase::Tailing), TailActionView::ReadAfter { millis: POLL_INTERVAL_MS })
    }

    /// The stream ends.
    pub open spec fn end(self) -> (LogTail, TailActionView) {
        (self.at(TailPhase::Closed), TailActionView::Close)
    }

    /// The step that `event` brings about. Each phase has the event that
    /// answers its order; any other event, and any event after the end, ends
    /// the stream.
    pub open spec fn step(self, event: TailEventView) -> (LogTail, TailActionView) {
        match (self.phase, event) {
            (TailPhase::Probing { waits }, TailEventView::Probed { found }) => {
                if found || waits >= MAX_ARTIFACT_WAITS {
                    (self.at(TailPhase::Opening), TailActionView::Open)
                } else {
                    (
                        self.at(TailPhase::Probing { waits: (waits + 1) as u32 }),
                        TailActionView::ProbeAfter { millis: ARTIFACT_WAIT_MS },
                    )
                }
            },
            (TailPhase::Opening, TailEventView::Opened { ok }) => {
                if ok {
                    (self.at(TailPhase::ReadingBacklog), TailActionView::ReadAll)
                } else {
                    (
                        self.at(TailPhase::Notifying),
                        TailActionView::Notify { text: "[No log file available]"@ },
                    )
                }
            },
            (TailPhase::Notifying, TailEventView::Sent { ok }) => self.end(),
            (TailPhase::ReadingBacklog, TailEventView::Read { data }) => {
                let payload = backlog_text(data, self.backlog_lines as nat);
                if payload.len() > 0 {
                    (self.at(TailPhase::SendingBacklog), TailActionView::Send { payload })
                } else {
                    self.tail_on()
                }
            },
            (TailPhase::SendingBacklog, TailEventView::Sent { ok }) => {
                if ok {
                    self.tail_on()
                } else {
                    self.end()
                }
            },
            (TailPhase::Tailing, TailEventView::Read { data }) => {
                if data.len() > 0 {
                    (self.at(TailPhase::SendingTail), TailActionView::Send { payload: data })
                } else {
                    (
                        self.at(TailPhase::CheckingClose),
                        TailActionView::CheckClose { millis: CLOSE_CHECK_MS },
                    )
                }
            },
            (TailPhase::SendingTail, TailEventView::Sent { ok }) => {
                if ok {
                    (
                        self.at(TailPhase::CheckingClose),
                        TailActionView::CheckClose { millis: CLOSE_CHECK_MS },
                    )
                } else {
                    self.end()
                }
            },
            (TailPhase::CheckingClose, TailEventView::CloseChecked { closed }) => {
                if closed {
                    self.end()
                } else {
                    self.tail_on()
                }
            },
            _ => self.end(),
        }
    }

    /// A stream at its start, with a backlog of at most `backlog_lines` lines,
    /// and what is to be done first: to look whether the log exists.
    pub fn start(backlog_lines: usize) -> (r: (LogTail, TailAction))
        ensures
            r.0 == (LogTail { phase: TailPhase::Probing { waits: 0 }, backlog_lines }),
            r.1@ == TailActionView::Probe,
    {
        (LogTail { phase: TailPhase::Probing { waits: 0 }, backlog_lines }, TailAction::Probe)
    }

    fn goes_to(self, phase: TailPhase) -> (r: LogTail)
        ensures
            r == self.at(phase),
    {
        LogTail { phase, backlog_lines: self.backlog_lines }
    }

    /// Takes the stream one step further on `event`.
    pub fn advance(self, event: TailEvent) -> (r: (LogTail, TailAction))
        ensures
            (r.0, r.1@) == self.step(event@),
    {
        match (self.phase, event) {
            (TailPhase::Probing { waits }, TailEvent::Probed { found }) => {
                if found || waits >= MAX_ARTIFACT_WAITS {
                    (self.goes_to(TailPhase::Opening), TailAction::Open)
                } else {
                    (
                        self.goes_to(TailPhase::Probing { waits: waits + 1 }),
                        TailAction::ProbeAfter { millis: ARTIFACT_WAIT_MS },
                    )
                }
            },
            (TailPhase::Opening, TailEvent::Opened { ok }) => {
                if ok {
                    (self.goes_to(TailPhase::ReadingBacklog), TailAction::ReadAll)
                } else {
                    (
                        self.goes_to(TailPhase::Notifying),
                        TailAction::Notify { text: String::from_str("[No log file available]") },
                    )
                }
            },
            (TailPhase::Notifying, TailEvent::Sent { ok }) => (
                self.goes_to(TailPhase::Closed),
                TailAction::Close,
            ),
            (TailPhase::ReadingBacklog, TailEvent::Read { data }) => {
                let payload = backlog(&data, self.backlog_lines);
                if payload.len() > 0 {
                    (self.goes_to(TailPhase::SendingBacklog), TailAction::Send { payload })
                } else {
                    (
                        self.goes_to(TailPhase::Tailing),
                        TailAction::ReadAfter { millis: POLL_INTERVAL_MS },
                    )
                }
            },
            (TailPhase::SendingBacklog, TailEvent::Sent { ok }) => {
                if ok {
                    (
                        self.goes_to(TailPhase::Tailing),
                        TailAction::ReadAfter { millis: POLL_INTERVAL_MS },
                    )
                } else {
                    (self.goes_to(TailPhase::Closed), TailAction::Close)
                }
            },
            (TailPhase::Tailing, TailEvent::Read { data }) => {
                if data.len() > 0 {
                    (self.goes_to(TailPhase::SendingTail), TailAction::Send { payload: data })
                } else {
                    (
                        self.goes_to(TailPhase::CheckingClose),
                        TailAction::CheckClose { millis: CLOSE_CHECK_MS },
                    )
                }
            },
            (TailPhase::SendingTail, TailEvent::Sent { ok }) => {
                if ok {
                    (
                        self.goes_to(TailPhase::CheckingClose),
                        TailAction::CheckClose { millis: CLOSE_CHECK_MS },
                    )
                } else {
                    (self.goes_to(TailPhase::Closed), TailAction::Close)
                }
            },
            (TailPhase::CheckingClose, TailEvent::CloseChecked { closed }) => {
                if closed {
                    (self.goes_to(TailPhase::Closed), TailAction::Close)
                } else {
                    (
                        self.goes_to(TailPhase::Tailing),
                        TailAction::ReadAfter { millis: POLL_INTERVAL_MS },
                    )
                }
            },
            _ => (self.goes_to(TailPhase::Closed), TailAction::Close),
        }
    }
}

/// The bytes of `chunks`, one chunk after the other.
pub open spec fn joined(chunks: Seq<Seq<u8>>) -> Seq<u8>
    decreases chunks.len(),
{
    if chunks.len() == 0 {
        Seq::empty()
    } else {
        joined(chunks.drop_last()) + chunks.last()
    }
}

impl LogTail {
    /// One round of tailing in which `data` is read, what is sent reaches the
    /// viewer, and the viewer stays: the stream after the round, and the bytes
    /// that were sent in it.
    pub open spec fn round(self, data: Seq<u8>) -> (LogTail, Seq<u8>) {
        let (read, action) = self.step(TailEventView::Read { data });
        match action {
            TailActionView::Send { payload } => {
                let sent = read.step(TailEventView::Sent { ok: true }).0;
                (sent.step(TailEventView::CloseChecked { closed: false }).0, payload)
            },
            _ => (read.step(TailEventView::CloseChecked { closed: false }).0, Seq::empty()),
        }
    }

    /// One round for each of `reads`, in their order: the stream after the
    /// last round, and all bytes that were sent, in the order of sending.
    pub open spec fn rounds(self, reads: Seq<Seq<u8>>) -> (LogTail, Seq<u8>)
        decreases reads.len(),
    {
        if reads.len() == 0 {
            (self, Seq::empty())
        } else {
            let (before, sent) = self.rounds(reads.drop_last());
            let (after, more) = before.round(reads.last());
            (after, sent + more)
        }
    }

    /// The opening of a stream on a log that holds `content`, in which the
    /// backlog reaches the viewer: the stream afterwards, and the bytes that
    /// were sent.
    pub open spec fn opening(self, content: Seq<u8>) -> (LogTail, Seq<u8>) {
        let (read, action) = self.step(TailEventView::Read { data: content });
        match action {
            TailActionView::Send { payload } => (
                read.step(TailEventView::Sent { ok: true }).0,
                payload,
            ),
            _ => (read, Seq::empty()),
        }
    }
}

/// While a stream tails, the viewer gets exactly what is appended: over any
/// number of rounds the bytes sent are the bytes read, in their order, none
/// twice and none left out, and the stream goes on tailing.
pub proof fn lemma_tail_delivers_appended(tail: LogTail, reads: Seq<Seq<u8>>)
    requires
        tail.phase == TailPhase::Tailing,
    ensures
        tail.rounds(reads).0 == tail,
        tail.rounds(reads).1 == joined(reads),
    decreases reads.len(),
{
    if reads.len() > 0 {
        lemma_tail_delivers_appended(tail, reads.drop_last());
        let data = reads.last();
        if data.len() == 0 {
            assert(joined(reads.drop_last()) + data =~= joined(reads.drop_last()));
        }
    }
}

/// The backlog comes first and whole: a stream that has opened its log sends
/// the backlog of what the log holds, and nothing else, before it tails; what
/// it sends from then on is what is appended.
pub proof fn lemma_backlog_then_tail(tail: LogTail, content: Seq<u8>, reads: Seq<Seq<u8>>)
    requires
        tail.phase == TailPhase::ReadingBacklog,
    ensures
        tail.opening(content).0.phase == TailPhase::Tailing,
        tail.opening(content).1 == backlog_text(content, tail.backlog_lines as nat),
        tail.opening(content).0.rounds(reads).1 == joined(reads),
{
    lemma_tail_delivers_appended(tail.opening(content).0, reads);
}

/// Opens the log stream of the sandbox with id `id` for a viewer. An id that
/// the registry does not hold is refused with `NotFound`: no stream is set up.
/// Otherwise the result is the name of the log within the log directory, the
/// stream at its start with the usual bound on its backlog, and what is to be
/// done first.
pub fn open_log_stream(state: &ManagerState, id: &str) -> (r: Result<
    (String, LogTail, TailAction),
    ManagerError,
>)
    requires
        state.wf(),
    ensures
        match r {
            Ok((name, tail, action)) => {
                &&& state@.sandboxes.contains_key(id@)
                &&& name@ == log_file_text(id@)
                &&& tail == (LogTail {
                    phase: TailPhase::Probing { waits: 0 },
                    backlog_lines: INITIAL_BACKLOG_LINES,
                })
                &&& action@ == TailActionView::Probe
            },
            Err(e) => e@ == ManagerErrorView::NotFound && !state@.sandboxes.contains_key(id@),
        },
{
    if !state.contains(id) {
        return Err(ManagerError::NotFound);
    }
    let (tail, action) = LogTail::start(INITIAL_BACKLOG_LINES);
    Ok((log_file_name(id), tail, action))
}

} // verus!
