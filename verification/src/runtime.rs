//! The state of the running program: what the control window shows, and what the controller in
//! the target page is told.
use crate::chunks::BridgeChunks;
use crate::clock;
use crate::page;
use crate::page::{PageSnapshot, SelectedElement};
use std::collections::VecDeque;
use vstd::prelude::*;

verus! {

/// The number of log entries that are kept.
pub const MAX_LOGS: usize = 500;

/// The shortest time between two clicks, in milliseconds.
pub const MIN_INTERVAL_MS: u64 = 500;

/// The time between two clicks until it is changed, in milliseconds.
pub const DEFAULT_INTERVAL_MS: u64 = 5_000;

/// One entry of the log.
#[derive(Debug)]
pub struct LogEntry {
    pub id: u64,
    pub ts: u64,
    pub level: String,
    pub message: String,
}

/// The contents of a [`LogEntry`].
pub ghost struct LogView {
    pub id: u64,
    pub ts: u64,
    pub level: Seq<char>,
    pub message: Seq<char>,
}

impl View for LogEntry {
    type V = LogView;

    open spec fn view(&self) -> LogView {
        LogView { id: self.id, ts: self.ts, level: self.level@, message: self.message@ }
    }
}

impl Clone for LogEntry {
    fn clone(&self) -> (copy: Self)
        ensures
            copy@ == self@,
    {
        LogEntry {
            id: self.id,
            ts: self.ts,
            level: self.level.clone(),
            message: self.message.clone(),
        }
    }
}

/// Log entries by their contents.
pub open spec fn logs_of(logs: Seq<LogEntry>) -> Seq<LogView> {
    logs.map_values(|entry: LogEntry| entry@)
}

/// The newest entries of a log, as many as are kept.
pub open spec fn newest(logs: Seq<LogView>) -> Seq<LogView> {
    if logs.len() > MAX_LOGS {
        logs.skip(logs.len() - MAX_LOGS)
    } else {
        logs
    }
}

/// The interval that is in effect where `interval_ms` is asked for.
pub open spec fn effective_interval(interval_ms: u64) -> u64 {
    if interval_ms < MIN_INTERVAL_MS {
        MIN_INTERVAL_MS
    } else {
        interval_ms
    }
}

/// The interval that is in effect where `interval_ms` is asked for.
pub fn clamp_interval(interval_ms: u64) -> (interval: u64)
    ensures
        interval == effective_interval(interval_ms),
{
    if interval_ms < MIN_INTERVAL_MS {
        MIN_INTERVAL_MS
    } else {
        interval_ms
    }
}

/// What the control window is shown.
#[derive(Debug)]
pub struct ClientState {
    pub target_url: Option<String>,
    pub inspector_enabled: bool,
    pub running: bool,
    pub interval_ms: u64,
    pub selected: Option<SelectedElement>,
    pub snapshot: Option<PageSnapshot>,
    pub logs: Vec<LogEntry>,
}

/// The contents of a [`ClientState`].
pub ghost struct ClientView {
    pub target_url: Option<Seq<char>>,
    pub inspector_enabled: bool,
    pub running: bool,
    pub interval_ms: u64,
    pub selected: Option<page::SelectedView>,
    pub snapshot: Option<page::SnapshotView>,
    pub logs: Seq<LogView>,
}

impl View for ClientState {
    type V = ClientView;

    open spec fn view(&self) -> ClientView {
        ClientView {
            target_url: page::text_of(self.target_url),
            inspector_enabled: self.inspector_enabled,
            running: self.running,
            interval_ms: self.interval_ms,
            selected: page::selected_of(self.selected),
            snapshot: page::snapshot_of(self.snapshot),
            logs: logs_of(self.logs@),
        }
    }
}

/// The state of the running program.
#[derive(Debug)]
pub struct RuntimeState {
    pub(crate) bridge_port: u16,
    pub(crate) target_url: Option<String>,
    pub(crate) inspector_enabled: bool,
    pub(crate) running: bool,
    pub(crate) interval_ms: u64,
    pub(crate) selected: Option<SelectedElement>,
    pub(crate) snapshot: Option<PageSnapshot>,
    pub(crate) logs: VecDeque<LogEntry>,
    pub(crate) bridge_chunks: BridgeChunks,
    pub(crate) next_log_id: u64,
}

/// The contents of a [`RuntimeState`].
pub ghost struct RuntimeView {
    /// The port of the bridge, and 0 until it is open.
    pub bridge_port: u16,
    pub target_url: Option<Seq<char>>,
    pub inspector_enabled: bool,
    pub running: bool,
    pub interval_ms: u64,
    pub selected: Option<page::SelectedView>,
    pub snapshot: Option<page::SnapshotView>,
    /// The log, oldest entry first.
    pub logs: Seq<LogView>,
    /// The payloads under way, by id.
    pub bridge_chunks: Map<Seq<char>, crate::chunks::BufferView>,
    /// The id of the last entry that was logged.
    pub next_log_id: u64,
}

impl RuntimeView {
    /// The state at the start of the program.
    pub open spec fn initial() -> RuntimeView {
        RuntimeView {
            bridge_port: 0,
            target_url: None,
            inspector_enabled: false,
            running: false,
            interval_ms: 0,
            selected: None,
            snapshot: None,
            logs: Seq::empty(),
            bridge_chunks: Map::empty(),
            next_log_id: 0,
        }
    }

    /// The log is bounded and its ids count up to the last one; clicking and picking exclude one
    /// another; clicking needs a picked element and an interval; buffers are well formed, and hold
    /// no empty chunk and no payload without an id.
    pub open spec fn wf(self) -> bool {
        &&& self.logs.len() <= MAX_LOGS
        &&& self.logs.len() <= self.next_log_id
        &&& forall|i: int|
            0 <= i < self.logs.len() ==> (#[trigger] self.logs[i]).id == self.next_log_id
                - self.logs.len() + 1 + i
        &&& !(self.running && self.inspector_enabled)
        &&& self.running ==> self.selected is Some && self.interval_ms != 0
        &&& self.interval_ms == 0 || self.interval_ms >= MIN_INTERVAL_MS
        &&& crate::chunks::buffers_wf(self.bridge_chunks)
        &&& crate::chunks::buffers_hold_data(self.bridge_chunks)
    }

    /// The state with one more log entry, written at the time `ts`.
    pub open spec fn logged(self, ts: u64, level: Seq<char>, message: Seq<char>) -> RuntimeView {
        let id = (self.next_log_id + 1) as u64;
        RuntimeView {
            next_log_id: id,
            logs: newest(self.logs.push(LogView { id, ts, level, message })),
            ..self
        }
    }

    /// The state once the log is emptied.
    pub open spec fn cleared(self) -> RuntimeView {
        RuntimeView { logs: Seq::empty(), ..self }
    }

    /// What the control window is shown of the state.
    pub open spec fn client(self) -> ClientView {
        ClientView {
            target_url: self.target_url,
            inspector_enabled: self.inspector_enabled,
            running: self.running,
            interval_ms: effective_interval(self.interval_ms),
            selected: self.selected,
            snapshot: self.snapshot,
            logs: self.logs,
        }
    }
}

impl View for RuntimeState {
    type V = RuntimeView;

    open(crate) spec fn view(&self) -> RuntimeView {
        RuntimeView {
            bridge_port: self.bridge_port,
            target_url: page::text_of(self.target_url),
            inspector_enabled: self.inspector_enabled,
            running: self.running,
            interval_ms: self.interval_ms,
            selected: page::selected_of(self.selected),
            snapshot: page::snapshot_of(self.snapshot),
            logs: logs_of(self.logs@),
            bridge_chunks: self.bridge_chunks@,
            next_log_id: self.next_log_id,
        }
    }
}

impl Default for RuntimeState {
    /// The state at the start of the program.
    fn default() -> (state: Self)
        ensures
            state.wf(),
            state@ == RuntimeView::initial(),
    {
        let state = RuntimeState {
            bridge_port: 0,
            target_url: None,
            inspector_enabled: false,
            running: false,
            interval_ms: 0,
            selected: None,
            snapshot: None,
            logs: VecDeque::new(),
            bridge_chunks: BridgeChunks::new(),
            next_log_id: 0,
        };
        assert(state@.logs =~= Seq::empty());
        state
    }
}

impl RuntimeState {
    /// The state is well formed.
    pub open(crate) spec fn wf(&self) -> bool {
        &&& self.bridge_chunks.wf()
        &&& self@.wf()
    }

    /// A well-formed state has well-formed contents.
    pub proof fn law_contents_are_well_formed(&self)
        requires
            self.wf(),
        ensures
            self@.wf(),
    {
    }

    /// Whether another entry can be logged: ids are 64 bits wide.
    pub fn can_log(&self) -> (room: bool)
        ensures
            room == (self@.next_log_id < u64::MAX),
    {
        self.next_log_id < u64::MAX
    }

    /// What the control window is shown.
    pub fn client_state(&self) -> (client: ClientState)
        ensures
            client@ == self@.client(),
            client@.interval_ms >= MIN_INTERVAL_MS,
    {
        let mut logs: Vec<LogEntry> = Vec::new();
        let mut i: usize = 0;
        while i < self.logs.len()
            invariant
                i <= self.logs@.len(),
                logs_of(logs@) == logs_of(self.logs@.take(i as int)),
            decreases self.logs@.len() - i,
        {
            let ghost before = logs@;
            logs.push(self.logs[i].clone());
            i += 1;
            assert(logs_of(logs@) =~= logs_of(before).push(self.logs@[i - 1]@));
            assert(logs_of(self.logs@.take(i as int)) =~= logs_of(self.logs@.take(i - 1)).push(
                self.logs@[i - 1]@,
            ));
        }
        assert(self.logs@.take(i as int) =~= self.logs@);
        ClientState {
            target_url: page::copy_text(&self.target_url),
            inspector_enabled: self.inspector_enabled,
            running: self.running,
            interval_ms: clamp_interval(self.interval_ms),
            selected: page::copy_selected(&self.selected),
            snapshot: page::copy_snapshot(&self.snapshot),
            logs,
        }
    }

    /// Adds an entry to the log, dropping the oldest ones where there are too many.
    pub fn push_log(&mut self, level: String, message: String)
        requires
            old(self).wf(),
            old(self)@.next_log_id < u64::MAX,
        ensures
            final(self).wf(),
            exists|ts: u64|
                clock::is_reading(ts)
                    && final(self)@ == #[trigger] old(self)@.logged(ts, level@, message@),
    {
        let ts = clock::now_ms();
        self.push_log_at(ts, level, message);
        assert(self@ == old(self)@.logged(ts, level@, message@));
    }

    /// Adds an entry to the log as of the time `ts`, dropping the oldest ones where there are too
    /// many.
    pub fn push_log_at(&mut self, ts: u64, level: String, message: String)
        requires
            old(self).wf(),
            old(self)@.next_log_id < u64::MAX,
        ensures
            final(self).wf(),
            final(self)@ == old(self)@.logged(ts, level@, message@),
    {
        self.next_log_id = self.next_log_id + 1;
        let entry = LogEntry { id: self.next_log_id, ts, level, message };
        let ghost shown = logs_of(self.logs@).push(entry@);
        self.logs.push_back(entry);
        assert(logs_of(self.logs@) =~= shown);
        while self.logs.len() > MAX_LOGS
            invariant
                self.logs@.len() <= shown.len(),
                shown.len() > MAX_LOGS ==> self.logs@.len() >= MAX_LOGS,
                shown.len() <= MAX_LOGS ==> self.logs@.len() == shown.len(),
                logs_of(self.logs@) == shown.skip(shown.len() - self.logs@.len()),
                self.bridge_chunks == old(self).bridge_chunks,
                self@ == (RuntimeView {
                    logs: self@.logs,
                    next_log_id: (old(self)@.next_log_id + 1) as u64,
                    ..old(self)@
                }),
            decreases self.logs@.len(),
        {
            let ghost before = self.logs@;
            self.logs.pop_front();
            assert(logs_of(self.logs@) =~= logs_of(before).skip(1));
            assert(logs_of(self.logs@) =~= shown.skip(shown.len() - self.logs@.len()));
        }
        assert(logs_of(self.logs@) =~= newest(shown));
        assert(self@ == old(self)@.logged(ts, level@, message@));
    }
}

/// Logging keeps the state well formed, puts the new entry last under the next id, and keeps the
/// entries before it, except the oldest one where the log is full.
pub proof fn law_log_keeps_the_newest(
    state: RuntimeView,
    ts: u64,
    level: Seq<char>,
    message: Seq<char>,
)
    requires
        state.wf(),
        state.next_log_id < u64::MAX,
    ensures
        ({
            let after = state.logged(ts, level, message);
            let dropped = state.logs.len() + 1 - after.logs.len();
            &&& after.wf()
            &&& after.logs.len() == if state.logs.len() < MAX_LOGS {
                state.logs.len() + 1
            } else {
                MAX_LOGS as nat
            }
            &&& after.logs.last() == LogView {
                id: (state.next_log_id + 1) as u64,
                ts,
                level,
                message,
            }
            &&& forall|i: int|
                0 <= i < after.logs.len() - 1 ==> #[trigger] after.logs[i] == state.logs[i
                    + dropped]
        }),
{
}

/// The ids in the log strictly increase.
pub proof fn law_log_ids_increase(state: RuntimeView, i: int, j: int)
    requires
        state.wf(),
        0 <= i < j < state.logs.len(),
    ensures
        state.logs[i].id < state.logs[j].id,
{
}

/// What is shown never has an interval below the shortest one, never has clicking and picking on
/// at once, and never has clicking on without a picked element.
pub proof fn law_shown_state_is_sane(state: RuntimeView)
    requires
        state.wf(),
    ensures
        state.client().interval_ms >= MIN_INTERVAL_MS,
        !(state.client().running && state.client().inspector_enabled),
        state.client().running ==> state.client().selected is Some,
{
}

/// Whether the log of `after` is that of `before` with one entry more, under the next id, less the
/// oldest entry where there were as many as are kept.
pub open spec fn log_gains(
    before: RuntimeView,
    after: RuntimeView,
    ts: u64,
    level: Seq<char>,
    message: Seq<char>,
) -> bool {
    let dropped = before.logs.len() + 1 - after.logs.len();
    &&& after.next_log_id == before.next_log_id + 1
    &&& after.logs.len() == if before.logs.len() < 500 {
        before.logs.len() + 1
    } else {
        500
    }
    &&& after.logs.last() == LogView { id: after.next_log_id, ts, level, message }
    &&& forall|i: int|
        0 <= i < after.logs.len() - 1 ==> #[trigger] after.logs[i] == before.logs[i + dropped]
}

/// Logging adds one entry to the log, whatever else the state holds, and changes nothing else.
pub proof fn law_logging_changes_only_the_log(
    state: RuntimeView,
    ts: u64,
    level: Seq<char>,
    message: Seq<char>,
)
    requires
        state.logs.len() <= 500,
        state.next_log_id < u64::MAX,
    ensures
        ({
            let after = state.logged(ts, level, message);
            &&& log_gains(state, after, ts, level, message)
            &&& after == RuntimeView {
                logs: after.logs,
                next_log_id: after.next_log_id,
                ..state
            }
        }),
{
}

/// Emptying the log drops all its entries, lets ids count on, and changes nothing else.
pub proof fn law_cleared_log_is_empty(state: RuntimeView)
    ensures
        state.cleared().logs.len() == 0,
        state.cleared() == (RuntimeView { logs: state.cleared().logs, ..state }),
{
}

/// The interval in effect is the one asked for, and half a second where less is asked for.
pub proof fn law_interval_has_a_floor(interval_ms: u64)
    ensures
        interval_ms >= 500 ==> effective_interval(interval_ms) == interval_ms,
        interval_ms < 500 ==> effective_interval(interval_ms) == 500,
{
}

/// The control window is shown the state as it is, with the interval in effect.
pub proof fn law_client_is_shown_the_state(state: RuntimeView)
    ensures
        ({
            let client = state.client();
            &&& client.target_url == state.target_url
            &&& client.inspector_enabled == state.inspector_enabled
            &&& client.running == state.running
            &&& state.interval_ms >= 500 ==> client.interval_ms == state.interval_ms
            &&& state.interval_ms < 500 ==> client.interval_ms == 500
            &&& client.selected == state.selected
            &&& client.snapshot == state.snapshot
            &&& client.logs == state.logs
        }),
{
}

/// The program starts with nothing open, picked, shown, logged or running.
pub proof fn law_program_starts_with_nothing()
    ensures
        ({
            let state = RuntimeView::initial();
            &&& state.wf()
            &&& state.bridge_port == 0
            &&& state.target_url is None
            &&& !state.inspector_enabled
            &&& !state.running
            &&& state.interval_ms == 0
            &&& state.selected is None
            &&& state.snapshot is None
            &&& state.logs.len() == 0
            &&& state.bridge_chunks.dom().is_empty()
            &&& state.next_log_id == 0
        }),
{
}

/// A well-formed state keeps at most 500 log entries.
pub proof fn law_log_is_bounded(state: RuntimeView)
    requires
        state.wf(),
    ensures
        state.logs.len() <= 500,
{
}

/// The contents of a log entry are all its fields.
pub proof fn law_log_entry_shows_its_fields(entry: LogEntry)
    ensures
        entry@.id == entry.id,
        entry@.ts == entry.ts,
        entry@.level == entry.level@,
        entry@.message == entry.message@,
{
}

/// The contents of what the control window is shown are all its fields, the log in order.
pub proof fn law_client_state_shows_its_fields(client: ClientState)
    ensures
        client@.target_url == page::text_of(client.target_url),
        client@.inspector_enabled == client.inspector_enabled,
        client@.running == client.running,
        client@.interval_ms == client.interval_ms,
        client@.selected == page::selected_of(client.selected),
        client@.snapshot == page::snapshot_of(client.snapshot),
        client@.logs.len() == client.logs@.len(),
        forall|i: int|
            0 <= i < client.logs@.len() ==> #[trigger] client@.logs[i] == client.logs@[i]@,
{
}

} // verus!
