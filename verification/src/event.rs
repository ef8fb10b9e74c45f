//! Events that the controller in the target page reports.
use crate::clock;
use crate::page;
use crate::page::{PageSnapshot, SelectedElement};
use crate::runtime;
use crate::runtime::{RuntimeState, RuntimeView};
use crate::text::same_text;
use vstd::prelude::*;

verus! {

/// A report of the controller.
#[derive(Debug)]
pub struct BridgeEvent {
    pub event_type: String,
    pub level: Option<String>,
    pub message: Option<String>,
    pub selected: Option<SelectedElement>,
    pub snapshot: Option<PageSnapshot>,
}

/// The contents of a [`BridgeEvent`].
pub ghost struct EventView {
    pub event_type: Seq<char>,
    pub level: Option<Seq<char>>,
    pub message: Option<Seq<char>>,
    pub selected: Option<page::SelectedView>,
    pub snapshot: Option<page::SnapshotView>,
}

impl View for BridgeEvent {
    type V = EventView;

    open spec fn view(&self) -> EventView {
        EventView {
            event_type: self.event_type@,
            level: page::text_of(self.level),
            message: page::text_of(self.message),
            selected: page::selected_of(self.selected),
            snapshot: page::snapshot_of(self.snapshot),
        }
    }
}

/// What reading an event came to: its contents, or the message of the error.
pub open spec fn parsed_of(parsed: Result<BridgeEvent, String>) -> Result<EventView, Seq<char>> {
    match parsed {
        Ok(event) => Ok(event@),
        Err(error) => Err(error@),
    }
}

impl RuntimeView {
    /// The state after an event that is dealt with at the time `ts`.
    pub open spec fn after_event(self, ts: u64, event: EventView) -> RuntimeView {
        if event.event_type == "log"@ {
            let level = match event.level {
                Some(level) => level,
                None => "info"@,
            };
            let message = match event.message {
                Some(message) => message,
                None => "이벤트"@,
            };
            self.logged(ts, level, message)
        } else if event.event_type == "selected"@ {
            match event.selected {
                Some(selected) => (RuntimeView {
                    selected: Some(selected),
                    inspector_enabled: false,
                    running: false,
                    ..self
                }).logged(ts, "success"@, "선택 완료: "@ + selected.name),
                None => self,
            }
        } else if event.event_type == "snapshot"@ {
            match event.snapshot {
                Some(snapshot) => RuntimeView { snapshot: Some(snapshot), ..self },
                None => self,
            }
        } else {
            self.logged(ts, "warn"@, "알 수 없는 브리지 이벤트: "@ + event.event_type)
        }
    }

    /// The state after an event was read, or could not be read, at the time `ts`.
    pub open spec fn after_parsed(
        self,
        ts: u64,
        parsed: Result<EventView, Seq<char>>,
    ) -> RuntimeView {
        match parsed {
            Ok(event) => self.after_event(ts, event),
            Err(error) => self.logged(ts, "error"@, "브리지 이벤트 파싱 실패: "@ + error),
        }
    }
}

impl RuntimeState {
    /// Deals with an event of the controller.
    pub fn apply_bridge_event(&mut self, event: BridgeEvent)
        requires
            old(self).wf(),
            old(self)@.next_log_id < u64::MAX,
        ensures
            final(self).wf(),
            exists|ts: u64|
                clock::is_reading(ts)
                    && final(self)@ == #[trigger] old(self)@.after_event(ts, event@),
    {
        let ts = clock::now_ms();
        self.apply_bridge_event_at(ts, event);
        assert(self@ == old(self)@.after_event(ts, event@));
    }

    /// Deals with an event of the controller at the time `ts`.
    pub fn apply_bridge_event_at(&mut self, ts: u64, event: BridgeEvent)
        requires
            old(self).wf(),
            old(self)@.next_log_id < u64::MAX,
        ensures
            final(self).wf(),
            final(self)@ == old(self)@.after_event(ts, event@),
    {
        let kind = event.event_type.as_str();
        if same_text(kind, "log") {
            let level = match event.level {
                Some(level) => level,
                None => "info".to_string(),
            };
            let message = match event.message {
                Some(message) => message,
                None => "이벤트".to_string(),
            };
            self.push_log_at(ts, level, message);
        } else if same_text(kind, "selected") {
            if let Some(selected) = event.selected {
                let message = "선택 완료: ".to_string().concat(selected.name.as_str());
                self.selected = Some(selected);
                self.inspector_enabled = false;
                self.running = false;
                self.push_log_at(ts, "success".to_string(), message);
            }
        } else if same_text(kind, "snapshot") {
            if let Some(snapshot) = event.snapshot {
                self.snapshot = Some(snapshot);
            }
        } else {
            let message = "알 수 없는 브리지 이벤트: ".to_string().concat(kind);
            self.push_log_at(ts, "warn".to_string(), message);
        }
    }

    /// Deals with an event that was read, or logs why it could not be read.
    pub fn apply_parsed_event(&mut self, parsed: Result<BridgeEvent, String>)
        requires
            old(self).wf(),
            old(self)@.next_log_id < u64::MAX,
        ensures
            final(self).wf(),
            exists|ts: u64|
                clock::is_reading(ts)
                    && final(self)@ == #[trigger] old(self)@.after_parsed(ts, parsed_of(parsed)),
    {
        let ts = clock::now_ms();
        self.apply_parsed_event_at(ts, parsed);
        assert(self@ == old(self)@.after_parsed(ts, parsed_of(parsed)));
    }

    /// Deals with an event that was read, or logs why it could not be read, at the time `ts`.
    pub fn apply_parsed_event_at(&mut self, ts: u64, parsed: Result<BridgeEvent, String>)
        requires
            old(self).wf(),
            old(self)@.next_log_id < u64::MAX,
        ensures
            final(self).wf(),
            final(self)@ == old(self)@.after_parsed(ts, parsed_of(parsed)),
    {
        match parsed {
            Ok(event) => self.apply_bridge_event_at(ts, event),
            Err(error) => {
                let message = "브리지 이벤트 파싱 실패: ".to_string().concat(error.as_str());
                self.push_log_at(ts, "error".to_string(), message);
            },
        }
    }
}

/// An event neither starts clicking nor picking, and touches neither the target URL, the interval,
/// the bridge nor the payloads under way.
pub proof fn law_events_start_nothing(state: RuntimeView, ts: u64, event: EventView)
    ensures
        ({
            let after = state.after_event(ts, event);
            &&& after.running ==> state.running
            &&& after.inspector_enabled ==> state.inspector_enabled
            &&& after.target_url == state.target_url
            &&& after.interval_ms == state.interval_ms
            &&& after.bridge_port == state.bridge_port
            &&& after.bridge_chunks == state.bridge_chunks
        }),
{
}

/// Picking an element ends picking and clicking, and the element is the one that was reported.
pub proof fn law_selection_ends_picking(state: RuntimeView, ts: u64, event: EventView)
    requires
        event.event_type == "selected"@,
        event.selected is Some,
    ensures
        ({
            let after = state.after_event(ts, event);
            &&& after.selected == event.selected
            &&& !after.inspector_enabled
            &&& !after.running
        }),
{
    reveal_strlit("selected");
    reveal_strlit("log");
    assert("selected"@.len() != "log"@.len());
}

/// A snapshot changes nothing but the snapshot.
pub proof fn law_snapshot_changes_only_the_snapshot(
    state: RuntimeView,
    ts: u64,
    event: EventView,
)
    requires
        event.event_type == "snapshot"@,
        event.snapshot is Some,
    ensures
        state.after_event(ts, event) == (RuntimeView { snapshot: event.snapshot, ..state }),
{
    reveal_strlit("snapshot");
    reveal_strlit("selected");
    reveal_strlit("log");
    assert("snapshot"@.len() != "log"@.len());
    assert("snapshot"@[1] != "selected"@[1]);
}

/// An event that cannot be read changes nothing but the log.
pub proof fn law_unreadable_event_is_only_logged(state: RuntimeView, ts: u64, error: Seq<char>)
    ensures
        ({
            let after = state.after_parsed(ts, Err(error));
            after == (RuntimeView {
                logs: after.logs,
                next_log_id: after.next_log_id,
                ..state
            })
        }),
{
}

/// What the controller logs is logged, whatever else the state holds, at the level and with the
/// message that it gives, and nothing else changes.
pub proof fn law_log_event_is_logged(state: RuntimeView, ts: u64, event: EventView)
    requires
        state.logs.len() <= 500,
        state.next_log_id < u64::MAX,
        event.event_type == "log"@,
    ensures
        ({
            let after = state.after_event(ts, event);
            &&& event.level is Some && event.message is Some ==> runtime::log_gains(
                state,
                after,
                ts,
                event.level->0,
                event.message->0,
            )
            &&& event.level is None && event.message is Some ==> runtime::log_gains(
                state,
                after,
                ts,
                "info"@,
                event.message->0,
            )
            &&& event.level is Some && event.message is None ==> runtime::log_gains(
                state,
                after,
                ts,
                event.level->0,
                "이벤트"@,
            )
            &&& event.level is None && event.message is None ==> runtime::log_gains(
                state,
                after,
                ts,
                "info"@,
                "이벤트"@,
            )
            &&& after == RuntimeView {
                logs: after.logs,
                next_log_id: after.next_log_id,
                ..state
            }
        }),
{
}

/// A picked element is logged by its name and replaces the one before; picking and clicking end,
/// and nothing else changes.
pub proof fn law_picked_element_is_taken(state: RuntimeView, ts: u64, event: EventView)
    requires
        state.logs.len() <= 500,
        state.next_log_id < u64::MAX,
        event.event_type == "selected"@,
        event.selected is Some,
    ensures
        ({
            let after = state.after_event(ts, event);
            &&& runtime::log_gains(
                state,
                after,
                ts,
                "success"@,
                "선택 완료: "@ + event.selected->0.name,
            )
            &&& after == RuntimeView {
                selected: event.selected,
                inspector_enabled: false,
                running: false,
                logs: after.logs,
                next_log_id: after.next_log_id,
                ..state
            }
        }),
{
    reveal_strlit("selected");
    reveal_strlit("log");
    assert("selected"@.len() != "log"@.len());
}

/// An event that announces an element or a snapshot and brings none changes nothing.
pub proof fn law_empty_event_changes_nothing(state: RuntimeView, ts: u64, event: EventView)
    requires
        event.event_type == "selected"@ && event.selected is None || event.event_type
            == "snapshot"@ && event.snapshot is None,
    ensures
        state.after_event(ts, event) == state,
{
    reveal_strlit("snapshot");
    reveal_strlit("selected");
    reveal_strlit("log");
    assert("snapshot"@.len() != "log"@.len());
    assert("selected"@.len() != "log"@.len());
    assert("snapshot"@[1] != "selected"@[1]);
}

/// An event of any other type is logged as a warning that names the type, and nothing else
/// changes.
pub proof fn law_unknown_event_is_only_logged(state: RuntimeView, ts: u64, event: EventView)
    requires
        state.logs.len() <= 500,
        state.next_log_id < u64::MAX,
        event.event_type != "log"@,
        event.event_type != "selected"@,
        event.event_type != "snapshot"@,
    ensures
        ({
            let after = state.after_event(ts, event);
            &&& runtime::log_gains(
                state,
                after,
                ts,
                "warn"@,
                "알 수 없는 브리지 이벤트: "@ + event.event_type,
            )
            &&& after == RuntimeView {
                logs: after.logs,
                next_log_id: after.next_log_id,
                ..state
            }
        }),
{
}

/// An event that is read is dealt with, and one that cannot be read is logged as an error with the
/// reason.
pub proof fn law_event_is_dealt_with_or_refused(
    state: RuntimeView,
    ts: u64,
    parsed: Result<EventView, Seq<char>>,
)
    requires
        state.logs.len() <= 500,
        state.next_log_id < u64::MAX,
    ensures
        parsed is Ok ==> state.after_parsed(ts, parsed) == state.after_event(ts, parsed->Ok_0),
        parsed is Err ==> runtime::log_gains(
            state,
            state.after_parsed(ts, parsed),
            ts,
            "error"@,
            "브리지 이벤트 파싱 실패: "@ + parsed->Err_0,
        ),
{
}

/// The contents of an event are all its fields.
pub proof fn law_event_shows_its_fields(event: BridgeEvent, error: String)
    ensures
        event@.event_type == event.event_type@,
        event@.level == page::text_of(event.level),
        event@.message == page::text_of(event.message),
        event@.selected == page::selected_of(event.selected),
        event@.snapshot == page::snapshot_of(event.snapshot),
        parsed_of(Ok(event)) == Ok::<EventView, Seq<char>>(event@),
        parsed_of(Err(error)) == Err::<EventView, Seq<char>>(error@),
{
}

} // verus!
