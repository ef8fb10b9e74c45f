use button_automation::event::BridgeEvent;
use button_automation::navigation::Navigation;
use button_automation::page::{ElementPreview, PageSnapshot, Rect, SelectedElement};
use button_automation::runtime::RuntimeState;
use url::Url;

fn pairs(items: &[(&str, &str)]) -> Vec<(String, String)> {
    items.iter().map(|(name, value)| (name.to_string(), value.to_string())).collect()
}

fn event(kind: &str) -> BridgeEvent {
    BridgeEvent {
        event_type: kind.to_string(),
        level: None,
        message: None,
        selected: None,
        snapshot: None,
    }
}

fn element(name: &str) -> SelectedElement {
    SelectedElement {
        tag: "button".to_string(),
        selector: "button#go".to_string(),
        text: name.to_string(),
        role: Some("button".to_string()),
        name: name.to_string(),
        fingerprint: format!("button|button|{name}"),
    }
}

fn snapshot(title: &str) -> PageSnapshot {
    let rect = Rect {
        x: 1.5_f64.to_bits(),
        y: 2.0_f64.to_bits(),
        width: 3.25_f64.to_bits(),
        height: 4.0_f64.to_bits(),
    };
    PageSnapshot {
        url: "https://example.com/".to_string(),
        title: title.to_string(),
        image: None,
        width: 1200.0_f64.to_bits(),
        height: 820.0_f64.to_bits(),
        scroll_x: 0,
        scroll_y: 0,
        selected_rect: Some(rect),
        candidates: vec![ElementPreview {
            rect,
            label: "go".to_string(),
            selector: "button#go".to_string(),
            selected: true,
        }],
        captured_at: 99,
    }
}

fn last_log(state: &RuntimeState) -> (u64, String, String) {
    let mut logs = state.client_state().logs;
    let entry = logs.pop().expect("a log entry");
    (entry.ts, entry.level, entry.message)
}

#[test]
fn a_log_event_is_logged_with_defaults() {
    let mut state = RuntimeState::default();
    state.apply_bridge_event_at(5, event("log"));
    assert_eq!(last_log(&state), (5, "info".to_string(), "이벤트".to_string()));
    let mut full = event("log");
    full.level = Some("warn".to_string());
    full.message = Some("hm".to_string());
    state.apply_bridge_event_at(6, full);
    assert_eq!(last_log(&state), (6, "warn".to_string(), "hm".to_string()));
}

#[test]
fn a_picked_element_ends_picking() {
    let mut state = RuntimeState::default();
    state.set_inspector(1, true);
    let mut picked = event("selected");
    picked.selected = Some(element("go"));
    state.apply_bridge_event_at(2, picked);
    let shown = state.client_state();
    assert!(!shown.inspector_enabled && !shown.running);
    let selected = shown.selected.expect("a picked element");
    assert_eq!(selected.name, "go");
    assert_eq!(selected.role.as_deref(), Some("button"));
    assert_eq!(selected.fingerprint, "button|button|go");
    assert_eq!(last_log(&state), (2, "success".to_string(), "선택 완료: go".to_string()));
}

#[test]
fn a_picked_event_without_an_element_changes_nothing() {
    let mut state = RuntimeState::default();
    state.set_inspector(1, true);
    state.apply_bridge_event(event("selected"));
    let shown = state.client_state();
    assert!(shown.inspector_enabled && shown.selected.is_none());
    assert_eq!(shown.logs.len(), 1);
}

#[test]
fn a_snapshot_replaces_the_snapshot_and_nothing_else() {
    let mut state = RuntimeState::default();
    state.apply_bridge_event(event("snapshot"));
    assert!(state.client_state().snapshot.is_none());
    for title in ["one", "two"] {
        let mut seen = event("snapshot");
        seen.snapshot = Some(snapshot(title));
        state.apply_bridge_event(seen);
    }
    let shown = state.client_state();
    assert!(shown.logs.is_empty());
    let page = shown.snapshot.expect("a snapshot");
    assert_eq!((page.title.as_str(), page.captured_at), ("two", 99));
    assert_eq!(f64::from_bits(page.width), 1200.0);
    assert_eq!(f64::from_bits(page.candidates[0].rect.width), 3.25);
    assert!(page.candidates[0].selected);
}

#[test]
fn an_unknown_event_is_logged() {
    let mut state = RuntimeState::default();
    state.apply_bridge_event_at(3, event("dance"));
    assert_eq!(
        last_log(&state),
        (3, "warn".to_string(), "알 수 없는 브리지 이벤트: dance".to_string())
    );
}

#[test]
fn an_unreadable_event_is_logged() {
    let mut state = RuntimeState::default();
    state.apply_parsed_event(Err("EOF".to_string()));
    let (_, level, message) = last_log(&state);
    assert_eq!((level.as_str(), message.as_str()), ("error", "브리지 이벤트 파싱 실패: EOF"));
    state.apply_parsed_event(Ok(event("log")));
    assert_eq!(last_log(&state).2, "이벤트");
}

#[test]
fn an_ordinary_navigation_goes_on() {
    let mut state = RuntimeState::default();
    let url = Url::parse("https://example.com/event?data=e30").unwrap();
    let outcome = state.handle_navigation_bridge(&url);
    assert!(!outcome.intercepted && outcome.event.is_none());
    assert!(state.client_state().logs.is_empty());
}

#[test]
fn an_event_url_brings_its_payload() {
    let mut state = RuntimeState::default();
    let url = Url::parse("button-automation://event?data=eyJ0eXBlIjoibG9nIn0").unwrap();
    let outcome = state.handle_navigation_bridge(&url);
    assert!(outcome.intercepted);
    assert_eq!(outcome.event.as_deref(), Some(&b"{\"type\":\"log\"}"[..]));
}

#[test]
fn the_url_safe_alphabet_is_decoded_without_padding() {
    let mut state = RuntimeState::default();
    assert_eq!(state.apply_encoded_bridge_event("-_8").as_deref(), Some(&[0xfb, 0xff][..]));
    assert_eq!(state.apply_encoded_bridge_event("").as_deref(), Some(&[][..]));
    assert!(state.client_state().logs.is_empty());
}

#[test]
fn a_payload_that_is_not_base64_is_logged() {
    let mut state = RuntimeState::default();
    assert!(state.apply_encoded_bridge_event_at(4, "e30=").is_none());
    assert_eq!(
        last_log(&state),
        (4, "error".to_string(), "브리지 payload 디코딩 실패: Invalid padding".to_string())
    );
    let url = Url::parse("button-automation://event?data=%2B%2B").unwrap();
    let outcome = state.handle_navigation_bridge(&url);
    assert!(outcome.intercepted && outcome.event.is_none());
    assert_eq!(
        last_log(&state).2,
        "브리지 payload 디코딩 실패: Invalid symbol 43, offset 0."
    );
    assert!(state.apply_decoded(5, Err("why".to_string())).is_none());
    assert_eq!(last_log(&state).2, "브리지 payload 디코딩 실패: why");
    assert_eq!(state.apply_decoded(5, Ok(vec![1, 2])), Some(vec![1, 2]));
}

#[test]
fn chunk_urls_bring_the_payload_of_an_event_url() {
    let mut state = RuntimeState::default();
    let parts = ["eyJ0e", "XBlIjoi", "bG9nIn0"];
    for (index, expected) in [(2, false), (0, false), (1, true)] {
        let url = Url::parse(&format!(
            "button-automation://chunk?id=k1&index={index}&total=3&data={}",
            parts[index]
        ))
        .unwrap();
        let outcome = state.handle_navigation_bridge(&url);
        assert!(outcome.intercepted);
        assert_eq!(outcome.event.is_some(), expected);
        if expected {
            assert_eq!(outcome.event.as_deref(), Some(&b"{\"type\":\"log\"}"[..]));
        }
    }
    assert!(state.client_state().logs.is_empty());
}

#[test]
fn chunk_urls_that_make_no_sense_are_dropped() {
    let mut state = RuntimeState::default();
    for query in [
        vec![],
        vec![("index", "0"), ("total", "1"), ("data", "x")],
        vec![("id", ""), ("index", "0"), ("total", "1"), ("data", "x")],
        vec![("id", "a"), ("total", "1"), ("data", "x")],
        vec![("id", "a"), ("index", "one"), ("total", "1"), ("data", "x")],
        vec![("id", "a"), ("index", "1"), ("total", "1"), ("data", "x")],
        vec![("id", "a"), ("index", "0"), ("data", "x")],
        vec![("id", "a"), ("index", "0"), ("total", "0"), ("data", "x")],
        vec![("id", "a"), ("index", "0"), ("total", "257"), ("data", "x")],
        vec![("id", "a"), ("index", "0"), ("total", "1")],
        vec![("id", "a"), ("index", "0"), ("total", "1"), ("data", "")],
    ] {
        let navigation =
            state.route_navigation(0, "button-automation", Some("chunk"), &pairs(&query));
        assert!(matches!(navigation, Navigation::Handled), "{query:?}");
    }
    assert!(state.client_state().logs.is_empty());
}

#[test]
fn the_last_value_of_a_name_counts() {
    let mut state = RuntimeState::default();
    let query = pairs(&[("data", "first"), ("x", "y"), ("data", "last")]);
    match state.route_navigation(0, "button-automation", Some("event"), &query) {
        Navigation::Payload(data) => assert_eq!(data, "last"),
        other => panic!("{other:?}"),
    }
}

#[test]
fn bridge_urls_without_anything_to_do_are_intercepted() {
    let mut state = RuntimeState::default();
    let none = pairs(&[]);
    assert!(matches!(
        state.route_navigation(0, "button-automation", None, &none),
        Navigation::Handled
    ));
    assert!(matches!(
        state.route_navigation(0, "button-automation", Some("event"), &none),
        Navigation::Handled
    ));
    assert!(matches!(
        state.route_navigation(0, "https", Some("event"), &none),
        Navigation::Elsewhere
    ));
    assert!(state.client_state().logs.is_empty());
    let url = Url::parse("button-automation:event?data=e30").unwrap();
    let outcome = state.handle_navigation_bridge(&url);
    assert!(outcome.intercepted && outcome.event.is_none());
}

#[test]
fn an_unknown_bridge_host_is_logged() {
    let mut state = RuntimeState::default();
    let url = Url::parse("button-automation://dance?data=e30").unwrap();
    let outcome = state.handle_navigation_bridge(&url);
    assert!(outcome.intercepted && outcome.event.is_none());
    let (_, level, message) = last_log(&state);
    assert_eq!(
        (level.as_str(), message.as_str()),
        ("warn", "알 수 없는 네비게이션 브리지 이벤트: dance")
    );
}
