use button_automation::command::{
    ensure_target, Action, AfterOpen, Command, Stage, Step, CLICK_SCRIPT,
};
use button_automation::event::BridgeEvent;
use button_automation::page::SelectedElement;
use button_automation::runtime::{ClientState, RuntimeState, MAX_LOGS};
use button_automation::target::TargetAction;

const NEEDS_TARGET: &str = "먼저 대상 URL을 열어주세요.";
const NEEDS_SELECTION: &str = "먼저 인스펙터로 버튼을 선택하세요.";

fn picked() -> RuntimeState {
    let mut state = RuntimeState::default();
    state.apply_bridge_event_at(
        0,
        BridgeEvent {
            event_type: "selected".to_string(),
            level: None,
            message: None,
            selected: Some(SelectedElement {
                tag: "a".to_string(),
                selector: "a".to_string(),
                text: String::new(),
                role: None,
                name: "link".to_string(),
                fingerprint: "a||".to_string(),
            }),
            snapshot: None,
        },
    );
    state
}

fn shown(step: Step) -> ClientState {
    match step {
        Step::Finish(Ok(client)) => client,
        other => panic!("{other:?}"),
    }
}

fn refused(step: Step) -> String {
    match step {
        Step::Finish(Err(error)) => error,
        other => panic!("{other:?}"),
    }
}

fn tells(step: Step) -> Stage {
    match step {
        Step::Perform(Action::Inject, stage) => stage,
        other => panic!("{other:?}"),
    }
}

fn messages(state: &RuntimeState) -> Vec<String> {
    state.client_state().logs.into_iter().map(|entry| entry.message).collect()
}

#[test]
fn the_state_is_shown() {
    let client = RuntimeState::default().client_state();
    assert_eq!(client.target_url, None);
    assert_eq!(client.interval_ms, 500);
    assert!(!client.running && !client.inspector_enabled);
    assert!(client.selected.is_none() && client.snapshot.is_none() && client.logs.is_empty());
}

#[test]
fn the_bridge_is_noted() {
    let mut state = RuntimeState::default();
    state.bridge_started_at(9, 4321);
    assert_eq!(messages(&state), ["로컬 브리지 시작: 127.0.0.1:4321"]);
    assert_eq!(state.client_state().interval_ms, 5_000);
    assert_eq!(state.client_state().logs[0].ts, 9);
    state.bridge_started(80);
    state.connection_failed("reset");
    assert_eq!(messages(&state)[2], "브리지 연결 오류: reset");
    assert_eq!(state.client_state().logs[2].level, "error");
}

#[test]
fn clicking_needs_a_page_and_a_selection() {
    assert_eq!(ensure_target(false), Err(NEEDS_TARGET.to_string()));
    assert_eq!(ensure_target(true), Ok(()));
    let mut state = RuntimeState::default();
    for command in [Command::StartAutomation(1_000), Command::ClickOnce] {
        assert_eq!(refused(state.begin(command, false)), NEEDS_TARGET);
    }
    for command in [Command::StartAutomation(1_000), Command::ClickOnce] {
        assert_eq!(refused(state.begin(command, true)), NEEDS_SELECTION);
    }
    let mut state_with_selection = picked();
    assert_eq!(
        refused(state_with_selection.begin(Command::StartAutomation(1_000), false)),
        NEEDS_TARGET
    );
    assert!(messages(&state).is_empty());
    assert!(!state.client_state().running);
}

#[test]
fn clicking_is_started_and_stopped() {
    let mut state = picked();
    let stage = tells(state.begin_at(3, Command::StartAutomation(1_200), true));
    let client = shown(state.resume_at(4, stage, Ok(()), true));
    assert!(client.running && !client.inspector_enabled);
    assert_eq!(client.interval_ms, 1_200);
    let entry = client.logs.last().unwrap();
    assert_eq!(
        (entry.ts, entry.level.as_str(), entry.message.as_str()),
        (3, "success", "자동 클릭 시작: 1200ms 주기")
    );
    let stage = tells(state.begin(Command::StopAutomation, false));
    let client = shown(state.resume(stage, Ok(()), false));
    assert!(!client.running && !client.inspector_enabled);
    assert_eq!(client.interval_ms, 1_200);
    assert_eq!(client.logs.last().unwrap().message, "자동화 정지");
}

#[test]
fn the_interval_has_a_floor() {
    let mut state = picked();
    tells(state.begin(Command::StartAutomation(0), true));
    assert_eq!(state.client_state().interval_ms, 500);
    assert_eq!(messages(&state)[1], "자동 클릭 시작: 500ms 주기");
    tells(state.begin(Command::SetInterval(499), true));
    assert_eq!(state.client_state().interval_ms, 500);
    tells(state.begin(Command::SetInterval(501), false));
    assert_eq!(state.client_state().interval_ms, 501);
    assert_eq!(messages(&state)[3], "클릭 주기 변경: 501ms");
    assert!(state.client_state().running);
}

#[test]
fn picking_excludes_clicking() {
    let mut state = picked();
    tells(state.begin(Command::StartAutomation(1_000), true));
    let stage = tells(state.begin(Command::SetInspector(true), true));
    assert!(matches!(stage, Stage::Injecting));
    let client = state.client_state();
    assert!(client.inspector_enabled && !client.running);
    assert_eq!(
        messages(&state)[2],
        "인스펙터 시작: 대상 웹뷰에서 버튼 위로 마우스를 올리고 클릭하세요."
    );
    tells(state.begin(Command::StartAutomation(1_000), true));
    let client = state.client_state();
    assert!(!client.inspector_enabled && client.running);
    tells(state.begin(Command::SetInspector(false), true));
    assert_eq!(messages(&state)[4], "인스펙터 정지");
}

#[test]
fn picking_opens_the_default_page_first() {
    let mut state = RuntimeState::default();
    let stage = match state.begin(Command::SetInspector(true), false) {
        Step::Perform(Action::Target(TargetAction::Create(url)), stage) => {
            assert_eq!(url.as_str(), "https://www.google.com/");
            stage
        }
        other => panic!("{other:?}"),
    };
    assert!(matches!(stage, Stage::Opening(AfterOpen::Inspect(true))));
    assert!(!state.client_state().inspector_enabled);
    let stage = tells(state.resume(stage, Ok(()), true));
    assert!(matches!(stage, Stage::Configuring(AfterOpen::Inspect(true))));
    assert!(!state.client_state().inspector_enabled);
    let stage = tells(state.resume(stage, Ok(()), true));
    assert!(matches!(stage, Stage::Injecting));
    let client = shown(state.resume(stage, Ok(()), true));
    assert!(client.inspector_enabled);
    assert_eq!(client.logs[0].message, "대상 웹뷰 열기: https://www.google.com/");
}

#[test]
fn opening_forgets_what_was_picked() {
    let mut state = picked();
    tells(state.begin(Command::StartAutomation(1_000), true));
    let stage = match state.begin(Command::OpenTarget(Some(" example.com/a b ".to_string())), true) {
        Step::Perform(Action::Target(TargetAction::Navigate(script)), stage) => {
            assert_eq!(script, "window.location.href = \"https://example.com/a%20b\";");
            stage
        }
        other => panic!("{other:?}"),
    };
    let stage = tells(state.resume(stage, Ok(()), true));
    let client = shown(state.resume(stage, Ok(()), true));
    assert_eq!(client.target_url.as_deref(), Some("https://example.com/a%20b"));
    assert!(client.selected.is_none() && client.snapshot.is_none() && !client.running);
}

#[test]
fn a_refused_url_changes_nothing() {
    let mut state = picked();
    tells(state.begin(Command::StartAutomation(1_000), true));
    let before = messages(&state);
    assert_eq!(
        refused(state.begin(Command::OpenTarget(Some("http://".to_string())), true)),
        "URL 형식이 올바르지 않습니다: empty host"
    );
    let client = state.client_state();
    assert!(client.running && client.selected.is_some() && client.target_url.is_none());
    assert_eq!(messages(&state), before);
}

#[test]
fn failed_work_ends_a_command() {
    let mut state = picked();
    for stage in [
        Stage::Opening(AfterOpen::Finish),
        Stage::Configuring(AfterOpen::Inspect(true)),
        Stage::Injecting,
        Stage::PreparingClick,
        Stage::Clicking,
    ] {
        assert_eq!(refused(state.resume(stage, Err("lost".to_string()), true)), "lost");
    }
    assert_eq!(messages(&state).len(), 1);
}

#[test]
fn one_click_is_prepared_made_and_logged() {
    let mut state = picked();
    let stage = tells(state.begin(Command::ClickOnce, true));
    assert!(matches!(stage, Stage::PreparingClick));
    assert_eq!(refused(state.resume(stage, Ok(()), false)), "대상 웹뷰를 찾을 수 없습니다.");
    let stage = match state.resume(stage, Ok(()), true) {
        Step::Perform(Action::Click, stage) => stage,
        other => panic!("{other:?}"),
    };
    assert_eq!(messages(&state).len(), 1);
    let client = shown(state.resume(stage, Ok(()), true));
    assert_eq!(client.logs.last().unwrap().message, "1회 클릭 요청");
    assert_eq!(
        CLICK_SCRIPT,
        "window.__buttonAutomation && window.__buttonAutomation.clickOnce();"
    );
}

#[test]
fn the_log_keeps_the_newest_entries_under_increasing_ids() {
    let mut state = RuntimeState::default();
    for n in 1..=MAX_LOGS + 3 {
        assert!(state.can_log());
        state.push_log_at(n as u64, "info".to_string(), format!("entry {n}"));
    }
    let logs = state.client_state().logs;
    assert_eq!(logs.len(), MAX_LOGS);
    assert_eq!((logs[0].id, logs[0].message.as_str()), (4, "entry 4"));
    assert!(logs.windows(2).all(|pair| pair[0].id + 1 == pair[1].id));
    state.clear_logs();
    assert!(state.client_state().logs.is_empty());
    state.push_log("warn".to_string(), "again".to_string());
    let logs = state.client_state().logs;
    assert_eq!((logs.len(), logs[0].id), (1, MAX_LOGS as u64 + 4));
    assert!(logs[0].ts > 1_600_000_000_000);
}

#[test]
fn a_button_is_picked_and_clicked() {
    let mut state = RuntimeState::default();
    state.bridge_started(4321);
    let stage = match state.begin(Command::OpenTarget(None), false) {
        Step::Perform(Action::Target(TargetAction::Create(_)), stage) => stage,
        other => panic!("{other:?}"),
    };
    let stage = tells(state.resume(stage, Ok(()), true));
    assert_eq!(
        shown(state.resume(stage, Ok(()), true)).target_url.as_deref(),
        Some("https://www.google.com/")
    );
    let stage = tells(state.begin(Command::SetInspector(true), true));
    assert!(shown(state.resume(stage, Ok(()), true)).inspector_enabled);
    let event = BridgeEvent {
        event_type: "selected".to_string(),
        level: None,
        message: None,
        selected: picked().client_state().selected,
        snapshot: None,
    };
    state.apply_bridge_event(event);
    let stage = tells(state.begin(Command::StartAutomation(2_000), true));
    let client = shown(state.resume(stage, Ok(()), true));
    assert!(client.running && !client.inspector_enabled);
    let config = state.controller_config(true).unwrap();
    assert!(config.running);
    assert_eq!((config.interval_ms, config.selected.unwrap().name.as_str()), (2_000, "link"));
}
