//! The commands of the control window.
//!
//! A command alternates between changes of the state and work on the target page. [`begin`]
//! and [`resume`] decide: they change the state and say what is to be done next, and the caller
//! does it and comes back with the outcome.
//!
//! [`begin`]: RuntimeState::begin
//! [`resume`]: RuntimeState::resume
use crate::clock;
use crate::page;
use crate::runtime;
use crate::runtime::{clamp_interval, ClientState, RuntimeState, RuntimeView, DEFAULT_INTERVAL_MS};
use crate::target;
use crate::target::TargetAction;
use crate::text;
use vstd::prelude::*;

verus! {

/// The script that has the controller click once.
pub const CLICK_SCRIPT: &'static str = "window.__buttonAutomation && window.__buttonAutomation.clickOnce();";

/// A command of the control window.
#[derive(Debug)]
pub enum Command {
    /// Open the target page, at what the user entered or at the default.
    OpenTarget(Option<String>),
    /// Start or stop picking an element.
    SetInspector(bool),
    /// Start clicking, with the given interval in milliseconds.
    StartAutomation(u64),
    /// Stop clicking and picking.
    StopAutomation,
    /// Change the interval, in milliseconds.
    SetInterval(u64),
    /// Click once.
    ClickOnce,
}

/// The contents of a [`Command`].
pub ghost enum CommandView {
    OpenTarget(Option<Seq<char>>),
    SetInspector(bool),
    StartAutomation(u64),
    StopAutomation,
    SetInterval(u64),
    ClickOnce,
}

impl View for Command {
    type V = CommandView;

    open spec fn view(&self) -> CommandView {
        match self {
            Command::OpenTarget(url) => CommandView::OpenTarget(page::text_of(*url)),
            Command::SetInspector(enabled) => CommandView::SetInspector(*enabled),
            Command::StartAutomation(interval_ms) => CommandView::StartAutomation(*interval_ms),
            Command::StopAutomation => CommandView::StopAutomation,
            Command::SetInterval(interval_ms) => CommandView::SetInterval(*interval_ms),
            Command::ClickOnce => CommandView::ClickOnce,
        }
    }
}

/// Work on the target page.
#[derive(Debug)]
pub enum Action {
    /// Bring the page to a URL.
    Target(TargetAction),
    /// Tell the controller its configuration, where there is one to tell.
    Inject,
    /// Run [`CLICK_SCRIPT`] in the page.
    Click,
}

/// The contents of an [`Action`].
pub ghost enum ActionView {
    Target(target::TargetActionView),
    Inject,
    Click,
}

impl View for Action {
    type V = ActionView;

    open spec fn view(&self) -> ActionView {
        match self {
            Action::Target(action) => ActionView::Target(action@),
            Action::Inject => ActionView::Inject,
            Action::Click => ActionView::Click,
        }
    }
}

/// What a command does once the target page is open.
#[derive(Clone, Copy, Debug)]
pub enum AfterOpen {
    /// It is finished.
    Finish,
    /// It starts or stops picking an element.
    Inspect(bool),
}

/// How far a command has come.
#[derive(Clone, Copy, Debug)]
pub enum Stage {
    /// The page is being brought to a URL.
    Opening(AfterOpen),
    /// The controller of a page that was opened is being told its configuration.
    Configuring(AfterOpen),
    /// The controller is being told the state that the command has brought about.
    Injecting,
    /// The controller is being told its configuration before it clicks.
    PreparingClick,
    /// The controller is being told to click.
    Clicking,
}

/// The next step of a command.
#[derive(Debug)]
pub enum Step {
    /// Do the work, and resume at the stage.
    Perform(Action, Stage),
    /// The command is finished, with the state to show or with an error.
    Finish(Result<ClientState, String>),
}

/// The contents of a [`Step`].
pub ghost enum StepView {
    Perform(ActionView, Stage),
    Finish(Result<runtime::ClientView, Seq<char>>),
}

impl View for Step {
    type V = StepView;

    open spec fn view(&self) -> StepView {
        match self {
            Step::Perform(action, stage) => StepView::Perform(action@, *stage),
            Step::Finish(Ok(client)) => StepView::Finish(Ok(client@)),
            Step::Finish(Err(error)) => StepView::Finish(Err(error@)),
        }
    }
}

/// The outcome of work on the target page.
pub open spec fn outcome_of(outcome: Result<(), String>) -> Result<(), Seq<char>> {
    match outcome {
        Ok(_) => Ok(()),
        Err(error) => Err(error@),
    }
}

/// What a command is told that needs the target page, by whether the page is open.
pub open spec fn target_required(target_open: bool) -> Result<(), Seq<char>> {
    if target_open {
        Ok(())
    } else {
        Err("먼저 대상 URL을 열어주세요."@)
    }
}

impl RuntimeView {
    /// The state once the bridge is open on `port`.
    pub open spec fn bridged(self, ts: u64, port: u16) -> RuntimeView {
        (RuntimeView { bridge_port: port, interval_ms: DEFAULT_INTERVAL_MS, ..self }).logged(
            ts,
            "info"@,
            "로컬 브리지 시작: 127.0.0.1:"@ + text::decimal(port as nat),
        )
    }

    /// The state once a connection to the bridge has failed.
    pub open spec fn disconnected(self, ts: u64, error: Seq<char>) -> RuntimeView {
        self.logged(ts, "error"@, "브리지 연결 오류: "@ + error)
    }

    /// The state once picking is started or stopped.
    pub open spec fn inspecting(self, ts: u64, enabled: bool) -> RuntimeView {
        (RuntimeView { inspector_enabled: enabled, running: false, ..self }).logged(
            ts,
            "info"@,
            if enabled {
                "인스펙터 시작: 대상 웹뷰에서 버튼 위로 마우스를 올리고 클릭하세요."@
            } else {
                "인스펙터 정지"@
            },
        )
    }

    /// The state once clicking is started.
    pub open spec fn automating(self, ts: u64, interval_ms: u64) -> RuntimeView {
        let interval = runtime::effective_interval(interval_ms);
        (RuntimeView { interval_ms: interval, running: true, inspector_enabled: false, ..self }).logged(
            ts,
            "success"@,
            "자동 클릭 시작: "@ + text::decimal(interval as nat) + "ms 주기"@,
        )
    }

    /// The state once clicking and picking are stopped.
    pub open spec fn stopped(self, ts: u64) -> RuntimeView {
        (RuntimeView { running: false, inspector_enabled: false, ..self }).logged(
            ts,
            "info"@,
            "자동화 정지"@,
        )
    }

    /// The state once the interval is changed.
    pub open spec fn paced(self, ts: u64, interval_ms: u64) -> RuntimeView {
        let interval = runtime::effective_interval(interval_ms);
        (RuntimeView { interval_ms: interval, ..self }).logged(
            ts,
            "info"@,
            "클릭 주기 변경: "@ + text::decimal(interval as nat) + "ms"@,
        )
    }

    /// What a command is told that needs the target page and a picked element.
    pub open spec fn selection_required(self, target_open: bool) -> Result<(), Seq<char>> {
        match target_required(target_open) {
            Err(error) => Err(error),
            Ok(_) => if self.selected is None {
                Err("먼저 인스펙터로 버튼을 선택하세요."@)
            } else {
                Ok(())
            },
        }
    }

    /// The state after opening the target page, and the next step.
    pub open spec fn opening(
        self,
        ts: u64,
        input: Option<Seq<char>>,
        target_open: bool,
        after: AfterOpen,
    ) -> (RuntimeView, StepView) {
        let (state, action) = self.after_open(ts, input, target_open);
        match action {
            Ok(action) => (
                state,
                StepView::Perform(ActionView::Target(action), Stage::Opening(after)),
            ),
            Err(error) => (state, StepView::Finish(Err(error))),
        }
    }

    /// The state after the first step of a command, and what is to be done next.
    pub open spec fn begun(self, ts: u64, command: CommandView, target_open: bool) -> (
        RuntimeView,
        StepView,
    ) {
        let tell = StepView::Perform(ActionView::Inject, Stage::Injecting);
        match command {
            CommandView::OpenTarget(input) => self.opening(
                ts,
                input,
                target_open,
                AfterOpen::Finish,
            ),
            CommandView::SetInspector(enabled) => if target_open {
                (self.inspecting(ts, enabled), tell)
            } else {
                self.opening(ts, None, target_open, AfterOpen::Inspect(enabled))
            },
            CommandView::StartAutomation(interval_ms) => match self.selection_required(
                target_open,
            ) {
                Ok(_) => (self.automating(ts, interval_ms), tell),
                Err(error) => (self, StepView::Finish(Err(error))),
            },
            CommandView::StopAutomation => (self.stopped(ts), tell),
            CommandView::SetInterval(interval_ms) => (self.paced(ts, interval_ms), tell),
            CommandView::ClickOnce => match self.selection_required(target_open) {
                Ok(_) => (self, StepView::Perform(ActionView::Inject, Stage::PreparingClick)),
                Err(error) => (self, StepView::Finish(Err(error))),
            },
        }
    }

    /// The state after a further step of a command, and what is to be done next.
    pub open spec fn resumed(
        self,
        ts: u64,
        stage: Stage,
        outcome: Result<(), Seq<char>>,
        target_open: bool,
    ) -> (RuntimeView, StepView) {
        match outcome {
            Err(error) => (self, StepView::Finish(Err(error))),
            Ok(_) => match stage {
                Stage::Opening(after) => (
                    self,
                    StepView::Perform(ActionView::Inject, Stage::Configuring(after)),
                ),
                Stage::Configuring(AfterOpen::Finish) => (
                    self,
                    StepView::Finish(Ok(self.client())),
                ),
                Stage::Configuring(AfterOpen::Inspect(enabled)) => (
                    self.inspecting(ts, enabled),
                    StepView::Perform(ActionView::Inject, Stage::Injecting),
                ),
                Stage::Injecting => (self, StepView::Finish(Ok(self.client()))),
                Stage::PreparingClick => if target_open {
                    (self, StepView::Perform(ActionView::Click, Stage::Clicking))
                } else {
                    (self, StepView::Finish(Err("대상 웹뷰를 찾을 수 없습니다."@)))
                },
                Stage::Clicking => {
                    let state = self.logged(ts, "info"@, "1회 클릭 요청"@);
                    (state, StepView::Finish(Ok(state.client())))
                },
            },
        }
    }
}

/// What a command is told that needs the target page, by whether the page is open.
pub fn ensure_target(target_open: bool) -> (r: Result<(), String>)
    ensures
        outcome_of(r) == target_required(target_open),
{
    if target_open {
        Ok(())
    } else {
        Err("먼저 대상 URL을 열어주세요.".to_string())
    }
}

impl RuntimeState {
    /// Notes that the bridge is open on `port`.
    pub fn bridge_started(&mut self, port: u16)
        requires
            old(self).wf(),
            old(self)@.next_log_id < u64::MAX,
        ensures
            final(self).wf(),
            exists|ts: u64|
                clock::is_reading(ts)
                    && final(self)@ == #[trigger] old(self)@.bridged(ts, port),
    {
        let ts = clock::now_ms();
        self.bridge_started_at(ts, port);
        assert(self@ == old(self)@.bridged(ts, port));
    }

    /// Notes at the time `ts` that the bridge is open on `port`.
    pub fn bridge_started_at(&mut self, ts: u64, port: u16)
        requires
            old(self).wf(),
            old(self)@.next_log_id < u64::MAX,
        ensures
            final(self).wf(),
            final(self)@ == old(self)@.bridged(ts, port),
    {
        self.bridge_port = port;
        self.interval_ms = DEFAULT_INTERVAL_MS;
        let mut message = "로컬 브리지 시작: 127.0.0.1:".to_string();
        text::push_decimal(&mut message, port as u64);
        self.push_log_at(ts, "info".to_string(), message);
    }

    /// Logs that a connection to the bridge failed.
    pub fn connection_failed(&mut self, error: &str)
        requires
            old(self).wf(),
            old(self)@.next_log_id < u64::MAX,
        ensures
            final(self).wf(),
            exists|ts: u64|
                clock::is_reading(ts)
                    && final(self)@ == #[trigger] old(self)@.logged(
                    ts,
                    "error"@,
                    "브리지 연결 오류: "@ + error@,
                ),
            exists|ts: u64|
                clock::is_reading(ts)
                    && final(self)@ == #[trigger] old(self)@.disconnected(ts, error@),
    {
        let message = "브리지 연결 오류: ".to_string().concat(error);
        self.push_log("error".to_string(), message);
        proof {
            let ts = choose|ts: u64|
                clock::is_reading(ts)
                    && self@ == #[trigger] old(self)@.logged(
                    ts,
                    "error"@,
                    "브리지 연결 오류: "@ + error@,
                );
            assert(self@ == old(self)@.disconnected(ts, error@));
        }
    }

    /// Starts or stops picking an element, at the time `ts`.
    pub fn set_inspector(&mut self, ts: u64, enabled: bool)
        requires
            old(self).wf(),
            old(self)@.next_log_id < u64::MAX,
        ensures
            final(self).wf(),
            final(self)@ == old(self)@.inspecting(ts, enabled),
    {
        self.inspector_enabled = enabled;
        self.running = false;
        let message = if enabled {
            "인스펙터 시작: 대상 웹뷰에서 버튼 위로 마우스를 올리고 클릭하세요."
        } else {
            "인스펙터 정지"
        };
        self.push_log_at(ts, "info".to_string(), message.to_string());
    }

    /// What a command is told that needs the target page and a picked element.
    pub fn require_selection(&self, target_open: bool) -> (r: Result<(), String>)
        ensures
            outcome_of(r) == self@.selection_required(target_open),
    {
        match ensure_target(target_open) {
            Err(error) => Err(error),
            Ok(_) => if self.selected.is_none() {
                Err("먼저 인스펙터로 버튼을 선택하세요.".to_string())
            } else {
                Ok(())
            },
        }
    }

    /// Starts clicking, at the time `ts`; refused where the target page is not open or nothing is
    /// picked.
    pub fn start_automation(&mut self, ts: u64, interval_ms: u64, target_open: bool) -> (r: Result<
        (),
        String,
    >)
        requires
            old(self).wf(),
            old(self)@.next_log_id < u64::MAX,
        ensures
            final(self).wf(),
            outcome_of(r) == old(self)@.selection_required(target_open),
            final(self)@ == (if r is Ok {
                old(self)@.automating(ts, interval_ms)
            } else {
                old(self)@
            }),
    {
        match self.require_selection(target_open) {
            Err(error) => Err(error),
            Ok(_) => {
                let interval = clamp_interval(interval_ms);
                self.interval_ms = interval;
                self.running = true;
                self.inspector_enabled = false;
                let mut message = "자동 클릭 시작: ".to_string();
                text::push_decimal(&mut message, interval);
                message.append("ms 주기");
                self.push_log_at(ts, "success".to_string(), message);
                Ok(())
            },
        }
    }

    /// Stops clicking and picking, at the time `ts`.
    pub fn stop_automation(&mut self, ts: u64)
        requires
            old(self).wf(),
            old(self)@.next_log_id < u64::MAX,
        ensures
            final(self).wf(),
            final(self)@ == old(self)@.stopped(ts),
    {
        self.running = false;
        self.inspector_enabled = false;
        self.push_log_at(ts, "info".to_string(), "자동화 정지".to_string());
    }

    /// Changes the interval, at the time `ts`.
    pub fn set_interval(&mut self, ts: u64, interval_ms: u64)
        requires
            old(self).wf(),
            old(self)@.next_log_id < u64::MAX,
        ensures
            final(self).wf(),
            final(self)@ == old(self)@.paced(ts, interval_ms),
    {
        let interval = clamp_interval(interval_ms);
        self.interval_ms = interval;
        let mut message = "클릭 주기 변경: ".to_string();
        text::push_decimal(&mut message, interval);
        message.append("ms");
        self.push_log_at(ts, "info".to_string(), message);
    }

    /// Empties the log.
    pub fn clear_logs(&mut self)
        requires
            old(self).wf(),
        ensures
            final(self).wf(),
            final(self)@ == (RuntimeView { logs: Seq::empty(), ..old(self)@ }),
            final(self)@ == old(self)@.cleared(),
    {
        self.logs.clear();
        assert(self@.logs =~= Seq::empty());
    }

    /// Opens the target page at the time `ts`, as the first step of a command.
    fn open(&mut self, ts: u64, input: Option<&str>, target_open: bool, after: AfterOpen) -> (step:
        Step)
        requires
            old(self).wf(),
            old(self)@.next_log_id < u64::MAX,
        ensures
            final(self).wf(),
            (final(self)@, step@) == old(self)@.opening(
                ts,
                target::str_of(input),
                target_open,
                after,
            ),
    {
        match self.open_target_url(ts, input, target_open) {
            Ok(action) => Step::Perform(Action::Target(action), Stage::Opening(after)),
            Err(error) => Step::Finish(Err(error)),
        }
    }

    /// The first step of a command. `target_open` says whether the target page is open.
    pub fn begin(&mut self, command: Command, target_open: bool) -> (step: Step)
        requires
            old(self).wf(),
            old(self)@.next_log_id < u64::MAX,
        ensures
            final(self).wf(),
            exists|ts: u64|
                clock::is_reading(ts)
                    && (final(self)@, step@) == #[trigger] old(self)@.begun(ts, command@, target_open),
    {
        let ts = clock::now_ms();
        let step = self.begin_at(ts, command, target_open);
        assert((self@, step@) == old(self)@.begun(ts, command@, target_open));
        step
    }

    /// The first step of a command, at the time `ts`.
    pub fn begin_at(&mut self, ts: u64, command: Command, target_open: bool) -> (step: Step)
        requires
            old(self).wf(),
            old(self)@.next_log_id < u64::MAX,
        ensures
            final(self).wf(),
            (final(self)@, step@) == old(self)@.begun(ts, command@, target_open),
    {
        match command {
            Command::OpenTarget(input) => match input {
                Some(url) => self.open(ts, Some(url.as_str()), target_open, AfterOpen::Finish),
                None => self.open(ts, None, target_open, AfterOpen::Finish),
            },
            Command::SetInspector(enabled) => {
                if target_open {
                    self.set_inspector(ts, enabled);
                    Step::Perform(Action::Inject, Stage::Injecting)
                } else {
                    self.open(ts, None, target_open, AfterOpen::Inspect(enabled))
                }
            },
            Command::StartAutomation(interval_ms) => match self.start_automation(
                ts,
                interval_ms,
                target_open,
            ) {
                Ok(_) => Step::Perform(Action::Inject, Stage::Injecting),
                Err(error) => Step::Finish(Err(error)),
            },
            Command::StopAutomation => {
                self.stop_automation(ts);
                Step::Perform(Action::Inject, Stage::Injecting)
            },
            Command::SetInterval(interval_ms) => {
                self.set_interval(ts, interval_ms);
                Step::Perform(Action::Inject, Stage::Injecting)
            },
            Command::ClickOnce => match self.require_selection(target_open) {
                Ok(_) => Step::Perform(Action::Inject, Stage::PreparingClick),
                Err(error) => Step::Finish(Err(error)),
            },
        }
    }

    /// A further step of a command: the work that was to be done has had the given outcome.
    pub fn resume(&mut self, stage: Stage, outcome: Result<(), String>, target_open: bool) -> (step:
        Step)
        requires
            old(self).wf(),
            old(self)@.next_log_id < u64::MAX,
        ensures
            final(self).wf(),
            exists|ts: u64|
                clock::is_reading(ts)
                    && (final(self)@, step@) == #[trigger] old(self)@.resumed(
                    ts,
                    stage,
                    outcome_of(outcome),
                    target_open,
                ),
    {
        let ts = clock::now_ms();
        let step = self.resume_at(ts, stage, outcome, target_open);
        assert((self@, step@) == old(self)@.resumed(ts, stage, outcome_of(outcome), target_open));
        step
    }

    /// A further step of a command, at the time `ts`.
    pub fn resume_at(
        &mut self,
        ts: u64,
        stage: Stage,
        outcome: Result<(), String>,
        target_open: bool,
    ) -> (step: Step)
        requires
            old(self).wf(),
            old(self)@.next_log_id < u64::MAX,
        ensures
            final(self).wf(),
            (final(self)@, step@) == old(self)@.resumed(
                ts,
                stage,
                outcome_of(outcome),
                target_open,
            ),
    {
        if let Err(error) = outcome {
            return Step::Finish(Err(error));
        }
        match stage {
            Stage::Opening(after) => Step::Perform(Action::Inject, Stage::Configuring(after)),
            Stage::Configuring(after) => match after {
                AfterOpen::Finish => Step::Finish(Ok(self.client_state())),
                AfterOpen::Inspect(enabled) => {
                    self.set_inspector(ts, enabled);
                    Step::Perform(Action::Inject, Stage::Injecting)
                },
            },
            Stage::Injecting => Step::Finish(Ok(self.client_state())),
            Stage::PreparingClick => if target_open {
                Step::Perform(Action::Click, Stage::Clicking)
            } else {
                Step::Finish(Err("대상 웹뷰를 찾을 수 없습니다.".to_string()))
            },
            Stage::Clicking => {
                self.push_log_at(ts, "info".to_string(), "1회 클릭 요청".to_string());
                Step::Finish(Ok(self.client_state()))
            },
        }
    }
}

/// Clicking is refused where the target page is not open or nothing is picked, and then nothing
/// changes.
pub proof fn law_clicking_needs_page_and_selection(
    state: RuntimeView,
    ts: u64,
    command: CommandView,
    target_open: bool,
)
    requires
        command is StartAutomation || command is ClickOnce,
    ensures
        state.begun(ts, command, target_open).1 is Finish <==> (!target_open || state.selected is None),
        state.begun(ts, command, target_open).1 matches StepView::Finish(r) ==> r is Err
            && state.begun(ts, command, target_open).0 == state,
{
}

/// Nothing but the command to start clicking starts clicking.
pub proof fn law_only_start_starts_clicking(
    state: RuntimeView,
    ts: u64,
    command: CommandView,
    stage: Stage,
    outcome: Result<(), Seq<char>>,
    target_open: bool,
)
    ensures
        state.begun(ts, command, target_open).0.running ==> state.running || command is
            StartAutomation,
        state.resumed(ts, stage, outcome, target_open).0.running ==> state.running,
{
}

/// Work that fails ends its command with the error, and changes nothing.
pub proof fn law_failed_work_ends_the_command(
    state: RuntimeView,
    ts: u64,
    stage: Stage,
    error: Seq<char>,
    target_open: bool,
)
    ensures
        state.resumed(ts, stage, Err(error), target_open) == (state, StepView::Finish(Err(error))),
{
}

/// A command that succeeds shows the state as it then is.
pub proof fn law_success_shows_the_state(
    state: RuntimeView,
    ts: u64,
    command: CommandView,
    stage: Stage,
    outcome: Result<(), Seq<char>>,
    target_open: bool,
)
    ensures
        ({
            let (after, step) = state.begun(ts, command, target_open);
            step matches StepView::Finish(Ok(client)) ==> client == after.client()
        }),
        ({
            let (after, step) = state.resumed(ts, stage, outcome, target_open);
            step matches StepView::Finish(Ok(client)) ==> client == after.client()
        }),
{
}

/// A command that changes what the controller is told does not succeed before it is told: its
/// next work is to open the page, which is followed by telling the controller, or to tell it.
pub proof fn law_changes_reach_the_controller(
    state: RuntimeView,
    ts: u64,
    command: CommandView,
    stage: Stage,
    outcome: Result<(), Seq<char>>,
    target_open: bool,
)
    ensures
        ({
            let (after, step) = state.begun(ts, command, target_open);
            after.controller(true) != state.controller(true) ==> {
                ||| step == StepView::Perform(ActionView::Inject, Stage::Injecting)
                ||| step matches StepView::Perform(ActionView::Target(_), Stage::Opening(_))
                ||| step matches StepView::Finish(Err(_))
            }
        }),
        ({
            let (after, step) = state.resumed(ts, stage, outcome, target_open);
            after.controller(true) != state.controller(true) ==> step == StepView::Perform(
                ActionView::Inject,
                Stage::Injecting,
            )
        }),
        stage is Opening && outcome is Ok ==> {
            &&& state.resumed(ts, stage, outcome, target_open).1 matches StepView::Perform(
                ActionView::Inject,
                next,
            )
            &&& next is Configuring
        },
{
}

/// How many pieces of work a command has before it at most, the one at hand included.
pub open spec fn work_left(step: StepView) -> nat {
    match step {
        StepView::Finish(_) => 0,
        StepView::Perform(_, stage) => match stage {
            Stage::Opening(_) => 3,
            Stage::Configuring(_) => 2,
            Stage::Injecting => 1,
            Stage::PreparingClick => 2,
            Stage::Clicking => 1,
        },
    }
}

/// Every command comes to an end: each step leaves less work than the one before.
pub proof fn law_commands_end(
    state: RuntimeView,
    ts: u64,
    action: ActionView,
    stage: Stage,
    outcome: Result<(), Seq<char>>,
    target_open: bool,
)
    ensures
        work_left(state.resumed(ts, stage, outcome, target_open).1) < work_left(
            StepView::Perform(action, stage),
        ),
{
}

/// Starting and stopping: after a start the page is clicked at the interval that was asked for, or
/// the shortest one; after a stop neither clicking nor picking is on.
pub proof fn law_start_and_stop(state: RuntimeView, ts: u64, interval_ms: u64)
    ensures
        ({
            let started = state.automating(ts, interval_ms);
            &&& started.client().running
            &&& !started.client().inspector_enabled
            &&& started.client().interval_ms == runtime::effective_interval(interval_ms)
            &&& started.client().selected == state.selected
        }),
        ({
            let stopped = state.stopped(ts);
            &&& !stopped.client().running
            &&& !stopped.client().inspector_enabled
            &&& stopped.client().interval_ms == state.client().interval_ms
            &&& stopped.client().selected == state.selected
        }),
{
}

/// The bridge is noted with its port, the interval starts at five seconds, the log names the port,
/// and nothing else changes.
pub proof fn law_bridge_is_noted(state: RuntimeView, ts: u64, port: u16)
    requires
        state.logs.len() <= 500,
        state.next_log_id < u64::MAX,
    ensures
        ({
            let after = state.bridged(ts, port);
            &&& runtime::log_gains(
                state,
                after,
                ts,
                "info"@,
                "로컬 브리지 시작: 127.0.0.1:"@ + text::decimal(port as nat),
            )
            &&& after == RuntimeView {
                bridge_port: port,
                interval_ms: 5_000,
                logs: after.logs,
                next_log_id: after.next_log_id,
                ..state
            }
        }),
{
}

/// A connection that failed is logged as an error with the reason, and changes nothing else.
pub proof fn law_failed_connection_is_only_logged(state: RuntimeView, ts: u64, error: Seq<char>)
    requires
        state.logs.len() <= 500,
        state.next_log_id < u64::MAX,
    ensures
        ({
            let after = state.disconnected(ts, error);
            &&& runtime::log_gains(state, after, ts, "error"@, "브리지 연결 오류: "@ + error)
            &&& after == RuntimeView {
                logs: after.logs,
                next_log_id: after.next_log_id,
                ..state
            }
        }),
{
}

/// Picking is on or off as was asked for, whatever it was before; clicking ends, it is logged, and
/// nothing else changes.
pub proof fn law_inspector_is_as_asked_for(state: RuntimeView, ts: u64, enabled: bool)
    requires
        state.logs.len() <= 500,
        state.next_log_id < u64::MAX,
    ensures
        ({
            let after = state.inspecting(ts, enabled);
            &&& after.inspector_enabled == enabled
            &&& !after.running
            &&& enabled ==> runtime::log_gains(
                state,
                after,
                ts,
                "info"@,
                "인스펙터 시작: 대상 웹뷰에서 버튼 위로 마우스를 올리고 클릭하세요."@,
            )
            &&& !enabled ==> runtime::log_gains(state, after, ts, "info"@, "인스펙터 정지"@)
            &&& after == RuntimeView {
                inspector_enabled: after.inspector_enabled,
                running: after.running,
                logs: after.logs,
                next_log_id: after.next_log_id,
                ..state
            }
        }),
{
}

/// Starting has clicking on and picking off, at the interval asked for or the shortest one; it is
/// logged, and nothing else changes.
pub proof fn law_clicking_starts_as_asked_for(state: RuntimeView, ts: u64, interval_ms: u64)
    requires
        state.logs.len() <= 500,
        state.next_log_id < u64::MAX,
    ensures
        ({
            let after = state.automating(ts, interval_ms);
            let interval = if interval_ms < 500 {
                500
            } else {
                interval_ms
            };
            &&& after.running
            &&& !after.inspector_enabled
            &&& after.interval_ms == interval
            &&& runtime::log_gains(
                state,
                after,
                ts,
                "success"@,
                "자동 클릭 시작: "@ + text::decimal(interval as nat) + "ms 주기"@,
            )
            &&& after == RuntimeView {
                running: after.running,
                inspector_enabled: after.inspector_enabled,
                interval_ms: after.interval_ms,
                logs: after.logs,
                next_log_id: after.next_log_id,
                ..state
            }
        }),
{
}

/// Stopping has clicking and picking off, whatever was on; it is logged, and nothing else changes.
pub proof fn law_stop_stops_everything(state: RuntimeView, ts: u64)
    requires
        state.logs.len() <= 500,
        state.next_log_id < u64::MAX,
    ensures
        ({
            let after = state.stopped(ts);
            &&& !after.running
            &&& !after.inspector_enabled
            &&& runtime::log_gains(state, after, ts, "info"@, "자동화 정지"@)
            &&& after == RuntimeView {
                running: after.running,
                inspector_enabled: after.inspector_enabled,
                logs: after.logs,
                next_log_id: after.next_log_id,
                ..state
            }
        }),
{
}

/// Changing the interval sets it to the one asked for or the shortest one; it is logged, and
/// nothing else changes: what is running goes on.
pub proof fn law_interval_is_as_asked_for(state: RuntimeView, ts: u64, interval_ms: u64)
    requires
        state.logs.len() <= 500,
        state.next_log_id < u64::MAX,
    ensures
        ({
            let after = state.paced(ts, interval_ms);
            let interval = if interval_ms < 500 {
                500
            } else {
                interval_ms
            };
            &&& after.interval_ms == interval
            &&& runtime::log_gains(
                state,
                after,
                ts,
                "info"@,
                "클릭 주기 변경: "@ + text::decimal(interval as nat) + "ms"@,
            )
            &&& after == RuntimeView {
                interval_ms: after.interval_ms,
                logs: after.logs,
                next_log_id: after.next_log_id,
                ..state
            }
        }),
{
}

/// What a command is told that needs the page, and a picked element: first that the page is
/// missing, then that the element is, and otherwise nothing.
pub proof fn law_refusals_name_what_is_missing(state: RuntimeView, target_open: bool)
    ensures
        target_required(target_open) is Ok <==> target_open,
        !target_open ==> target_required(target_open) == Err::<(), Seq<char>>(
            "먼저 대상 URL을 열어주세요."@,
        ),
        state.selection_required(target_open) is Ok <==> target_open && state.selected is Some,
        !target_open ==> state.selection_required(target_open) == Err::<(), Seq<char>>(
            "먼저 대상 URL을 열어주세요."@,
        ),
        target_open && state.selected is None ==> state.selection_required(target_open) == Err::<
            (),
            Seq<char>,
        >("먼저 인스펙터로 버튼을 선택하세요."@),
{
}

/// The command to open the page brings it to what was entered; where that cannot be read, or no
/// window can be opened at it, the command ends with the reason.
pub proof fn law_open_command_opens_what_was_entered(
    state: RuntimeView,
    ts: u64,
    input: Option<Seq<char>>,
    target_open: bool,
)
    ensures
        ({
            let (after, step) = state.begun(ts, CommandView::OpenTarget(input), target_open);
            let (opened, action) = state.after_open(ts, input, target_open);
            &&& after == opened
            &&& action is Ok ==> step == StepView::Perform(
                ActionView::Target(action->Ok_0),
                Stage::Opening(AfterOpen::Finish),
            )
            &&& action is Err ==> step == StepView::Finish(Err(action->Err_0))
        }),
{
}

/// The command to start or stop picking does so at once where the page is open, and opens the
/// default page before where it is not.
pub proof fn law_inspector_command_sets_the_inspector(
    state: RuntimeView,
    ts: u64,
    enabled: bool,
    target_open: bool,
)
    ensures
        ({
            let (after, step) = state.begun(ts, CommandView::SetInspector(enabled), true);
            &&& after == state.inspecting(ts, enabled)
            &&& step == StepView::Perform(ActionView::Inject, Stage::Injecting)
        }),
        ({
            let (after, step) = state.begun(ts, CommandView::SetInspector(enabled), false);
            let (opened, action) = state.after_open(ts, None, false);
            &&& after == opened
            &&& action is Ok ==> step == StepView::Perform(
                ActionView::Target(action->Ok_0),
                Stage::Opening(AfterOpen::Inspect(enabled)),
            )
            &&& action is Err ==> step == StepView::Finish(Err(action->Err_0))
        }),
        ({
            let (after, step) = state.resumed(
                ts,
                Stage::Configuring(AfterOpen::Inspect(enabled)),
                Ok(()),
                target_open,
            );
            &&& after == state.inspecting(ts, enabled)
            &&& step == StepView::Perform(ActionView::Inject, Stage::Injecting)
        }),
{
}

/// The commands to start, to stop and to change the interval do so and then tell the controller;
/// a start that is refused ends with the reason and changes nothing.
pub proof fn law_automation_commands_do_what_they_say(
    state: RuntimeView,
    ts: u64,
    interval_ms: u64,
    target_open: bool,
)
    ensures
        ({
            let (after, step) = state.begun(
                ts,
                CommandView::StartAutomation(interval_ms),
                target_open,
            );
            if target_open && state.selected is Some {
                &&& after == state.automating(ts, interval_ms)
                &&& step == StepView::Perform(ActionView::Inject, Stage::Injecting)
            } else {
                &&& after == state
                &&& step == StepView::Finish(
                    Err(
                        if target_open {
                            "먼저 인스펙터로 버튼을 선택하세요."@
                        } else {
                            "먼저 대상 URL을 열어주세요."@
                        },
                    ),
                )
            }
        }),
        state.begun(ts, CommandView::StopAutomation, target_open) == (
            state.stopped(ts),
            StepView::Perform(ActionView::Inject, Stage::Injecting),
        ),
        state.begun(ts, CommandView::SetInterval(interval_ms), target_open) == (
            state.paced(ts, interval_ms),
            StepView::Perform(ActionView::Inject, Stage::Injecting),
        ),
{
}

/// The command to click once tells the controller its configuration, has it click, and logs it; it
/// ends with the reason where the page or the picked element is missing.
pub proof fn law_click_command_clicks_once(
    state: RuntimeView,
    ts: u64,
    target_open: bool,
)
    requires
        state.logs.len() <= 500,
        state.next_log_id < u64::MAX,
    ensures
        state.begun(ts, CommandView::ClickOnce, target_open) == (
            state,
            if target_open && state.selected is Some {
                StepView::Perform(ActionView::Inject, Stage::PreparingClick)
            } else if target_open {
                StepView::Finish(Err("먼저 인스펙터로 버튼을 선택하세요."@))
            } else {
                StepView::Finish(Err("먼저 대상 URL을 열어주세요."@))
            },
        ),
        state.resumed(ts, Stage::PreparingClick, Ok(()), target_open) == (
            state,
            if target_open {
                StepView::Perform(ActionView::Click, Stage::Clicking)
            } else {
                StepView::Finish(Err("대상 웹뷰를 찾을 수 없습니다."@))
            },
        ),
        ({
            let (after, step) = state.resumed(ts, Stage::Clicking, Ok(()), target_open);
            &&& runtime::log_gains(state, after, ts, "info"@, "1회 클릭 요청"@)
            &&& after == RuntimeView {
                logs: after.logs,
                next_log_id: after.next_log_id,
                ..state
            }
            &&& step == StepView::Finish(Ok(after.client()))
        }),
        CLICK_SCRIPT@
            == "window.__buttonAutomation && window.__buttonAutomation.clickOnce();"@,
{
}

/// A page that was opened is told its configuration, and once the controller has been told what a
/// command brought about, the command ends with the state as it is.
pub proof fn law_work_that_succeeds_goes_on(
    state: RuntimeView,
    ts: u64,
    after: AfterOpen,
    target_open: bool,
)
    ensures
        state.resumed(ts, Stage::Opening(after), Ok(()), target_open) == (
            state,
            StepView::Perform(ActionView::Inject, Stage::Configuring(after)),
        ),
        state.resumed(ts, Stage::Configuring(AfterOpen::Finish), Ok(()), target_open) == (
            state,
            StepView::Finish(Ok(state.client())),
        ),
        state.resumed(ts, Stage::Injecting, Ok(()), target_open) == (
            state,
            StepView::Finish(Ok(state.client())),
        ),
{
}

/// The contents of a command are what it asks for.
pub proof fn law_command_shows_what_it_asks_for(
    url: Option<String>,
    enabled: bool,
    interval_ms: u64,
)
    ensures
        Command::OpenTarget(url)@ == CommandView::OpenTarget(page::text_of(url)),
        Command::SetInspector(enabled)@ == CommandView::SetInspector(enabled),
        Command::StartAutomation(interval_ms)@ == CommandView::StartAutomation(interval_ms),
        Command::StopAutomation@ == CommandView::StopAutomation,
        Command::SetInterval(interval_ms)@ == CommandView::SetInterval(interval_ms),
        Command::ClickOnce@ == CommandView::ClickOnce,
{
}

/// The contents of a step are the work and the stage, or what the command ends with.
pub proof fn law_step_shows_what_comes_next(
    action: TargetAction,
    work: Action,
    stage: Stage,
    client: ClientState,
    error: String,
)
    ensures
        Action::Target(action)@ == ActionView::Target(action@),
        Action::Inject@ == ActionView::Inject,
        Action::Click@ == ActionView::Click,
        Step::Perform(work, stage)@ == StepView::Perform(work@, stage),
        Step::Finish(Ok(client))@ == StepView::Finish(Ok(client@)),
        Step::Finish(Err(error))@ == StepView::Finish(Err(error@)),
        outcome_of(Ok(())) == Ok::<(), Seq<char>>(()),
        outcome_of(Err(error)) == Err::<(), Seq<char>>(error@),
{
}

} // verus!
