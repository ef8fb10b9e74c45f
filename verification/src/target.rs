//! The target page: which URL it is opened at, and what its controller is told.
use crate::navigation::BRIDGE_SCHEME;
use crate::outside;
use crate::page;
use crate::page::SelectedElement;
use crate::runtime;
use crate::runtime::{clamp_interval, RuntimeState, RuntimeView};
use crate::script::{CONTROLLER_HEAD, CONTROLLER_TAIL};
use crate::text;
use crate::text::{chars_of, starts_with, string_of, trimmed};
use serde_json::Value;
use url::Url;
use vstd::prelude::*;

verus! {

/// The URL that the target page is opened at where none is given.
pub const DEFAULT_TARGET_URL: &'static str = "https://www.google.com/";

/// An optional text as a sequence of characters.
pub open spec fn str_of(text: Option<&str>) -> Option<Seq<char>> {
    match text {
        Some(s) => Some(s@),
        None => None,
    }
}

/// A text or the message of an error, as sequences of characters.
pub open spec fn text_result(r: Result<String, String>) -> Result<Seq<char>, Seq<char>> {
    match r {
        Ok(s) => Ok(s@),
        Err(error) => Err(error@),
    }
}

/// What was entered, without the blanks round it, and the default where nothing was.
pub open spec fn entered_text(input: Option<Seq<char>>) -> Seq<char> {
    text::trim(
        match input {
            Some(input) => input,
            None => DEFAULT_TARGET_URL@,
        },
    )
}

/// The text to be read as the URL that the user means: what was entered, without the blanks round
/// it, and with `https://` before it where it names no scheme of the web; `None` where nothing but
/// blanks was entered.
pub open spec fn candidate_of(input: Option<Seq<char>>) -> Option<Seq<char>> {
    let entered = entered_text(input);
    if entered.len() == 0 {
        None
    } else if outside::is_web_text(entered) {
        Some(entered)
    } else {
        Some("https://"@ + entered)
    }
}

/// The URL, or the message about the error, that reading it came to.
pub open spec fn described(parsed: Result<Seq<char>, Seq<char>>) -> Result<Seq<char>, Seq<char>> {
    match parsed {
        Ok(url) => Ok(url),
        Err(error) => Err("URL 형식이 올바르지 않습니다: "@ + error),
    }
}

/// The URL that the user means, in normal form.
pub open spec fn normalized(input: Option<Seq<char>>) -> Result<Seq<char>, Seq<char>> {
    match candidate_of(input) {
        None => Ok(DEFAULT_TARGET_URL@),
        Some(candidate) => described(outside::url_parsed(candidate)),
    }
}

/// The text to be read as the URL that the user means.
pub fn url_candidate(input: Option<&str>) -> (candidate: Option<String>)
    ensures
        page::text_of(candidate) == candidate_of(str_of(input)),
{
    let input = match input {
        Some(input) => input,
        None => DEFAULT_TARGET_URL,
    };
    let entered = trimmed(chars_of(input).as_slice());
    if entered.len() == 0 {
        return None;
    }
    let entered_text = string_of(entered.as_slice());
    if starts_with(entered.as_slice(), "http://") || starts_with(entered.as_slice(), "https://") {
        Some(entered_text)
    } else {
        Some("https://".to_string().concat(entered_text.as_str()))
    }
}

/// The URL, or the message about the error, that reading it came to.
pub fn describe_url(parsed: Result<String, String>) -> (r: Result<String, String>)
    ensures
        text_result(r) == described(text_result(parsed)),
{
    match parsed {
        Ok(url) => Ok(url),
        Err(error) => Err("URL 형식이 올바르지 않습니다: ".to_string().concat(error.as_str())),
    }
}

/// The URL that the user means, in normal form. Its scheme is `http` where `http://` was entered,
/// and `https` everywhere else. A normal form that is entered again is read as it is, and so is
/// its own normal form wherever the parser reads back what it wrote.
pub fn normalize_url(input: Option<&str>) -> (r: Result<String, String>)
    ensures
        text_result(r) == normalized(str_of(input)),
        r matches Ok(url) ==> {
            &&& "http://"@.is_prefix_of(url@) == "http://"@.is_prefix_of(
                entered_text(str_of(input)),
            )
            &&& "https://"@.is_prefix_of(url@) == !"http://"@.is_prefix_of(
                entered_text(str_of(input)),
            )
            &&& candidate_of(Some(url@)) == Some(url@)
            &&& outside::url_parsed(url@) == Ok::<Seq<char>, Seq<char>>(url@) ==> normalized(
                Some(url@),
            ) == Ok::<Seq<char>, Seq<char>>(url@)
        },
{
    proof {
        lemma_candidate_scheme(str_of(input));
    }
    match url_candidate(input) {
        None => {
            proof {
                lemma_default_is_web_text();
            }
            Ok(DEFAULT_TARGET_URL.to_string())
        },
        Some(candidate) => {
            let parsed = match Url::parse(candidate.as_str()) {
                Ok(url) => {
                    proof {
                        lemma_web_text(outside::url_text(url));
                    }
                    Ok(outside::url_to_string(&url))
                },
                Err(error) => Err(outside::url_error_to_string(&error)),
            };
            describe_url(parsed)
        },
    }
}

/// A text of the web is not empty, and has one scheme.
proof fn lemma_web_text(text: Seq<char>)
    requires
        outside::is_web_text(text),
    ensures
        text.len() > 0,
        "http://"@.is_prefix_of(text) != "https://"@.is_prefix_of(text),
{
    reveal_strlit("http://");
    reveal_strlit("https://");
    if "http://"@.is_prefix_of(text) && "https://"@.is_prefix_of(text) {
        assert("http://"@[4] == text[4]);
        assert("https://"@[4] == text[4]);
    }
}

proof fn lemma_default_is_web_text()
    ensures
        "https://"@.is_prefix_of(DEFAULT_TARGET_URL@),
        !"http://"@.is_prefix_of(DEFAULT_TARGET_URL@),
        text::trim(DEFAULT_TARGET_URL@) == DEFAULT_TARGET_URL@,
        DEFAULT_TARGET_URL@.len() > 0,
{
    reveal_strlit("https://");
    reveal_strlit("https://www.google.com/");
    assert("https://"@ =~= DEFAULT_TARGET_URL@.subrange(0, "https://"@.len() as int));
    lemma_web_text(DEFAULT_TARGET_URL@);
    text::lemma_trimmed(DEFAULT_TARGET_URL@);
}

/// The scheme of what is read as a URL: `http` where `http://` was entered, else `https`.
proof fn lemma_candidate_scheme(input: Option<Seq<char>>)
    ensures
        match candidate_of(input) {
            Some(candidate) => {
                let http = "http://"@.is_prefix_of(entered_text(input));
                &&& "http://"@.is_prefix_of(candidate) == http
                &&& "https://"@.is_prefix_of(candidate) == !http
            },
            None => !"http://"@.is_prefix_of(entered_text(input)),
        },
{
    let entered = entered_text(input);
    if entered.len() == 0 {
        reveal_strlit("http://");
    } else if outside::is_web_text(entered) {
        lemma_web_text(entered);
    } else {
        let candidate = "https://"@ + entered;
        assert("https://"@ =~= candidate.subrange(0, "https://"@.len() as int));
        lemma_web_text(candidate);
    }
}

/// What is done to bring the target page to a URL.
#[derive(Debug)]
pub enum TargetAction {
    /// The script is run in the page that is open.
    Navigate(String),
    /// A window is opened at the URL.
    Create(Url),
}

/// The contents of a [`TargetAction`].
pub ghost enum TargetActionView {
    Navigate(Seq<char>),
    Create(Seq<char>),
}

impl View for TargetAction {
    type V = TargetActionView;

    open spec fn view(&self) -> TargetActionView {
        match self {
            TargetAction::Navigate(script) => TargetActionView::Navigate(script@),
            TargetAction::Create(url) => TargetActionView::Create(outside::url_text(*url)),
        }
    }
}

/// What opening the target page came to, by its contents.
pub open spec fn action_result(r: Result<TargetAction, String>) -> Result<
    TargetActionView,
    Seq<char>,
> {
    match r {
        Ok(action) => Ok(action@),
        Err(error) => Err(error@),
    }
}

/// What is done to bring the target page to `url`, which is in normal form.
pub open spec fn action_for(url: Seq<char>, target_open: bool) -> Result<
    TargetActionView,
    Seq<char>,
> {
    if target_open {
        Ok(
            TargetActionView::Navigate(
                "window.location.href = "@ + outside::json_string(url) + ";"@,
            ),
        )
    } else {
        match outside::url_parsed(url) {
            Ok(parsed) => Ok(TargetActionView::Create(parsed)),
            Err(error) => Err(error),
        }
    }
}

impl RuntimeView {
    /// The state once the target page is to be at `url`: nothing is picked, shown or running.
    pub open spec fn targeting(self, ts: u64, url: Seq<char>) -> RuntimeView {
        (RuntimeView {
            target_url: Some(url),
            running: false,
            inspector_enabled: false,
            selected: None,
            snapshot: None,
            ..self
        }).logged(ts, "info"@, "대상 웹뷰 열기: "@ + url)
    }

    /// The state after opening the target page at what the user entered, and what is done for it.
    pub open spec fn after_open(
        self,
        ts: u64,
        input: Option<Seq<char>>,
        target_open: bool,
    ) -> (RuntimeView, Result<TargetActionView, Seq<char>>) {
        match normalized(input) {
            Ok(url) => (self.targeting(ts, url), action_for(url, target_open)),
            Err(error) => (self, Err(error)),
        }
    }
}

/// The configuration of the controller.
#[derive(Debug)]
pub struct ControllerConfig {
    pub endpoint: String,
    pub bridge_scheme: &'static str,
    pub inspector: bool,
    pub running: bool,
    pub interval_ms: u64,
    pub selected: Option<SelectedElement>,
}

/// The contents of a [`ControllerConfig`].
pub ghost struct ConfigView {
    pub endpoint: Seq<char>,
    pub bridge_scheme: Seq<char>,
    pub inspector: bool,
    pub running: bool,
    pub interval_ms: u64,
    pub selected: Option<page::SelectedView>,
}

impl View for ControllerConfig {
    type V = ConfigView;

    open spec fn view(&self) -> ConfigView {
        ConfigView {
            endpoint: self.endpoint@,
            bridge_scheme: self.bridge_scheme@,
            inspector: self.inspector,
            running: self.running,
            interval_ms: self.interval_ms,
            selected: page::selected_of(self.selected),
        }
    }
}

/// An optional configuration, by its contents.
pub open spec fn config_of(config: Option<ControllerConfig>) -> Option<ConfigView> {
    match config {
        Some(config) => Some(config@),
        None => None,
    }
}

impl RuntimeView {
    /// What the controller is told, where the target page is open and the bridge too.
    pub open spec fn controller(self, target_open: bool) -> Option<ConfigView> {
        if !target_open || self.bridge_port == 0 {
            None
        } else {
            Some(
                ConfigView {
                    endpoint: "http://127.0.0.1:"@ + text::decimal(self.bridge_port as nat),
                    bridge_scheme: BRIDGE_SCHEME@,
                    inspector: self.inspector_enabled,
                    running: self.running,
                    interval_ms: runtime::effective_interval(self.interval_ms),
                    selected: self.selected,
                },
            )
        }
    }
}

/// The script that brings the controller up to date, or into the page.
pub open spec fn injection_script(config: Seq<char>, html2canvas: Seq<char>) -> Seq<char> {
    html2canvas + "\n;"@ + CONTROLLER_HEAD@ + config + CONTROLLER_TAIL@
}

/// The script that brings the controller up to date, or into the page: the renderer
/// `html2canvas`, and behind it the controller around the text of its configuration.
pub fn wrap_config(config: &str, html2canvas: &str) -> (script: String)
    ensures
        script@ == injection_script(config@, html2canvas@),
{
    let mut script = html2canvas.to_string();
    script.append("\n;");
    script.append(CONTROLLER_HEAD);
    script.append(config);
    script.append(CONTROLLER_TAIL);
    script
}

/// The script that brings the controller up to date, or into the page, with its configuration.
pub fn build_injection_script(config: &Value, html2canvas: &str) -> (r: Result<String, String>)
    ensures
        r is Ok,
        r->Ok_0@ == injection_script(outside::json_text(*config), html2canvas@),
{
    match outside::json_print(config) {
        Ok(config) => Ok(wrap_config(config.as_str(), html2canvas)),
        Err(error) => Err(error.to_string()),
    }
}

impl RuntimeState {
    /// Notes that the target page is to be at `url`, which is in normal form.
    pub fn note_target(&mut self, ts: u64, url: &str)
        requires
            old(self).wf(),
            old(self)@.next_log_id < u64::MAX,
        ensures
            final(self).wf(),
            final(self)@ == old(self)@.targeting(ts, url@),
    {
        self.target_url = Some(url.to_string());
        self.running = false;
        self.inspector_enabled = false;
        self.selected = None;
        self.snapshot = None;
        let message = "대상 웹뷰 열기: ".to_string().concat(url);
        self.push_log_at(ts, "info".to_string(), message);
    }

    /// Opens the target page at what the user entered, at the time `ts`.
    pub fn open_target_url(&mut self, ts: u64, input: Option<&str>, target_open: bool) -> (r:
        Result<TargetAction, String>)
        requires
            old(self).wf(),
            old(self)@.next_log_id < u64::MAX,
        ensures
            final(self).wf(),
            (final(self)@, action_result(r)) == old(self)@.after_open(
                ts,
                str_of(input),
                target_open,
            ),
    {
        let url = match normalize_url(input) {
            Ok(url) => url,
            Err(error) => {
                return Err(error);
            },
        };
        self.note_target(ts, url.as_str());
        if target_open {
            match outside::json_quote(url.as_str()) {
                Ok(quoted) => {
                    let mut script = "window.location.href = ".to_string();
                    script.append(quoted.as_str());
                    script.append(";");
                    Ok(TargetAction::Navigate(script))
                },
                Err(error) => Err(error.to_string()),
            }
        } else {
            match Url::parse(url.as_str()) {
                Ok(parsed) => Ok(TargetAction::Create(parsed)),
                Err(error) => Err(outside::url_error_to_string(&error)),
            }
        }
    }

    /// What the controller is told; `None` where there is no page to tell it to, or no bridge by
    /// which it could report.
    pub fn controller_config(&self, target_open: bool) -> (config: Option<ControllerConfig>)
        ensures
            config_of(config) == self@.controller(target_open),
    {
        if !target_open || self.bridge_port == 0 {
            return None;
        }
        let mut endpoint = "http://127.0.0.1:".to_string();
        text::push_decimal(&mut endpoint, self.bridge_port as u64);
        Some(
            ControllerConfig {
                endpoint,
                bridge_scheme: BRIDGE_SCHEME,
                inspector: self.inspector_enabled,
                running: self.running,
                interval_ms: clamp_interval(self.interval_ms),
                selected: page::copy_selected(&self.selected),
            },
        )
    }
}

/// Where nothing but blanks is entered, the default is opened.
pub proof fn law_blank_input_means_the_default(input: Seq<char>)
    requires
        forall|i: int| 0 <= i < input.len() ==> text::is_white_space(#[trigger] input[i]),
    ensures
        normalized(Some(input)) == Ok::<Seq<char>, Seq<char>>(DEFAULT_TARGET_URL@),
{
    text::lemma_blank(input);
}

/// Blanks round what is entered make no difference.
pub proof fn law_blanks_round_the_url_make_no_difference(input: Seq<char>)
    ensures
        normalized(Some(text::trim(input))) == normalized(Some(input)),
{
    text::lemma_trim_twice(input);
}

/// What is read as a URL always names a scheme of the web, and ends with what was entered.
pub proof fn law_candidate_is_a_web_url(input: Seq<char>)
    ensures
        candidate_of(Some(input)) matches Some(candidate) ==> {
            &&& outside::is_web_text(candidate)
            &&& candidate == text::trim(input) || candidate == "https://"@ + text::trim(input)
        },
{
    lemma_candidate_scheme(Some(input));
}

/// A URL of the web that the parser reads back as it wrote it is its own normal form.
pub proof fn law_normal_form_is_kept(url: Seq<char>)
    requires
        outside::url_parsed(url) == Ok::<Seq<char>, Seq<char>>(url),
        outside::is_web_text(url),
        text::trim(url) == url,
    ensures
        normalized(Some(url)) == Ok::<Seq<char>, Seq<char>>(url),
{
    lemma_web_text(url);
}

/// What cannot be read as a URL is refused with the message about it, and changes nothing.
pub proof fn law_refused_url_changes_nothing(
    state: RuntimeView,
    ts: u64,
    input: Option<Seq<char>>,
    target_open: bool,
)
    requires
        normalized(input) is Err,
    ensures
        state.after_open(ts, input, target_open) == (
            state,
            Err::<TargetActionView, Seq<char>>(normalized(input)->Err_0),
        ),
{
}

/// Opening the target page at a URL forgets what was picked and shown, and stops everything.
pub proof fn law_opening_starts_afresh(
    state: RuntimeView,
    ts: u64,
    input: Option<Seq<char>>,
    target_open: bool,
)
    requires
        normalized(input) is Ok,
    ensures
        ({
            let after = state.after_open(ts, input, target_open).0;
            &&& after.target_url == Some(normalized(input)->Ok_0)
            &&& after.selected is None
            &&& after.snapshot is None
            &&& !after.running
            &&& !after.inspector_enabled
        }),
{
}

/// What is read as the URL that the user means: what was entered, with `https://` before it where
/// it does not begin with `http://` or `https://`, and the default where nothing was entered.
pub proof fn law_candidate_is_what_was_entered(input: Seq<char>)
    ensures
        candidate_of(Some(input)) is None <==> text::trim(input).len() == 0,
        text::trim(input).len() > 0 && ("http://"@.is_prefix_of(text::trim(input))
            || "https://"@.is_prefix_of(text::trim(input))) ==> candidate_of(Some(input)) == Some(
            text::trim(input),
        ),
        text::trim(input).len() > 0 && !"http://"@.is_prefix_of(text::trim(input))
            && !"https://"@.is_prefix_of(text::trim(input)) ==> candidate_of(Some(input)) == Some(
            "https://"@ + text::trim(input),
        ),
        candidate_of(None) == Some("https://www.google.com/"@),
{
    lemma_default_is_web_text();
}

/// The normal form is what the parser makes of what is read as the URL, an error comes with what
/// the parser says of it, and where there is nothing to read the normal form is the default.
pub proof fn law_normal_form_is_what_the_parser_says(
    input: Option<Seq<char>>,
    candidate: Seq<char>,
    url: Seq<char>,
    error: Seq<char>,
)
    ensures
        candidate_of(input) is None ==> normalized(input) == Ok::<Seq<char>, Seq<char>>(
            "https://www.google.com/"@,
        ),
        candidate_of(input) == Some(candidate) && outside::url_parsed(candidate) == Ok::<
            Seq<char>,
            Seq<char>,
        >(url) ==> normalized(input) == Ok::<Seq<char>, Seq<char>>(url),
        candidate_of(input) == Some(candidate) && outside::url_parsed(candidate) == Err::<
            Seq<char>,
            Seq<char>,
        >(error) ==> normalized(input) == Err::<Seq<char>, Seq<char>>(
            "URL 형식이 올바르지 않습니다: "@ + error,
        ),
{
}

/// The page goes to the URL that was entered, whatever URL it was at: an open page is sent to it,
/// and a window is opened at it where there is none. It is the target URL of the state afterwards
/// and the one that is logged; the interval, the bridge and the payloads under way stay.
pub proof fn law_page_goes_to_the_url_entered(
    state: RuntimeView,
    ts: u64,
    input: Option<Seq<char>>,
    target_open: bool,
    url: Seq<char>,
)
    requires
        state.logs.len() <= 500,
        state.next_log_id < u64::MAX,
        normalized(input) == Ok::<Seq<char>, Seq<char>>(url),
    ensures
        ({
            let (after, action) = state.after_open(ts, input, target_open);
            &&& after.target_url == Some(url)
            &&& target_open ==> action == Ok::<TargetActionView, Seq<char>>(
                TargetActionView::Navigate(
                    "window.location.href = "@ + outside::json_string(url) + ";"@,
                ),
            )
            &&& !target_open && outside::url_parsed(url) is Ok ==> action == Ok::<
                TargetActionView,
                Seq<char>,
            >(TargetActionView::Create(outside::url_parsed(url)->Ok_0))
            &&& !target_open && outside::url_parsed(url) is Err ==> action == Err::<
                TargetActionView,
                Seq<char>,
            >(outside::url_parsed(url)->Err_0)
            &&& runtime::log_gains(state, after, ts, "info"@, "대상 웹뷰 열기: "@ + url)
            &&& after.interval_ms == state.interval_ms
            &&& after.bridge_port == state.bridge_port
            &&& after.bridge_chunks == state.bridge_chunks
            &&& after == state.targeting(ts, url)
        }),
{
}

/// The URL that a page is sent to, or a window is opened at, depends on what was entered alone.
pub proof fn law_url_acted_on_is_the_one_entered(
    state: RuntimeView,
    other: RuntimeView,
    ts: u64,
    later: u64,
    input: Option<Seq<char>>,
    target_open: bool,
)
    ensures
        state.after_open(ts, input, target_open).1 == other.after_open(later, input, target_open).1,
{
}

/// Noting the target URL sets it, forgets what was picked and shown, stops everything, logs it, and
/// changes nothing else.
pub proof fn law_noted_target_starts_afresh(state: RuntimeView, ts: u64, url: Seq<char>)
    requires
        state.logs.len() <= 500,
        state.next_log_id < u64::MAX,
    ensures
        ({
            let after = state.targeting(ts, url);
            &&& after.target_url == Some(url)
            &&& !after.running
            &&& !after.inspector_enabled
            &&& after.selected is None
            &&& after.snapshot is None
            &&& runtime::log_gains(state, after, ts, "info"@, "대상 웹뷰 열기: "@ + url)
            &&& after.interval_ms == state.interval_ms
            &&& after.bridge_port == state.bridge_port
            &&& after.bridge_chunks == state.bridge_chunks
        }),
{
}

/// The controller is told the picked element with every field as it is, whether to pick and to
/// click, the interval in effect, and by which endpoint and scheme to report; there is something to
/// tell exactly where the page is open and the bridge too.
pub proof fn law_controller_is_told_the_state(state: RuntimeView, target_open: bool)
    ensures
        state.controller(target_open) is Some <==> target_open && state.bridge_port != 0,
        state.controller(target_open) matches Some(config) ==> {
            &&& config.endpoint == "http://127.0.0.1:"@ + text::decimal(state.bridge_port as nat)
            &&& config.bridge_scheme == "button-automation"@
            &&& config.inspector == state.inspector_enabled
            &&& config.running == state.running
            &&& state.interval_ms >= 500 ==> config.interval_ms == state.interval_ms
            &&& state.interval_ms < 500 ==> config.interval_ms == 500
            &&& config.selected is Some <==> state.selected is Some
            &&& state.selected matches Some(element) ==> {
                &&& config.selected->0.tag == element.tag
                &&& config.selected->0.selector == element.selector
                &&& config.selected->0.text == element.text
                &&& config.selected->0.role == element.role
                &&& config.selected->0.name == element.name
                &&& config.selected->0.fingerprint == element.fingerprint
            }
        },
{
}

/// The controller and the control window are told the same.
pub proof fn law_controller_and_window_agree(state: RuntimeView)
    ensures
        state.controller(true) matches Some(config) ==> {
            &&& config.inspector == state.client().inspector_enabled
            &&& config.running == state.client().running
            &&& config.interval_ms == state.client().interval_ms
            &&& config.selected == state.client().selected
        },
{
}

/// The script holds the renderer in front, and behind it the configuration between the two parts
/// of the controller.
pub proof fn law_script_holds_renderer_and_configuration(config: Seq<char>, html2canvas: Seq<char>)
    ensures
        ({
            let script = injection_script(config, html2canvas);
            let at = html2canvas.len() + 2 + CONTROLLER_HEAD@.len();
            &&& script.len() == at + config.len() + CONTROLLER_TAIL@.len()
            &&& script.take(html2canvas.len() as int) == html2canvas
            &&& script[html2canvas.len() as int] == '\n'
            &&& script[html2canvas.len() as int + 1] == ';'
            &&& script.subrange(html2canvas.len() as int + 2, at as int) == CONTROLLER_HEAD@
            &&& script.subrange(at as int, (at + config.len()) as int) == config
            &&& script.skip((at + config.len()) as int) == CONTROLLER_TAIL@
        }),
        CONTROLLER_HEAD@ == "\n(() => {\n  const CONFIG = "@,
{
    let script = injection_script(config, html2canvas);
    let at = html2canvas.len() + 2 + CONTROLLER_HEAD@.len();
    reveal_strlit("\n;");
    assert(script.take(html2canvas.len() as int) =~= html2canvas);
    assert(script.subrange(html2canvas.len() as int + 2, at as int) =~= CONTROLLER_HEAD@);
    assert(script.subrange(at as int, (at + config.len()) as int) =~= config);
    assert(script.skip((at + config.len()) as int) =~= CONTROLLER_TAIL@);
}

/// The contents of a configuration are all its fields.
pub proof fn law_configuration_shows_its_fields(config: ControllerConfig)
    ensures
        config@.endpoint == config.endpoint@,
        config@.bridge_scheme == config.bridge_scheme@,
        config@.inspector == config.inspector,
        config@.running == config.running,
        config@.interval_ms == config.interval_ms,
        config@.selected == page::selected_of(config.selected),
        config_of(Some(config)) == Some(config@),
        config_of(None) is None,
{
}

/// The contents of what is done to bring the page to a URL are the script, or the text of the URL.
pub proof fn law_target_action_shows_what_is_done(
    script: String,
    url: Url,
    action: TargetAction,
    error: String,
    input: &str,
)
    ensures
        TargetAction::Navigate(script)@ == TargetActionView::Navigate(script@),
        TargetAction::Create(url)@ == TargetActionView::Create(outside::url_text(url)),
        action_result(Ok(action)) == Ok::<TargetActionView, Seq<char>>(action@),
        action_result(Err(error)) == Err::<TargetActionView, Seq<char>>(error@),
        text_result(Ok(script)) == Ok::<Seq<char>, Seq<char>>(script@),
        text_result(Err(error)) == Err::<Seq<char>, Seq<char>>(error@),
        str_of(Some(input)) == Some(input@),
        str_of(None) is None,
{
}

/// A URL that was read is given as it is, and an error with what is said of it.
pub proof fn law_description_keeps_what_was_read(url: Seq<char>, error: Seq<char>)
    ensures
        described(Ok(url)) == Ok::<Seq<char>, Seq<char>>(url),
        described(Err(error)) == Err::<Seq<char>, Seq<char>>(
            "URL 형식이 올바르지 않습니다: "@ + error,
        ),
{
}

} // verus!
