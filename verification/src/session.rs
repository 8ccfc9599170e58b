//! What the shell knows and shows of the `dsh` it runs.

use crate::navigation::{
    is_allowed_navigation, is_shell_page, navigation_allowed, ready_address_is_allowed,
};
use crate::numbers::{decimal_value, digits_stand_for_naturals};
use crate::process::{
    end_is_reported, last_bytes, reaction_at, reports_exit, reports_ready, reports_timeout,
    wants_stop, DshEvent, DshEventView, ProcessInputView,
};
use crate::ready::{accepted_has_ready_form, read_address_is_local, ready_port, LOOPBACK_PREFIX};
use crate::text::{has_prefix, opt_text, same_text};
use crate::theme::{parse_theme_navigation, signalled_theme};
use crate::zoom::{
    is_next_step, is_prev_step, is_step, next_zoom, prev_zoom, steps_rise, zoom_stays_in_range,
    DEFAULT_ZOOM,
};
use vstd::prelude::*;
use vstd::slice::{slice_subrange, slice_to_vec};
use vstd::utf8::{decode_utf8, decode_utf8_encode_utf8, encode_utf8, valid_utf8};

verus! {

/// The state of `dsh` as the pages of the shell are told it.
#[derive(Debug, Clone)]
pub struct DshState {
    /// `starting`, `ready`, `stopped` or `error`; empty before the first start.
    pub status: String,
    pub url: Option<String>,
    pub error: Option<String>,
    /// The kind of an error, by which the pages choose their advice: `missing_dsh`,
    /// `missing_node`, `node_too_old`, `boot_timeout`, `crashed` or `spawn_failed`.
    pub error_kind: Option<String>,
}

/// The view of a [`DshState`].
pub struct DshStateView {
    pub status: Seq<char>,
    pub url: Option<Seq<char>>,
    pub error: Option<Seq<char>>,
    pub error_kind: Option<Seq<char>>,
}

impl View for DshState {
    type V = DshStateView;

    open spec fn view(&self) -> DshStateView {
        DshStateView {
            status: self.status@,
            url: opt_text(self.url),
            error: opt_text(self.error),
            error_kind: opt_text(self.error_kind),
        }
    }
}

impl DshStateView {
    /// Nothing was started yet.
    pub open spec fn initial() -> DshStateView {
        DshStateView { status: Seq::empty(), url: None, error: None, error_kind: None }
    }

    /// A start is under way.
    pub open spec fn starting() -> DshStateView {
        DshStateView { status: "starting"@, url: None, error: None, error_kind: None }
    }

    /// `dsh` listens at `url`.
    pub open spec fn ready(url: Seq<char>) -> DshStateView {
        DshStateView { status: "ready"@, url: Some(url), error: None, error_kind: None }
    }

    /// Something went wrong.
    pub open spec fn failed(
        status: Seq<char>,
        error: Seq<char>,
        kind: Seq<char>,
    ) -> DshStateView {
        DshStateView { status, url: None, error: Some(error), error_kind: Some(kind) }
    }
}

/// Whether `state` is one that the pages know how to show: an address comes with a `dsh` that is
/// ready and with no other, and whatever went wrong comes with a message and its kind.
pub open spec fn is_proper(state: DshStateView) -> bool {
    ||| state == DshStateView::initial()
    ||| state == DshStateView::starting()
    ||| state.url is Some && state == DshStateView::ready(state.url->0)
    ||| state.error is Some && state == DshStateView::failed(
        "stopped"@,
        state.error->0,
        "crashed"@,
    )
    ||| {
        &&& state.error is Some
        &&& state.error_kind is Some
        &&& state == DshStateView::failed("error"@, state.error->0, state.error_kind->0)
        &&& is_error_kind(state.error_kind->0)
    }
}

/// Whether `kind` is one that the pages have advice for.
pub open spec fn is_error_kind(kind: Seq<char>) -> bool {
    ||| kind == "missing_dsh"@
    ||| kind == "missing_node"@
    ||| kind == "node_too_old"@
    ||| kind == "boot_timeout"@
    ||| kind == "spawn_failed"@
}

impl Default for DshState {
    fn default() -> (r: Self)
        ensures
            r@ == DshStateView::initial(),
    {
        DshState { status: String::new(), url: None, error: None, error_kind: None }
    }
}

impl DshState {
    /// A start is under way.
    pub fn starting() -> (r: DshState)
        ensures
            r@ == DshStateView::starting(),
    {
        DshState { status: "starting".to_owned(), url: None, error: None, error_kind: None }
    }

    /// `dsh` listens at `url`.
    pub fn ready(url: String) -> (r: DshState)
        ensures
            r@ == DshStateView::ready(url@),
    {
        DshState { status: "ready".to_owned(), url: Some(url), error: None, error_kind: None }
    }

    /// Something went wrong.
    pub fn failed(status: &str, error: String, kind: &str) -> (r: DshState)
        ensures
            r@ == DshStateView::failed(status@, error@, kind@),
    {
        DshState {
            status: status.to_owned(),
            url: None,
            error: Some(error),
            error_kind: Some(kind.to_owned()),
        }
    }

    /// A copy.
    pub fn copy(&self) -> (r: DshState)
        ensures
            r@ == self@,
    {
        DshState {
            status: self.status.clone(),
            url: self.url.clone(),
            error: self.error.clone(),
            error_kind: self.error_kind.clone(),
        }
    }
}

/// The most that an error message quotes of the log, in bytes.
pub const EXCERPT_BYTES: usize = 2048;

/// What `String::from_utf8_lossy` makes of bytes.
pub uninterp spec fn utf8_lossy(bytes: Seq<u8>) -> Seq<char>;

/// Decodes bytes, by `String::from_utf8_lossy`.
///
/// The contract claims that the text depends on the bytes alone, and that it is the text that
/// they encode where they are valid UTF-8. It leaves unsaid how many replacement characters stand
/// for bytes that are not.
#[verifier::external_body]
fn lossy_text(bytes: &[u8]) -> (r: String)
    ensures
        r@ == utf8_lossy(bytes@),
        valid_utf8(bytes@) ==> r@ == decode_utf8(bytes@),
{
    String::from_utf8_lossy(bytes).into_owned()
}

/// The part of a log that an error message quotes: its end.
pub open spec fn excerpt(log: Seq<u8>) -> Seq<char> {
    let text = utf8_lossy(log);
    if encode_utf8(text).len() > EXCERPT_BYTES {
        utf8_lossy(last_bytes(encode_utf8(text), EXCERPT_BYTES as int))
    } else {
        text
    }
}

/// The end of a text that is too long to be quoted, as bytes; `None` if it is not too long.
pub fn overlong_end(text: &str) -> (r: Option<Vec<u8>>)
    ensures
        r is Some <==> encode_utf8(text@).len() > EXCERPT_BYTES,
        r matches Some(end) ==> end@ == last_bytes(encode_utf8(text@), EXCERPT_BYTES as int),
{
    let bytes: &[u8] = text.as_bytes();
    let len: usize = bytes.len();
    if len > EXCERPT_BYTES {
        Some(slice_to_vec(slice_subrange(bytes, len - EXCERPT_BYTES, len)))
    } else {
        None
    }
}

/// The part of a log that an error message quotes. A log that is cleanly encoded, and stays so
/// where it is cut, is quoted as it is.
pub fn dsh_error_tail(log: &[u8]) -> (r: String)
    ensures
        r@ == excerpt(log@),
        valid_utf8(log@) && valid_utf8(last_bytes(log@, EXCERPT_BYTES as int)) ==> r@
            == decode_utf8(last_bytes(log@, EXCERPT_BYTES as int)),
{
    let text: String = lossy_text(log);
    proof {
        if valid_utf8(log@) {
            decode_utf8_encode_utf8(log@);
        }
    }
    match overlong_end(text.as_str()) {
        Some(end) => lossy_text(end.as_slice()),
        None => text,
    }
}

/// The port that `url::Url` reads from an address, the one of its scheme where none is written:
/// `None` if the address makes no sense to it, `Some(None)` if there is no port at all.
pub uninterp spec fn url_port(url: Seq<char>) -> Option<Option<u16>>;

/// The port of a ready address as an address parser sees it: a number that is no port makes the
/// address senseless.
pub open spec fn announced_port(url: Seq<char>) -> Option<Option<u16>> {
    let n = decimal_value(ready_port(url)->0);
    if n > u16::MAX {
        None
    } else {
        Some(Some(n as u16))
    }
}

/// Whether a ready address is of a length that an address parser copes with: without a fragment
/// any is.
pub open spec fn is_parsable(url: Seq<char>) -> bool {
    url.len() <= 0x1000_0000 || !url.contains('#')
}

/// Once the port of a ready address is known, the content view may show that address.
pub proof fn announced_address_is_allowed(url: Seq<char>)
    requires
        ready_port(url) is Some,
        decimal_value(ready_port(url)->0) <= u16::MAX,
    ensures
        announced_port(url) is Some,
        navigation_allowed(url, announced_port(url)->0),
{
    accepted_has_ready_form(url);
    digits_stand_for_naturals(ready_port(url)->0);
    ready_address_is_allowed(url, announced_port(url)->0->0);
}

/// Reads the port of an address, by `url::Url::parse` and `url::Url::port_or_known_default`.
///
/// The contract claims that the result depends on the address alone, and what it is for a ready
/// address. A very long address with a fragment is left out: the parser refuses one whose fragment
/// does not start within its first four gigabytes, and escaping turns a character into twelve
/// bytes at most.
#[verifier::external_body]
fn port_of_url(url: &str) -> (r: Option<Option<u16>>)
    ensures
        r == url_port(url@),
        ready_port(url@) is Some && is_parsable(url@) ==> r == announced_port(url@),
{
    url::Url::parse(url).ok().map(|parsed| parsed.port_or_known_default())
}

/// What the shell has to do after an event.
#[derive(Debug)]
pub struct EventEffect {
    /// Whether the state has changed, so that the pages are to be told.
    pub publish: bool,
    /// Where the content view is to go.
    pub navigate: Option<String>,
}

/// The view of an [`EventEffect`].
pub struct EventEffectView {
    pub publish: bool,
    pub navigate: Option<Seq<char>>,
}

impl View for EventEffect {
    type V = EventEffectView;

    open spec fn view(&self) -> EventEffectView {
        EventEffectView { publish: self.publish, navigate: opt_text(self.navigate) }
    }
}

/// What becomes of an address that the content view is about to go to.
#[derive(Debug, Clone, Copy, PartialEq, Eq)]
pub enum NavigationAction {
    /// The content view goes there.
    Show,
    /// It stays where it is: the address is a signal, and the window takes on this theme.
    FollowTheme(&'static str),
    /// It stays where it is, and the system's browser opens the address.
    OpenInBrowser,
}

/// What the shell remembers.
pub struct Shell {
    state: DshState,
    dsh_port: Option<u16>,
    zoom: u32,
}

/// The view of a [`Shell`].
pub struct ShellView {
    pub state: DshStateView,
    /// The port of the `dsh` that is ready; `None` while there is none.
    pub dsh_port: Option<u16>,
    /// The zoom of the content view, in percent.
    pub zoom: u32,
}

impl View for Shell {
    type V = ShellView;

    closed spec fn view(&self) -> ShellView {
        ShellView { state: self.state@, dsh_port: self.dsh_port, zoom: self.zoom }
    }
}

impl ShellView {
    /// The shell before anything was started.
    pub open spec fn initial() -> ShellView {
        ShellView { state: DshStateView::initial(), dsh_port: None, zoom: DEFAULT_ZOOM }
    }

    /// The shell when a new `dsh` is about to be started: the one before it does not count any
    /// more.
    pub open spec fn start_over(self) -> ShellView {
        ShellView { dsh_port: None, ..self }
    }

    /// The shell after an event; `log` is the part of the log to quote, `port` the port of the
    /// address that a ready event carries.
    pub open spec fn after(
        self,
        event: DshEventView,
        log: Seq<char>,
        port: Option<Option<u16>>,
    ) -> ShellView {
        match event {
            DshEventView::Ready { url } => ShellView {
                state: DshStateView::ready(url),
                dsh_port: match port {
                    Some(p) => p,
                    None => None,
                },
                ..self
            },
            DshEventView::BootTimeout => ShellView {
                state: DshStateView::failed(
                    "error"@,
                    "dsh 启动超时。最近日志：\n"@ + log,
                    "boot_timeout"@,
                ),
                ..self
            },
            DshEventView::Exited { requested, .. } => if requested {
                self
            } else {
                ShellView {
                    state: DshStateView::failed(
                        "stopped"@,
                        "dsh 进程已退出。最近日志：\n"@ + log,
                        "crashed"@,
                    ),
                    dsh_port: None,
                    ..self
                }
            },
        }
    }

    /// What there is to do after an event: an exit that was asked for is passed over, and the
    /// content view follows an address that makes sense.
    pub open spec fn effect(event: DshEventView, port: Option<Option<u16>>) -> EventEffectView {
        match event {
            DshEventView::Ready { url } => EventEffectView {
                publish: true,
                navigate: if port is Some {
                    Some(url)
                } else {
                    None
                },
            },
            DshEventView::BootTimeout => EventEffectView { publish: true, navigate: None },
            DshEventView::Exited { requested, .. } => EventEffectView {
                publish: !requested,
                navigate: None,
            },
        }
    }
}

/// A message with the end of the log behind it.
fn with_log(message: &str, log: &str) -> (r: String)
    ensures
        r@ == message@ + log@,
{
    let mut r: String = message.to_owned();
    r.append(log);
    r
}

impl Shell {
    /// The shell before anything was started.
    pub fn new() -> (r: Shell)
        ensures
            r@ == ShellView::initial(),
    {
        Shell { state: DshState::default(), dsh_port: None, zoom: DEFAULT_ZOOM }
    }

    /// The state to tell the pages.
    pub fn state(&self) -> (r: DshState)
        ensures
            r@ == self@.state,
    {
        self.state.copy()
    }

    /// The zoom of the content view, in percent.
    pub fn zoom(&self) -> (r: u32)
        ensures
            r == self@.zoom,
    {
        self.zoom
    }

    /// Replaces the state.
    pub fn set_status(&mut self, state: DshState)
        ensures
            final(self)@ == (ShellView { state: state@, ..old(self)@ }),
    {
        self.state = state;
    }

    /// Takes note that a new `dsh` is about to be started: until it is ready, no page but the
    /// shell's own is allowed.
    pub fn start_over(&mut self)
        ensures
            final(self)@ == old(self)@.start_over(),
    {
        self.dsh_port = None;
    }

    /// Takes note of an event, given the part of the log to quote and what the address of a ready
    /// event names as its port.
    pub fn apply_event(
        &mut self,
        event: DshEvent,
        log: &str,
        port: Option<Option<u16>>,
    ) -> (r: EventEffect)
        ensures
            final(self)@ == old(self)@.after(event@, log@, port),
            r@ == ShellView::effect(event@, port),
    {
        match event {
            DshEvent::Ready { url } => {
                self.dsh_port = match port {
                    Some(p) => p,
                    None => None,
                };
                self.state = DshState::ready(url.clone());
                let navigate: Option<String> = if port.is_some() {
                    Some(url)
                } else {
                    None
                };
                EventEffect { publish: true, navigate }
            },
            DshEvent::BootTimeout => {
                self.state = DshState::failed(
                    "error",
                    with_log("dsh 启动超时。最近日志：\n", log),
                    "boot_timeout",
                );
                EventEffect { publish: true, navigate: None }
            },
            DshEvent::Exited { requested, .. } => {
                if !requested {
                    self.dsh_port = None;
                    self.state = DshState::failed(
                        "stopped",
                        with_log("dsh 进程已退出。最近日志：\n", log),
                        "crashed",
                    );
                }
                EventEffect { publish: !requested, navigate: None }
            },
        }
    }

    /// Takes note of an event; `log` is what is kept of the standard error of the process.
    ///
    /// After the announcement of a port the content view goes to the announced address, and may
    /// show it.
    pub fn handle_dsh_event(&mut self, event: DshEvent, log: &[u8]) -> (r: EventEffect)
        ensures
            ({
                let port = match event@ {
                    DshEventView::Ready { url } => url_port(url),
                    _ => None,
                };
                &&& final(self)@ == old(self)@.after(event@, excerpt(log@), port)
                &&& r@ == ShellView::effect(event@, port)
            }),
            event@ matches DshEventView::Ready { url } ==> ready_port(url) is Some && is_parsable(
                url,
            ) && decimal_value(ready_port(url)->0) <= u16::MAX ==> {
                &&& final(self)@.dsh_port == Some(decimal_value(ready_port(url)->0) as u16)
                &&& navigation_allowed(url, final(self)@.dsh_port)
                &&& r@.navigate == Some(url)
            },
    {
        let port: Option<Option<u16>> = match &event {
            DshEvent::Ready { url } => port_of_url(url.as_str()),
            _ => None,
        };
        let tail: String = dsh_error_tail(log);
        proof {
            if let DshEventView::Ready { url } = event@ {
                if ready_port(url) is Some && decimal_value(ready_port(url)->0) <= u16::MAX {
                    announced_address_is_allowed(url);
                }
            }
        }
        self.apply_event(event, tail.as_str(), port)
    }

    /// Whether the content view may show `url`.
    pub fn allows(&self, url: &str) -> (r: bool)
        ensures
            r == navigation_allowed(url@, self@.dsh_port),
    {
        is_allowed_navigation(url, self.dsh_port)
    }

    /// Decides on an address that the content view is about to go to.
    pub fn on_navigation(&self, url: &str) -> (r: NavigationAction)
        ensures
            signalled_theme(url@) matches Some(t) ==> (r matches NavigationAction::FollowTheme(x)
                && x@ == t),
            signalled_theme(url@) is None ==> {
                &&& r is Show <==> navigation_allowed(url@, self@.dsh_port)
                &&& r is OpenInBrowser <==> !navigation_allowed(url@, self@.dsh_port)
            },
    {
        match parse_theme_navigation(url) {
            Some(theme) => NavigationAction::FollowTheme(theme),
            None => if self.allows(url) {
                NavigationAction::Show
            } else {
                NavigationAction::OpenInBrowser
            },
        }
    }

    /// Takes note of a chosen menu item; the new zoom of the content view, if it was one of the
    /// zoom items.
    pub fn choose_menu_item(&mut self, id: &str) -> (r: Option<u32>)
        ensures
            r is Some <==> id@ == "zoom_in"@ || id@ == "zoom_out"@ || id@ == "zoom_reset"@,
            id@ == "zoom_in"@ ==> is_next_step(old(self)@.zoom, r->0),
            id@ == "zoom_out"@ ==> is_prev_step(old(self)@.zoom, r->0),
            id@ == "zoom_reset"@ ==> r->0 == DEFAULT_ZOOM,
            r matches Some(percent) ==> is_step(percent),
            final(self)@ == (ShellView {
                zoom: match r {
                    Some(percent) => percent,
                    None => old(self)@.zoom,
                },
                ..old(self)@
            }),
    {
        proof {
            reveal_strlit("zoom_in");
            reveal_strlit("zoom_out");
            reveal_strlit("zoom_reset");
            assert("zoom_in"@.len() < "zoom_out"@.len() < "zoom_reset"@.len());
        }
        if same_text(id, "zoom_in") {
            self.zoom = next_zoom(self.zoom);
        } else if same_text(id, "zoom_out") {
            self.zoom = prev_zoom(self.zoom);
        } else if same_text(id, "zoom_reset") {
            self.zoom = DEFAULT_ZOOM;
        } else {
            return None;
        }
        proof {
            steps_rise();
            if id@ != "zoom_reset"@ {
                zoom_stays_in_range(old(self).zoom, self.zoom);
            }
        }
        Some(self.zoom)
    }
}

/// The shell starts out with a proper state, and with nothing but its own pages allowed.
pub proof fn shell_starts_locked(url: Seq<char>)
    ensures
        is_proper(ShellView::initial().state),
        navigation_allowed(url, ShellView::initial().dsh_port) == is_shell_page(url),
{
}

/// An event leaves the state proper and the zoom alone. Only the announcement of an address opens
/// a port, and a crash closes it; the end of a process that was asked to stop does not, because
/// the next one may be ready by then.
pub proof fn events_keep_the_shell_proper(
    shell: ShellView,
    event: DshEventView,
    log: Seq<char>,
    port: Option<Option<u16>>,
)
    requires
        is_proper(shell.state),
    ensures
        is_proper(shell.after(event, log, port).state),
        shell.after(event, log, port).zoom == shell.zoom,
        event is BootTimeout ==> shell.after(event, log, port).dsh_port == shell.dsh_port,
        event matches DshEventView::Exited { requested, .. } ==> shell.after(
            event,
            log,
            port,
        ).dsh_port == (if requested {
            shell.dsh_port
        } else {
            None
        }),
{
}

/// Something that happens to the shell.
pub enum ShellStepView {
    /// A new `dsh` is about to be started.
    StartOver,
    /// The state is replaced.
    SetStatus(DshStateView),
    /// A process reports an event.
    Event { event: DshEventView, log: Seq<char>, port: Option<Option<u16>> },
    /// A zoom is chosen.
    Zoom(u32),
}

impl ShellView {
    /// The shell after something that happens to it.
    pub open spec fn step(self, step: ShellStepView) -> ShellView {
        match step {
            ShellStepView::StartOver => self.start_over(),
            ShellStepView::SetStatus(state) => ShellView { state, ..self },
            ShellStepView::Event { event, log, port } => self.after(event, log, port),
            ShellStepView::Zoom(zoom) => ShellView { zoom, ..self },
        }
    }

    /// The shell after a sequence of things that happen to it.
    pub open spec fn run(self, steps: Seq<ShellStepView>) -> ShellView
        decreases steps.len(),
    {
        if steps.len() == 0 {
            self
        } else {
            self.run(steps.drop_last()).step(steps.last())
        }
    }
}

/// Whether `step` announces an address.
pub open spec fn announces(step: ShellStepView) -> bool {
    step matches ShellStepView::Event { event, .. } && event is Ready
}

/// From the moment a new `dsh` is about to be started, and whatever happens, no page but the
/// shell's own is allowed until an address is announced.
pub proof fn remote_pages_wait_for_ready(
    shell: ShellView,
    steps: Seq<ShellStepView>,
    url: Seq<char>,
)
    requires
        forall|i: int| 0 <= i < steps.len() ==> !announces(#[trigger] steps[i]),
    ensures
        shell.start_over().run(steps).dsh_port is None,
        navigation_allowed(url, shell.start_over().run(steps).dsh_port) == is_shell_page(url),
    decreases steps.len(),
{
    if steps.len() > 0 {
        assert forall|i: int| 0 <= i < steps.drop_last().len() implies !announces(
            #[trigger] steps.drop_last()[i],
        ) by {
            assert(steps.drop_last()[i] == steps[i]);
        }
        remote_pages_wait_for_ready(shell, steps.drop_last(), url);
        assert(!announces(steps[steps.len() - 1]));
    }
}

/// A theme signal is no page: it is never allowed as one.
pub proof fn theme_signals_are_no_pages(url: Seq<char>, port: Option<u16>)
    requires
        signalled_theme(url) is Some,
    ensures
        !navigation_allowed(url, port),
{
    reveal_strlit("dsh-theme://dark");
    reveal_strlit("dsh-theme://light");
    reveal_strlit("tauri://localhost");
    reveal_strlit("http://tauri.localhost");
    reveal_strlit("http://127.0.0.1:");
    assert(url[0] == 'd');
    if has_prefix(url, "tauri://localhost"@) {
        assert(url.take(17)[0] == "tauri://localhost"@[0]);
    }
    if has_prefix(url, LOOPBACK_PREFIX@) {
        assert(url.take(17)[0] == LOOPBACK_PREFIX@[0]);
    }
}

/// A state with an address has no error, and a state with an error has no address.
pub proof fn address_and_error_exclude_each_other(state: DshStateView)
    requires
        is_proper(state),
    ensures
        state.url is Some ==> state.error is None && state.error_kind is None,
        state.error is Some <==> state.error_kind is Some,
        state.error is Some ==> state.url is None,
{
}

/// What a process reports as its address is a ready address on this machine.
pub proof fn reported_address_is_local(inputs: Seq<ProcessInputView>, j: int)
    requires
        0 <= j < inputs.len(),
        reports_ready(inputs, j),
    ensures
        has_prefix(reaction_at(inputs, j).event->0->url, LOOPBACK_PREFIX@),
        ready_port(reaction_at(inputs, j).event->0->url) is Some,
{
    if let ProcessInputView::StdoutLine(line) = inputs[j] {
        read_address_is_local(line);
    }
}

/// The message about a late start stays: the end of the process, which the shell itself brings
/// about, changes nothing that is shown.
pub proof fn timeout_message_stays(
    inputs: Seq<ProcessInputView>,
    i: int,
    j: int,
    shell: ShellView,
    log: Seq<char>,
    port: Option<Option<u16>>,
)
    requires
        0 <= i < j < inputs.len(),
        reports_timeout(inputs, i),
        reports_exit(inputs, j),
    ensures
        shell.after(reaction_at(inputs, j).event->0, log, port) == shell,
        !ShellView::effect(reaction_at(inputs, j).event->0, port).publish,
{
    end_is_reported(inputs, j);
    assert(wants_stop(inputs, i));
}

/// The end of a process that nobody wanted to stop is shown as a crash, and its pages are closed.
pub proof fn unwanted_end_is_shown(
    inputs: Seq<ProcessInputView>,
    j: int,
    shell: ShellView,
    log: Seq<char>,
    port: Option<Option<u16>>,
)
    requires
        0 <= j < inputs.len(),
        reports_exit(inputs, j),
        forall|i: int| 0 <= i < j ==> !#[trigger] wants_stop(inputs, i),
    ensures
        ({
            let after = shell.after(reaction_at(inputs, j).event->0, log, port);
            &&& after.state.status == "stopped"@
            &&& after.state.error_kind == Some("crashed"@)
            &&& after.dsh_port is None
            &&& ShellView::effect(reaction_at(inputs, j).event->0, port).publish
        }),
{
    end_is_reported(inputs, j);
}

/// Whatever the shell was before, after the announcement of an address it is ready, at that
/// address, without an error, and the port is the announced one; the pages are told, and the
/// content view goes to the address if it makes sense.
pub proof fn announcement_is_shown(
    shell: ShellView,
    url: Seq<char>,
    log: Seq<char>,
    port: Option<Option<u16>>,
)
    ensures
        ({
            let event = DshEventView::Ready { url };
            let after = shell.after(event, log, port);
            &&& after.state.status == "ready"@
            &&& after.state.url == Some(url)
            &&& after.state.error is None
            &&& after.state.error_kind is None
            &&& after.zoom == shell.zoom
            &&& port is None ==> after.dsh_port is None
            &&& port matches Some(p) ==> after.dsh_port == p
            &&& ShellView::effect(event, port).publish
            &&& port is Some ==> ShellView::effect(event, port).navigate == Some(url)
            &&& port is None ==> ShellView::effect(event, port).navigate is None
        }),
{
}

/// Whatever the shell was before, a late start and a crash are shown as what they are, with the
/// end of the log, and the pages are told; an end that was asked for changes nothing.
pub proof fn failures_are_shown(
    shell: ShellView,
    exit_code: Option<i32>,
    log: Seq<char>,
    port: Option<Option<u16>>,
)
    ensures
        ({
            let event = DshEventView::BootTimeout;
            let after = shell.after(event, log, port);
            &&& after.state.status == "error"@
            &&& after.state.url is None
            &&& after.state.error == Some("dsh 启动超时。最近日志：\n"@ + log)
            &&& after.state.error_kind == Some("boot_timeout"@)
            &&& after.dsh_port == shell.dsh_port
            &&& after.zoom == shell.zoom
            &&& ShellView::effect(event, port).publish
            &&& ShellView::effect(event, port).navigate is None
        }),
        ({
            let event = DshEventView::Exited { exit_code, requested: false };
            let after = shell.after(event, log, port);
            &&& after.state.status == "stopped"@
            &&& after.state.url is None
            &&& after.state.error == Some("dsh 进程已退出。最近日志：\n"@ + log)
            &&& after.state.error_kind == Some("crashed"@)
            &&& after.dsh_port is None
            &&& after.zoom == shell.zoom
            &&& ShellView::effect(event, port).publish
            &&& ShellView::effect(event, port).navigate is None
        }),
        ({
            let event = DshEventView::Exited { exit_code, requested: true };
            &&& shell.after(event, log, port) == shell
            &&& !ShellView::effect(event, port).publish
            &&& ShellView::effect(event, port).navigate is None
        }),
{
}

/// What the states that the shell sets itself say: nothing at first, then that a start is under
/// way; and of a failure, what it is, without an address.
pub proof fn states_say_what_they_are_for(
    url: Seq<char>,
    status: Seq<char>,
    error: Seq<char>,
    kind: Seq<char>,
)
    ensures
        DshStateView::initial().status.len() == 0,
        DshStateView::initial().url is None,
        DshStateView::initial().error is None,
        DshStateView::initial().error_kind is None,
        DshStateView::starting().status == "starting"@,
        DshStateView::starting().url is None,
        DshStateView::starting().error is None,
        DshStateView::starting().error_kind is None,
        DshStateView::ready(url).status == "ready"@,
        DshStateView::ready(url).url == Some(url),
        DshStateView::ready(url).error is None,
        DshStateView::ready(url).error_kind is None,
        DshStateView::failed(status, error, kind).status == status,
        DshStateView::failed(status, error, kind).url is None,
        DshStateView::failed(status, error, kind).error == Some(error),
        DshStateView::failed(status, error, kind).error_kind == Some(kind),
        ShellView::initial().state == DshStateView::initial(),
        ShellView::initial().dsh_port is None,
        ShellView::initial().zoom == 100,
{
}

/// Starting over closes the port and touches nothing else.
pub proof fn starting_over_only_closes_the_port(shell: ShellView)
    ensures
        shell.start_over().dsh_port is None,
        shell.start_over().state == shell.state,
        shell.start_over().zoom == shell.zoom,
{
}

/// A log that is short enough once decoded is quoted whole; of a longer one, the last 2048 bytes
/// are.
pub proof fn end_of_the_log_is_quoted(log: Seq<u8>, front: Seq<u8>, end: Seq<u8>)
    ensures
        encode_utf8(utf8_lossy(log)).len() <= 2048 ==> excerpt(log) == utf8_lossy(log),
        encode_utf8(utf8_lossy(log)) == front + end && end.len() == 2048 && front.len() > 0
            ==> excerpt(log) == utf8_lossy(end),
{
    if encode_utf8(utf8_lossy(log)) == front + end {
        assert((front + end).skip(front.len() as int) =~= end);
    }
}

/// The announced port is the number that the address holds, for every number that is a port.
pub proof fn announced_port_is_the_one_written(url: Seq<char>, digits: Seq<char>)
    requires
        ready_port(url) == Some(digits),
    ensures
        decimal_value(digits) <= 65535 ==> {
            &&& announced_port(url) is Some
            &&& announced_port(url)->0 is Some
            &&& announced_port(url)->0->0 == decimal_value(digits)
        },
        decimal_value(digits) > 65535 ==> announced_port(url) is None,
{
    accepted_has_ready_form(url);
    digits_stand_for_naturals(digits);
}

/// The views of what the shell tells show all there is.
pub proof fn shell_views_show_everything(state: DshState, effect: EventEffect)
    ensures
        state@.status == state.status@,
        state@.url == opt_text(state.url),
        state@.error == opt_text(state.error),
        state@.error_kind == opt_text(state.error_kind),
        effect@.publish == effect.publish,
        effect@.navigate == opt_text(effect.navigate),
{
}

} // verus!
