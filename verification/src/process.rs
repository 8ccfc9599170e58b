//! The life of a `dsh` process: how it is started, and what its output, its end and the passing
//! of time lead to.

use crate::paths::{join, join_path, names_are_put_behind_directories};
use crate::ready::{parse_ready_line, ready_line_url};
use crate::text::{opt_str, opt_text, texts};
use vstd::prelude::*;
use vstd::utf8::encode_utf8;

verus! {

/// A length of time.
#[derive(Debug, Clone, Copy, PartialEq, Eq, Structural)]
pub struct Span {
    pub secs: u64,
    /// Billionths of a second, less than a second in all.
    pub nanos: u32,
}

/// A whole number of seconds.
pub fn whole_secs(secs: u64) -> (r: Span)
    ensures
        r == (Span { secs, nanos: 0 }),
{
    Span { secs, nanos: 0 }
}

/// Runs `dsh` in the background and kills it when standard input ends, which is what happens
/// when the application goes away in whatever manner.
pub const DSH_WRAPPER_SCRIPT: &'static str = r#"
"$1" web --no-open --port 0 &
pid=$!
while IFS= read -r _; do :; done
kill "$pid" 2>/dev/null
wait "$pid"
"#;

/// How many bytes of standard error are kept.
pub const STDERR_TAIL_BYTES: usize = 64 * 1024;

/// How a `dsh` process is started and watched.
#[derive(Debug, Clone)]
pub struct DshConfig {
    pub program: String,
    pub args: Vec<String>,
    /// The search path of the process, if it is not the inherited one.
    pub child_path: Option<String>,
    /// How long to wait for the ready line.
    pub boot_timeout: Span,
    /// How long the process may take to end when it is asked to, before it is killed.
    pub kill_grace: Span,
    /// Where what the process writes is logged, if it is.
    pub log_file: Option<String>,
    /// Whether the application holds the other end of standard input.
    pub stdin_pipe: bool,
}

/// The directory of the logs in the home directory.
pub open spec fn log_dir_in(home: Option<Seq<char>>) -> Option<Seq<char>> {
    match home {
        Some(h) => Some(join_path(h, "Library/Logs/dsh-ui"@)),
        None => None,
    }
}

/// The directory of the logs in the home directory, if there is one.
pub fn log_dir(home: Option<&str>) -> (r: Option<String>)
    ensures
        opt_text(r) == log_dir_in(opt_str(home)),
{
    match home {
        Some(h) => Some(join(h, "Library/Logs/dsh-ui")),
        None => None,
    }
}

impl DshConfig {
    /// How the real `dsh` is started: through the wrapper, on a port that the system picks.
    pub fn production(
        dsh: &str,
        child_path: Option<String>,
        boot_timeout: Span,
        home: Option<&str>,
    ) -> (r: DshConfig)
        ensures
            r.program@ == "/bin/sh"@,
            texts(r.args@) == seq!["-c"@, DSH_WRAPPER_SCRIPT@, "sh"@, dsh@],
            r.child_path == child_path,
            r.boot_timeout == boot_timeout,
            r.kill_grace == (Span { secs: 3, nanos: 0 }),
            opt_text(r.log_file) == (match log_dir_in(opt_str(home)) {
                Some(dir) => Some(join_path(dir, "dsh.log"@)),
                None => None,
            }),
            r.stdin_pipe,
    {
        let mut args: Vec<String> = Vec::new();
        args.push("-c".to_owned());
        args.push(DSH_WRAPPER_SCRIPT.to_owned());
        args.push("sh".to_owned());
        args.push(dsh.to_owned());
        proof {
            assert(texts(args@) =~= seq!["-c"@, DSH_WRAPPER_SCRIPT@, "sh"@, dsh@]);
        }
        let log_file: Option<String> = match log_dir(home) {
            Some(dir) => Some(join(dir.as_str(), "dsh.log")),
            None => None,
        };
        DshConfig {
            program: "/bin/sh".to_owned(),
            args,
            child_path,
            boot_timeout,
            kill_grace: whole_secs(3),
            log_file,
            stdin_pipe: true,
        }
    }
}

/// What a process reports to the shell.
#[derive(Debug, Clone, PartialEq, Eq)]
pub enum DshEvent {
    /// It listens at this address.
    Ready { url: String },
    /// It did not become ready in time.
    BootTimeout,
    /// It has ended; `requested` tells whether the application asked it to.
    Exited { exit_code: Option<i32>, requested: bool },
}

/// The view of a [`DshEvent`].
pub enum DshEventView {
    Ready { url: Seq<char> },
    BootTimeout,
    Exited { exit_code: Option<i32>, requested: bool },
}

impl View for DshEvent {
    type V = DshEventView;

    open spec fn view(&self) -> DshEventView {
        match self {
            DshEvent::Ready { url } => DshEventView::Ready { url: url@ },
            DshEvent::BootTimeout => DshEventView::BootTimeout,
            DshEvent::Exited { exit_code, requested } => DshEventView::Exited {
                exit_code: *exit_code,
                requested: *requested,
            },
        }
    }
}

/// Something that happens to a process.
#[derive(Debug)]
pub enum ProcessInput {
    /// It wrote a line to standard output.
    StdoutLine(String),
    /// It wrote a line to standard error.
    StderrLine(String),
    /// Its standard output has ended and so has the process.
    Ended { exit_code: Option<i32> },
    /// The time that it has to become ready is over.
    BootDeadline,
    /// The application wants it to stop.
    StopRequest,
}

/// The view of a [`ProcessInput`].
pub enum ProcessInputView {
    StdoutLine(Seq<char>),
    StderrLine(Seq<char>),
    Ended { exit_code: Option<i32> },
    BootDeadline,
    StopRequest,
}

impl View for ProcessInput {
    type V = ProcessInputView;

    open spec fn view(&self) -> ProcessInputView {
        match self {
            ProcessInput::StdoutLine(line) => ProcessInputView::StdoutLine(line@),
            ProcessInput::StderrLine(line) => ProcessInputView::StderrLine(line@),
            ProcessInput::Ended { exit_code } => ProcessInputView::Ended { exit_code: *exit_code },
            ProcessInput::BootDeadline => ProcessInputView::BootDeadline,
            ProcessInput::StopRequest => ProcessInputView::StopRequest,
        }
    }
}

/// What is to be done about it: first report the event, if there is one, then ask the process to
/// end, if it is to.
#[derive(Debug)]
pub struct Reaction {
    pub event: Option<DshEvent>,
    pub terminate: bool,
}

/// The view of a [`Reaction`].
pub struct ReactionView {
    pub event: Option<DshEventView>,
    pub terminate: bool,
}

impl View for Reaction {
    type V = ReactionView;

    open spec fn view(&self) -> ReactionView {
        ReactionView {
            event: match self.event {
                Some(event) => Some(event@),
                None => None,
            },
            terminate: self.terminate,
        }
    }
}

/// What is remembered of a process.
pub struct Lifecycle {
    ready: bool,
    timeout_reported: bool,
    stop_requested: bool,
    exit_reported: bool,
    stderr_tail: Vec<u8>,
}

/// The view of a [`Lifecycle`].
pub struct LifecycleView {
    pub ready: bool,
    pub timeout_reported: bool,
    pub stop_requested: bool,
    pub exit_reported: bool,
    pub stderr_tail: Seq<u8>,
}

impl View for Lifecycle {
    type V = LifecycleView;

    closed spec fn view(&self) -> LifecycleView {
        LifecycleView {
            ready: self.ready,
            timeout_reported: self.timeout_reported,
            stop_requested: self.stop_requested,
            exit_reported: self.exit_reported,
            stderr_tail: self.stderr_tail@,
        }
    }
}

/// The last `n` bytes of `s`, or all of it if it is no longer.
pub open spec fn last_bytes(s: Seq<u8>, n: int) -> Seq<u8> {
    if s.len() <= n {
        s
    } else {
        s.skip(s.len() - n)
    }
}

/// A line as it stands in the log: encoded, with a line feed behind it.
pub open spec fn logged(line: Seq<char>) -> Seq<u8> {
    encode_utf8(line).push(10)
}

impl LifecycleView {
    /// A process that was just started.
    pub open spec fn start() -> LifecycleView {
        LifecycleView {
            ready: false,
            timeout_reported: false,
            stop_requested: false,
            exit_reported: false,
            stderr_tail: Seq::empty(),
        }
    }

    /// What is remembered after `input`.
    pub open spec fn after(self, input: ProcessInputView) -> LifecycleView {
        match input {
            ProcessInputView::StdoutLine(line) => LifecycleView {
                ready: self.ready || ready_line_url(line) is Some,
                ..self
            },
            ProcessInputView::StderrLine(line) => LifecycleView {
                stderr_tail: last_bytes(
                    self.stderr_tail + logged(line),
                    STDERR_TAIL_BYTES as int,
                ),
                ..self
            },
            ProcessInputView::Ended { .. } => LifecycleView { exit_reported: true, ..self },
            ProcessInputView::BootDeadline => if self.ready || self.timeout_reported {
                self
            } else {
                LifecycleView { timeout_reported: true, stop_requested: true, ..self }
            },
            ProcessInputView::StopRequest => LifecycleView { stop_requested: true, ..self },
        }
    }

    /// What is to be done about `input`.
    pub open spec fn reaction(self, input: ProcessInputView) -> ReactionView {
        match input {
            ProcessInputView::StdoutLine(line) => ReactionView {
                event: match ready_line_url(line) {
                    Some(url) => if self.ready || self.exit_reported {
                        None
                    } else {
                        Some(DshEventView::Ready { url })
                    },
                    None => None,
                },
                terminate: false,
            },
            ProcessInputView::StderrLine(_) => ReactionView { event: None, terminate: false },
            ProcessInputView::Ended { exit_code } => ReactionView {
                event: if self.exit_reported {
                    None
                } else {
                    Some(DshEventView::Exited { exit_code, requested: self.stop_requested })
                },
                terminate: false,
            },
            ProcessInputView::BootDeadline => if self.ready || self.timeout_reported {
                ReactionView { event: None, terminate: false }
            } else {
                ReactionView {
                    event: Some(DshEventView::BootTimeout),
                    terminate: !self.stop_requested,
                }
            },
            ProcessInputView::StopRequest => ReactionView {
                event: None,
                terminate: !self.stop_requested,
            },
        }
    }
}

impl Lifecycle {
    /// A process that was just started.
    pub fn new() -> (r: Lifecycle)
        ensures
            r@ == LifecycleView::start(),
    {
        let r: Lifecycle = Lifecycle {
            ready: false,
            timeout_reported: false,
            stop_requested: false,
            exit_reported: false,
            stderr_tail: Vec::new(),
        };
        proof {
            assert(r@.stderr_tail =~= Seq::<u8>::empty());
        }
        r
    }

    /// Takes note of `input` and tells what is to be done about it.
    pub fn step(&mut self, input: ProcessInput) -> (r: Reaction)
        ensures
            final(self)@ == old(self)@.after(input@),
            r@ == old(self)@.reaction(input@),
    {
        match input {
            ProcessInput::StdoutLine(line) => {
                let mut event: Option<DshEvent> = None;
                match parse_ready_line(line.as_str()) {
                    Some(url) => {
                        if !self.ready && !self.exit_reported {
                            event = Some(DshEvent::Ready { url });
                        }
                        self.ready = true;
                    },
                    None => {},
                }
                Reaction { event, terminate: false }
            },
            ProcessInput::StderrLine(line) => {
                self.keep(line.as_str());
                Reaction { event: None, terminate: false }
            },
            ProcessInput::Ended { exit_code } => {
                let event: Option<DshEvent> = if self.exit_reported {
                    None
                } else {
                    Some(DshEvent::Exited { exit_code, requested: self.stop_requested })
                };
                self.exit_reported = true;
                Reaction { event, terminate: false }
            },
            ProcessInput::BootDeadline => {
                if self.ready || self.timeout_reported {
                    Reaction { event: None, terminate: false }
                } else {
                    self.timeout_reported = true;
                    let terminate: bool = self.request_stop();
                    Reaction { event: Some(DshEvent::BootTimeout), terminate }
                }
            },
            ProcessInput::StopRequest => {
                let terminate: bool = self.request_stop();
                Reaction { event: None, terminate }
            },
        }
    }

    /// Notes that the process is to stop; tells whether it has to be asked to, which it is only
    /// once.
    fn request_stop(&mut self) -> (r: bool)
        ensures
            final(self)@ == (LifecycleView { stop_requested: true, ..old(self)@ }),
            r == !old(self)@.stop_requested,
    {
        let first: bool = !self.stop_requested;
        self.stop_requested = true;
        first
    }

    /// Adds a line to what is kept of standard error.
    fn keep(&mut self, line: &str)
        ensures
            final(self)@ == (LifecycleView {
                stderr_tail: last_bytes(
                    old(self)@.stderr_tail + logged(line@),
                    STDERR_TAIL_BYTES as int,
                ),
                ..old(self)@
            }),
    {
        let bytes: &[u8] = line.as_bytes();
        let ghost before = self.stderr_tail@;
        self.stderr_tail.extend_from_slice(bytes);
        self.stderr_tail.push(10);
        let ghost whole = self.stderr_tail@;
        proof {
            assert(whole =~= before + logged(line@));
        }
        let len: usize = self.stderr_tail.len();
        if len > STDERR_TAIL_BYTES {
            self.stderr_tail = self.stderr_tail.split_off(len - STDERR_TAIL_BYTES);
            proof {
                assert(self.stderr_tail@ =~= whole.skip(len - STDERR_TAIL_BYTES));
            }
        }
    }

    /// What is kept of standard error: its end.
    pub fn stderr_tail(&self) -> (r: Vec<u8>)
        ensures
            r@ == self@.stderr_tail,
    {
        vstd::slice::slice_to_vec(self.stderr_tail.as_slice())
    }
}

/// Whether a process counts as running, given whether it has ended; `None` if that could not be
/// found out, in which case it does.
pub fn counts_as_running(ended: Option<bool>) -> (r: bool)
    ensures
        r == (ended != Some(true)),
{
    match ended {
        Some(e) => !e,
        None => true,
    }
}

/// How often to look whether a process that was asked to end has done so, in milliseconds.
pub const POLL_MILLIS: u64 = 50;

/// Whether to go on waiting for a process that was asked to end.
pub fn keep_waiting(running: bool, past_deadline: bool) -> (r: bool)
    ensures
        r == (running && !past_deadline),
{
    running && !past_deadline
}

/// What to do next about a process that is to end.
#[derive(Debug, Clone, Copy, PartialEq, Eq, Structural)]
pub enum StopAction {
    /// Send the signal that asks it to end.
    Terminate,
    /// Look again a little later.
    Wait,
    /// Send the signal that it cannot refuse, to it and to whatever it has left behind.
    Kill,
    /// Nothing more.
    Done,
}

/// How far the stopping of a process has come.
pub struct Stopping {
    asked: bool,
    killed: bool,
}

/// The view of a [`Stopping`].
pub struct StoppingView {
    pub asked: bool,
    pub killed: bool,
}

impl View for Stopping {
    type V = StoppingView;

    closed spec fn view(&self) -> StoppingView {
        StoppingView { asked: self.asked, killed: self.killed }
    }
}

/// What is seen of a process that is to end.
pub struct StopSight {
    pub running: bool,
    /// Whether the time that it has to end is over.
    pub past_deadline: bool,
}

impl StoppingView {
    /// Nothing was done yet.
    pub open spec fn start() -> StoppingView {
        StoppingView { asked: false, killed: false }
    }

    /// What to do next, given what is seen.
    pub open spec fn action(self, sight: StopSight) -> StopAction {
        if !self.asked {
            StopAction::Terminate
        } else if self.killed {
            StopAction::Done
        } else if sight.running && !sight.past_deadline {
            StopAction::Wait
        } else {
            StopAction::Kill
        }
    }

    /// How far things are when that was done.
    pub open spec fn after(self, sight: StopSight) -> StoppingView {
        StoppingView { asked: true, killed: self.killed || self.action(sight) is Kill }
    }
}

impl Stopping {
    /// Nothing was done yet.
    pub fn new() -> (r: Stopping)
        ensures
            r@ == StoppingView::start(),
    {
        Stopping { asked: false, killed: false }
    }

    /// Tells what to do next about a process, given whether it is running and whether the time
    /// that it has to end is over, and takes note that it is done.
    pub fn step(&mut self, running: bool, past_deadline: bool) -> (r: StopAction)
        ensures
            r == old(self)@.action(StopSight { running, past_deadline }),
            final(self)@ == old(self)@.after(StopSight { running, past_deadline }),
    {
        if !self.asked {
            self.asked = true;
            StopAction::Terminate
        } else if self.killed {
            StopAction::Done
        } else if keep_waiting(running, past_deadline) {
            StopAction::Wait
        } else {
            self.killed = true;
            StopAction::Kill
        }
    }
}

/// How far the stopping is after a sequence of sights, from the start.
pub open spec fn stopping_after(sights: Seq<StopSight>) -> StoppingView
    decreases sights.len(),
{
    if sights.len() == 0 {
        StoppingView::start()
    } else {
        stopping_after(sights.drop_last()).after(sights.last())
    }
}

/// What is done upon the sight at `i`.
pub open spec fn stop_action_at(sights: Seq<StopSight>, i: int) -> StopAction {
    stopping_after(sights.take(i)).action(sights[i])
}

/// Whether the process is seen to run with time left at `i`.
pub open spec fn has_grace(sights: Seq<StopSight>, i: int) -> bool {
    sights[i].running && !sights[i].past_deadline
}

proof fn lemma_stopping_after(sights: Seq<StopSight>, j: int)
    requires
        0 <= j <= sights.len(),
    ensures
        stopping_after(sights.take(j)).asked <==> j > 0,
        stopping_after(sights.take(j)).killed <==> exists|i: int|
            1 <= i < j && !#[trigger] has_grace(sights, i),
    decreases j,
{
    if j > 0 {
        lemma_stopping_after(sights, j - 1);
        assert(sights.take(j).drop_last() =~= sights.take(j - 1));
        assert(sights.take(j).last() == sights[j - 1]);
        if j > 1 && !has_grace(sights, j - 1) {
            assert(stopping_after(sights.take(j)).killed);
        }
    }
}

/// A process is stopped in order: it is asked to end at once and only once, then it is waited for
/// while it runs and has time left, and it is killed once, the first time it is seen to have
/// ended or to have no time left.
pub proof fn stopping_goes_in_order(sights: Seq<StopSight>, j: int)
    requires
        0 <= j < sights.len(),
    ensures
        stop_action_at(sights, j) is Terminate <==> j == 0,
        stop_action_at(sights, j) is Wait <==> j > 0 && forall|i: int|
            1 <= i <= j ==> #[trigger] has_grace(sights, i),
        stop_action_at(sights, j) is Kill <==> {
            &&& j > 0
            &&& !has_grace(sights, j)
            &&& forall|i: int| 1 <= i < j ==> #[trigger] has_grace(sights, i)
        },
{
    lemma_stopping_after(sights, j);
    if forall|i: int| 1 <= i < j ==> #[trigger] has_grace(sights, i) {
        assert(!stopping_after(sights.take(j)).killed);
        if has_grace(sights, j) {
            assert forall|i: int| 1 <= i <= j implies #[trigger] has_grace(sights, i) by {}
        }
    } else {
        let i = choose|i: int| 1 <= i < j && !#[trigger] has_grace(sights, i);
        assert(!has_grace(sights, i));
    }
}

/// A process is never killed while it is seen to run with time left, nor before it was asked to
/// end, nor twice.
pub proof fn no_kill_within_the_grace(sights: Seq<StopSight>, i: int, j: int)
    requires
        0 <= i < j < sights.len(),
        stop_action_at(sights, j) is Kill,
    ensures
        !sights[j].running || sights[j].past_deadline,
        stop_action_at(sights, 0) is Terminate,
        !(stop_action_at(sights, i) is Kill),
{
    stopping_goes_in_order(sights, 0);
    stopping_goes_in_order(sights, i);
    stopping_goes_in_order(sights, j);
    if i > 0 {
        assert(has_grace(sights, i));
    }
}

/// What is remembered after a sequence of inputs, from the start.
pub open spec fn state_after(inputs: Seq<ProcessInputView>) -> LifecycleView
    decreases inputs.len(),
{
    if inputs.len() == 0 {
        LifecycleView::start()
    } else {
        state_after(inputs.drop_last()).after(inputs.last())
    }
}

/// What is done about the input at `i`.
pub open spec fn reaction_at(inputs: Seq<ProcessInputView>, i: int) -> ReactionView {
    state_after(inputs.take(i)).reaction(inputs[i])
}

/// Whether the input at `i` reports that the process is ready.
pub open spec fn reports_ready(inputs: Seq<ProcessInputView>, i: int) -> bool {
    reaction_at(inputs, i).event is Some && reaction_at(inputs, i).event->0 is Ready
}

/// Whether the input at `i` reports that the process did not become ready in time.
pub open spec fn reports_timeout(inputs: Seq<ProcessInputView>, i: int) -> bool {
    reaction_at(inputs, i).event is Some && reaction_at(inputs, i).event->0 is BootTimeout
}

/// Whether the input at `i` reports that the process has ended.
pub open spec fn reports_exit(inputs: Seq<ProcessInputView>, i: int) -> bool {
    reaction_at(inputs, i).event is Some && reaction_at(inputs, i).event->0 is Exited
}

/// Whether the input at `i` is a line that tells that the process is ready.
pub open spec fn is_ready_line(inputs: Seq<ProcessInputView>, i: int) -> bool {
    inputs[i] matches ProcessInputView::StdoutLine(line) && ready_line_url(line) is Some
}

proof fn lemma_next_state(inputs: Seq<ProcessInputView>, i: int)
    requires
        0 <= i < inputs.len(),
    ensures
        state_after(inputs.take(i + 1)) == state_after(inputs.take(i)).after(inputs[i]),
{
    assert(inputs.take(i + 1).drop_last() =~= inputs.take(i));
}

/// Nothing that is remembered of a process is forgotten.
proof fn lemma_flags_stay(inputs: Seq<ProcessInputView>, i: int, j: int)
    requires
        0 <= i <= j <= inputs.len(),
    ensures
        ({
            let a = state_after(inputs.take(i));
            let b = state_after(inputs.take(j));
            &&& a.ready ==> b.ready
            &&& a.timeout_reported ==> b.timeout_reported
            &&& a.stop_requested ==> b.stop_requested
            &&& a.exit_reported ==> b.exit_reported
        }),
    decreases j - i,
{
    if i < j {
        lemma_flags_stay(inputs, i, j - 1);
        lemma_next_state(inputs, j - 1);
    }
}

/// Each kind of event is reported once at most, and the process is asked to end once at most.
pub proof fn nothing_is_reported_twice(inputs: Seq<ProcessInputView>, i: int, j: int)
    requires
        0 <= i < j < inputs.len(),
    ensures
        !(reports_ready(inputs, i) && reports_ready(inputs, j)),
        !(reports_timeout(inputs, i) && reports_timeout(inputs, j)),
        !(reports_exit(inputs, i) && reports_exit(inputs, j)),
        !(reaction_at(inputs, i).terminate && reaction_at(inputs, j).terminate),
{
    lemma_next_state(inputs, i);
    lemma_flags_stay(inputs, i + 1, j);
}

/// Nothing is heard of an address once the end of the process was reported.
pub proof fn no_ready_after_exit(inputs: Seq<ProcessInputView>, i: int, j: int)
    requires
        0 <= i < j < inputs.len(),
        reports_exit(inputs, i),
    ensures
        !reports_ready(inputs, j),
{
    lemma_next_state(inputs, i);
    lemma_flags_stay(inputs, i + 1, j);
}

/// A process that was reported ready is never reported late.
pub proof fn no_timeout_once_ready(inputs: Seq<ProcessInputView>, i: int, j: int)
    requires
        0 <= i < j < inputs.len(),
        reports_ready(inputs, i),
    ensures
        !reports_timeout(inputs, j),
{
    lemma_next_state(inputs, i);
    lemma_flags_stay(inputs, i + 1, j);
}

proof fn lemma_ready_since(inputs: Seq<ProcessInputView>, j: int)
    requires
        0 <= j <= inputs.len(),
    ensures
        state_after(inputs.take(j)).ready <==> exists|i: int|
            0 <= i < j && #[trigger] is_ready_line(inputs, i),
    decreases j,
{
    if j > 0 {
        lemma_ready_since(inputs, j - 1);
        lemma_next_state(inputs, j - 1);
        if is_ready_line(inputs, j - 1) {
            assert(state_after(inputs.take(j)).ready);
        }
    }
}

/// The first ready line is reported, with its address, unless the process has ended; later ones
/// are not.
pub proof fn first_ready_line_is_reported(inputs: Seq<ProcessInputView>, j: int)
    requires
        0 <= j < inputs.len(),
    ensures
        reports_ready(inputs, j) <==> {
            &&& is_ready_line(inputs, j)
            &&& !(exists|i: int| 0 <= i < j && #[trigger] is_ready_line(inputs, i))
            &&& !(exists|i: int| 0 <= i < j && #[trigger] inputs[i] is Ended)
        },
        reports_ready(inputs, j) ==> Some(reaction_at(inputs, j).event->0->url) == ready_line_url(
            inputs[j]->StdoutLine_0,
        ),
{
    lemma_ready_since(inputs, j);
    lemma_exit_since(inputs, j);
}

proof fn lemma_timeout_since(inputs: Seq<ProcessInputView>, j: int)
    requires
        0 <= j <= inputs.len(),
    ensures
        state_after(inputs.take(j)).timeout_reported <==> exists|i: int|
            0 <= i < j && #[trigger] reports_timeout(inputs, i),
    decreases j,
{
    if j > 0 {
        lemma_timeout_since(inputs, j - 1);
        lemma_next_state(inputs, j - 1);
        if reports_timeout(inputs, j - 1) {
            assert(state_after(inputs.take(j)).timeout_reported);
        }
    }
}

/// A deadline that passes before any ready line is reported, unless one was reported before.
pub proof fn late_process_is_reported(inputs: Seq<ProcessInputView>, j: int)
    requires
        0 <= j < inputs.len(),
    ensures
        reports_timeout(inputs, j) <==> {
            &&& inputs[j] is BootDeadline
            &&& !(exists|i: int| 0 <= i < j && #[trigger] is_ready_line(inputs, i))
            &&& !(exists|i: int| 0 <= i < j && #[trigger] reports_timeout(inputs, i))
        },
{
    lemma_ready_since(inputs, j);
    lemma_timeout_since(inputs, j);
}

/// Whether the input at `i` makes the application want the process to stop.
pub open spec fn wants_stop(inputs: Seq<ProcessInputView>, i: int) -> bool {
    inputs[i] is StopRequest || reports_timeout(inputs, i)
}

proof fn lemma_stop_since(inputs: Seq<ProcessInputView>, j: int)
    requires
        0 <= j <= inputs.len(),
    ensures
        state_after(inputs.take(j)).stop_requested <==> exists|i: int|
            0 <= i < j && #[trigger] wants_stop(inputs, i),
    decreases j,
{
    if j > 0 {
        lemma_stop_since(inputs, j - 1);
        lemma_next_state(inputs, j - 1);
        if wants_stop(inputs, j - 1) {
            assert(state_after(inputs.take(j)).stop_requested);
        }
    }
}

/// The process is asked to end just when the application first wants it to stop.
pub proof fn first_stop_terminates(inputs: Seq<ProcessInputView>, j: int)
    requires
        0 <= j < inputs.len(),
    ensures
        reaction_at(inputs, j).terminate <==> wants_stop(inputs, j) && !(exists|i: int|
            0 <= i < j && #[trigger] wants_stop(inputs, i)),
{
    lemma_stop_since(inputs, j);
}

proof fn lemma_exit_since(inputs: Seq<ProcessInputView>, j: int)
    requires
        0 <= j <= inputs.len(),
    ensures
        state_after(inputs.take(j)).exit_reported <==> exists|i: int|
            0 <= i < j && #[trigger] inputs[i] is Ended,
    decreases j,
{
    if j > 0 {
        lemma_exit_since(inputs, j - 1);
        lemma_next_state(inputs, j - 1);
        if inputs[j - 1] is Ended {
            assert(state_after(inputs.take(j)).exit_reported);
        }
    }
}

/// The end of a process is reported with its exit code, and as requested just where the
/// application wanted it to stop before.
pub proof fn end_is_reported(inputs: Seq<ProcessInputView>, j: int)
    requires
        0 <= j < inputs.len(),
    ensures
        reports_exit(inputs, j) <==> inputs[j] is Ended && !(exists|i: int|
            0 <= i < j && #[trigger] inputs[i] is Ended),
        reports_exit(inputs, j) ==> {
            &&& reaction_at(inputs, j).event->0->exit_code == inputs[j]->exit_code
            &&& reaction_at(inputs, j).event->0->requested <==> exists|i: int|
                0 <= i < j && #[trigger] wants_stop(inputs, i)
        },
{
    lemma_exit_since(inputs, j);
    lemma_stop_since(inputs, j);
}

/// All that the process wrote to standard error.
pub open spec fn stderr_log(inputs: Seq<ProcessInputView>) -> Seq<u8>
    decreases inputs.len(),
{
    if inputs.len() == 0 {
        Seq::empty()
    } else {
        match inputs.last() {
            ProcessInputView::StderrLine(line) => stderr_log(inputs.drop_last()) + logged(line),
            _ => stderr_log(inputs.drop_last()),
        }
    }
}

/// What is kept of standard error is its end, as much of it as is to be kept.
pub proof fn tail_is_the_end_of_the_log(inputs: Seq<ProcessInputView>)
    ensures
        state_after(inputs).stderr_tail == last_bytes(
            stderr_log(inputs),
            STDERR_TAIL_BYTES as int,
        ),
        state_after(inputs).stderr_tail.len() <= STDERR_TAIL_BYTES,
    decreases inputs.len(),
{
    if inputs.len() > 0 {
        tail_is_the_end_of_the_log(inputs.drop_last());
        if let ProcessInputView::StderrLine(line) = inputs.last() {
            lemma_last_bytes_extend(
                stderr_log(inputs.drop_last()),
                logged(line),
                STDERR_TAIL_BYTES as int,
            );
        }
    }
}

/// Only the end of what came before matters for the end of the whole.
proof fn lemma_last_bytes_extend(a: Seq<u8>, b: Seq<u8>, n: int)
    requires
        n >= 0,
    ensures
        last_bytes(last_bytes(a, n) + b, n) == last_bytes(a + b, n),
        last_bytes(a + b, n).len() <= n,
{
    assert(last_bytes(last_bytes(a, n) + b, n) =~= last_bytes(a + b, n));
}

/// The last bytes are an end of the whole, as long as asked for or the whole.
pub proof fn last_bytes_are_an_end(s: Seq<u8>, n: int)
    requires
        n >= 0,
    ensures
        exists|front: Seq<u8>| s == #[trigger] (front + last_bytes(s, n)),
        s.len() <= n ==> last_bytes(s, n) == s,
        s.len() > n ==> last_bytes(s, n).len() == n,
{
    let k = s.len() - last_bytes(s, n).len();
    assert(s =~= s.take(k) + last_bytes(s, n));
}

/// The log holds every line of standard error, encoded and with a line feed behind it, in their
/// order, and nothing else.
pub proof fn log_holds_standard_error(inputs: Seq<ProcessInputView>, input: ProcessInputView)
    ensures
        stderr_log(Seq::<ProcessInputView>::empty()) == Seq::<u8>::empty(),
        input matches ProcessInputView::StderrLine(line) ==> stderr_log(inputs.push(input))
            == stderr_log(inputs) + encode_utf8(line) + seq![10u8],
        !(input is StderrLine) ==> stderr_log(inputs.push(input)) == stderr_log(inputs),
        input matches ProcessInputView::StderrLine(line) ==> logged(line) == encode_utf8(line)
            + seq![10u8],
{
    assert(inputs.push(input).drop_last() =~= inputs);
    if let ProcessInputView::StderrLine(line) = input {
        assert(logged(line) =~= encode_utf8(line) + seq![10u8]);
        assert(stderr_log(inputs.push(input)) =~= stderr_log(inputs) + encode_utf8(line) + seq![
            10u8,
        ]);
    }
}

/// What a process has come to is what it came to before its last input, and that input.
pub proof fn inputs_are_taken_one_by_one(inputs: Seq<ProcessInputView>, input: ProcessInputView)
    ensures
        state_after(Seq::<ProcessInputView>::empty()) == LifecycleView::start(),
        state_after(inputs.push(input)) == state_after(inputs).after(input),
        reaction_at(inputs.push(input), inputs.len() as int) == state_after(inputs).reaction(input),
{
    assert(inputs.push(input).drop_last() =~= inputs);
    assert(inputs.push(input).take(inputs.len() as int) =~= inputs);
}

/// The logs are below the home directory, and nowhere where there is none.
pub proof fn logs_are_below_home(home: Seq<char>)
    ensures
        log_dir_in(None) is None,
        home.len() > 0 && home.last() != '/' ==> log_dir_in(Some(home)) == Some(
            home + "/Library/Logs/dsh-ui"@,
        ),
        home.len() > 0 && home.last() == '/' ==> log_dir_in(Some(home)) == Some(
            home + "Library/Logs/dsh-ui"@,
        ),
        home.len() == 0 ==> log_dir_in(Some(home)) == Some("Library/Logs/dsh-ui"@),
{
    reveal_strlit("Library/Logs/dsh-ui");
    reveal_strlit("/Library/Logs/dsh-ui");
    names_are_put_behind_directories(home, "Library/Logs/dsh-ui"@);
    assert(seq!['/'] + "Library/Logs/dsh-ui"@ =~= "/Library/Logs/dsh-ui"@);
    assert(home + seq!['/'] + "Library/Logs/dsh-ui"@ =~= home + "/Library/Logs/dsh-ui"@);
}

/// The views of what a process takes and gives show all there is.
pub proof fn process_views_show_everything(
    event: DshEvent,
    input: ProcessInput,
    reaction: Reaction,
)
    ensures
        event matches DshEvent::Ready { url } ==> event@ == (DshEventView::Ready { url: url@ }),
        event is BootTimeout ==> event@ is BootTimeout,
        event matches DshEvent::Exited { exit_code, requested } ==> event@ == (
        DshEventView::Exited { exit_code, requested }),
        input matches ProcessInput::StdoutLine(line) ==> input@ == ProcessInputView::StdoutLine(
            line@,
        ),
        input matches ProcessInput::StderrLine(line) ==> input@ == ProcessInputView::StderrLine(
            line@,
        ),
        input matches ProcessInput::Ended { exit_code } ==> input@ == (ProcessInputView::Ended {
            exit_code,
        }),
        input is BootDeadline ==> input@ is BootDeadline,
        input is StopRequest ==> input@ is StopRequest,
        reaction@.terminate == reaction.terminate,
        reaction@.event is Some <==> reaction.event is Some,
        reaction.event matches Some(e) ==> reaction@.event == Some(e@),
{
}

} // verus!
