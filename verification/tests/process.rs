use dsh_ui::process::{
    counts_as_running, keep_waiting, log_dir, whole_secs, DshConfig, DshEvent, Lifecycle,
    ProcessInput, Span, StopAction, Stopping, DSH_WRAPPER_SCRIPT, STDERR_TAIL_BYTES,
};
use dsh_ui::pty::{read_step, PtyConfig, PtyRead};

const READY_URL: &str = "http://127.0.0.1:45678/?token=testtoken";
const READY_LINE: &str = "dsh web: http://127.0.0.1:45678/?token=testtoken";

fn out(line: &str) -> ProcessInput {
    ProcessInput::StdoutLine(line.to_string())
}

fn err(line: &str) -> ProcessInput {
    ProcessInput::StderrLine(line.to_string())
}

/// Feeds inputs to a process that was just started; the events it reports.
fn events(process: &mut Lifecycle, inputs: Vec<ProcessInput>) -> Vec<DshEvent> {
    inputs.into_iter().filter_map(|input| process.step(input).event).collect()
}

#[test]
fn stderr_is_collected_to_tail_and_log_file() {
    let mut process = Lifecycle::new();
    let reported = events(
        &mut process,
        vec![err("boom"), err("warning line"), out("dsh web: http://127.0.0.1:45678/?token=t")],
    );
    assert_eq!(
        reported,
        vec![DshEvent::Ready { url: "http://127.0.0.1:45678/?token=t".to_string() }]
    );
    let tail = String::from_utf8(process.stderr_tail()).expect("stderr tail utf8");
    assert!(tail.contains("boom"));
    assert!(tail.contains("warning line"));
    assert!(!tail.contains("token=t"));
    assert_eq!(tail, "boom\nwarning line\n");
}

#[test]
fn stderr_tail_keeps_the_end() {
    let mut process = Lifecycle::new();
    let line = "0123456789abcde";
    let count = STDERR_TAIL_BYTES / 16 + 3;
    for _ in 0..count {
        process.step(err(line));
    }
    process.step(err("日"));
    let whole = format!("{}日\n", format!("{line}\n").repeat(count));
    let tail = process.stderr_tail();
    assert_eq!(tail.len(), STDERR_TAIL_BYTES);
    assert_eq!(&tail[..], &whole.as_bytes()[whole.len() - STDERR_TAIL_BYTES..]);
    assert_eq!(STDERR_TAIL_BYTES, 65536);
}

#[test]
fn ready_url_is_reported_once_for_repeated_lines() {
    let mut process = Lifecycle::new();
    let reported = events(&mut process, vec![out(READY_LINE), out(READY_LINE)]);
    assert_eq!(reported, vec![DshEvent::Ready { url: READY_URL.to_string() }]);
}

#[test]
fn boot_timeout_is_reported_when_no_ready_line() {
    let mut process = Lifecycle::new();
    assert!(process.step(out("still booting")).event.is_none());
    let late = process.step(ProcessInput::BootDeadline);
    assert_eq!(late.event, Some(DshEvent::BootTimeout));
    assert!(late.terminate);
    let again = process.step(ProcessInput::BootDeadline);
    assert_eq!(again.event, None);
    assert!(!again.terminate);
}

#[test]
fn boot_deadline_passes_unnoticed_once_ready() {
    let mut process = Lifecycle::new();
    process.step(out(READY_LINE));
    let late = process.step(ProcessInput::BootDeadline);
    assert_eq!(late.event, None);
    assert!(!late.terminate);
}

#[test]
fn nothing_is_ready_after_the_end() {
    let mut process = Lifecycle::new();
    let reported = events(
        &mut process,
        vec![ProcessInput::Ended { exit_code: Some(0) }, out(READY_LINE)],
    );
    assert_eq!(reported, vec![DshEvent::Exited { exit_code: Some(0), requested: false }]);
}

#[test]
fn immediate_exit_is_reported_with_code_and_not_requested() {
    let mut process = Lifecycle::new();
    let reported =
        events(&mut process, vec![out("goodbye"), ProcessInput::Ended { exit_code: Some(0) }]);
    assert_eq!(reported, vec![DshEvent::Exited { exit_code: Some(0), requested: false }]);
}

#[test]
fn abnormal_exit_reports_none_code() {
    let mut process = Lifecycle::new();
    let reported = events(&mut process, vec![ProcessInput::Ended { exit_code: Some(7) }]);
    assert_eq!(reported, vec![DshEvent::Exited { exit_code: Some(7), requested: false }]);
}

#[test]
fn stop_terminates_process_and_reports_requested_exit() {
    let mut process = Lifecycle::new();
    let first = process.step(ProcessInput::StopRequest);
    assert!(first.terminate);
    assert!(first.event.is_none());
    match process.step(ProcessInput::Ended { exit_code: None }).event {
        Some(DshEvent::Exited { requested: true, .. }) => {}
        other => panic!("expected requested exit, got {other:?}"),
    }
    assert!(!counts_as_running(Some(true)));
    assert!(!process.step(ProcessInput::StopRequest).terminate);
    assert!(process.step(ProcessInput::Ended { exit_code: None }).event.is_none());
}

#[test]
fn stop_escalates_to_sigkill_when_term_is_ignored() {
    // The process is waited for while it runs and there is time left; then it is killed.
    let mut stopping = Stopping::new();
    assert_eq!(stopping.step(true, false), StopAction::Terminate);
    assert_eq!(stopping.step(true, false), StopAction::Wait);
    assert_eq!(stopping.step(true, true), StopAction::Kill);
    assert_eq!(stopping.step(false, true), StopAction::Done);
    assert!(keep_waiting(true, false));
    assert!(!keep_waiting(true, true));
    assert!(!keep_waiting(false, false));
    assert!(!keep_waiting(false, true));
    let mut process = Lifecycle::new();
    process.step(ProcessInput::StopRequest);
    match process.step(ProcessInput::Ended { exit_code: None }).event {
        Some(DshEvent::Exited { requested: true, .. }) => {}
        other => panic!("expected requested exit after escalation, got {other:?}"),
    }
    assert!(!counts_as_running(Some(true)));
}

#[test]
fn what_a_stopped_process_leaves_behind_is_killed_once() {
    let mut stopping = Stopping::new();
    assert_eq!(stopping.step(false, true), StopAction::Terminate);
    assert_eq!(stopping.step(false, false), StopAction::Kill);
    assert_eq!(stopping.step(true, true), StopAction::Done);
}

#[test]
fn exit_after_a_boot_timeout_counts_as_requested() {
    let mut process = Lifecycle::new();
    let reported = events(
        &mut process,
        vec![ProcessInput::BootDeadline, ProcessInput::Ended { exit_code: Some(1) }],
    );
    assert_eq!(
        reported,
        vec![
            DshEvent::BootTimeout,
            DshEvent::Exited { exit_code: Some(1), requested: true },
        ]
    );
}

#[test]
fn process_of_unknown_state_counts_as_running() {
    assert!(counts_as_running(None));
    assert!(counts_as_running(Some(false)));
    assert!(!counts_as_running(Some(true)));
}

#[test]
fn production_config_runs_dsh_through_the_wrapper() {
    let config = DshConfig::production(
        "/opt/dsh",
        Some("/a:/b".to_string()),
        Span { secs: 1, nanos: 5 },
        Some("/Users/x"),
    );
    assert_eq!(config.program, "/bin/sh");
    assert_eq!(config.args, vec!["-c", DSH_WRAPPER_SCRIPT, "sh", "/opt/dsh"]);
    assert_eq!(config.child_path, Some("/a:/b".to_string()));
    assert_eq!(config.boot_timeout, Span { secs: 1, nanos: 5 });
    assert_eq!(config.kill_grace, whole_secs(3));
    assert_eq!(config.log_file, Some("/Users/x/Library/Logs/dsh-ui/dsh.log".to_string()));
    assert!(config.stdin_pipe);
    assert_eq!(DshConfig::production("d", None, whole_secs(1), None).log_file, None);
}

#[test]
fn wrapper_script_starts_dsh_and_kills_it_at_the_end_of_input() {
    assert_eq!(
        DSH_WRAPPER_SCRIPT,
        "\n\"$1\" web --no-open --port 0 &\npid=$!\nwhile IFS= read -r _; do :; done\nkill \"$pid\" 2>/dev/null\nwait \"$pid\"\n"
    );
}

#[test]
fn log_dir_follows_home() {
    assert_eq!(log_dir(Some("/Users/x")), Some("/Users/x/Library/Logs/dsh-ui".to_string()));
    assert_eq!(log_dir(None), None);
}

#[test]
fn pty_reads_are_handed_on_until_they_bring_nothing() {
    let buffer = [1u8, 2, 3];
    assert_eq!(read_step(&buffer, Some(2)), PtyRead::Output(vec![1, 2]));
    assert_eq!(read_step(&buffer, Some(3)), PtyRead::Output(vec![1, 2, 3]));
    assert_eq!(read_step(&buffer, Some(0)), PtyRead::Closed);
    assert_eq!(read_step(&buffer, None), PtyRead::Closed);
    let config = PtyConfig {
        shell: "/bin/sh".to_string(),
        args: Vec::new(),
        cwd: "/".to_string(),
        rows: 24,
        cols: 80,
        extra_env: vec![("TERM".to_string(), "xterm-256color".to_string())],
    };
    assert_eq!(config.clone().rows, 24);
}
