use dsh_ui::environment::{find_executable, EnvCheck, Environment, SearchStatus};
use dsh_ui::launch::{
    boot_timeout_from_env, launch_config, plan_launch, spawn_result, test_environment, LaunchPlan,
};
use dsh_ui::paths::dirs_from_path;
use dsh_ui::process::{whole_secs, DshEvent};
use dsh_ui::session::{dsh_error_tail, overlong_end, DshState, NavigationAction, Shell};
use dsh_ui::shell::{
    holds_up_exit, opens_terminal, reported_theme, theme_of_payload, tray_action, window_look, TrayAction,
};

fn ready(url: &str) -> DshEvent {
    DshEvent::Ready { url: url.to_string() }
}

fn fields(state: &DshState) -> (&str, Option<&str>, Option<&str>, Option<&str>) {
    (
        state.status.as_str(),
        state.url.as_deref(),
        state.error.as_deref(),
        state.error_kind.as_deref(),
    )
}

#[test]
fn shell_starts_with_nothing_but_its_own_pages() {
    let shell = Shell::new();
    assert_eq!(fields(&shell.state()), ("", None, None, None));
    assert_eq!(shell.zoom(), 100);
    assert!(shell.allows("tauri://localhost/loading.html"));
    assert!(!shell.allows("http://127.0.0.1:41234/"));
}

#[test]
fn ready_event_opens_the_announced_port() {
    let mut shell = Shell::new();
    let url = "http://127.0.0.1:41234/?token=a@b#c";
    let effect = shell.handle_dsh_event(ready(url), b"noise");
    assert!(effect.publish);
    assert_eq!(effect.navigate.as_deref(), Some(url));
    assert_eq!(fields(&shell.state()), ("ready", Some(url), None, None));
    assert!(shell.allows(url));
    assert!(shell.allows("http://127.0.0.1:41234/sessions/abc"));
    assert!(!shell.allows("http://127.0.0.1:41235/"));
    // A second start on another port moves the lock.
    shell.handle_dsh_event(ready("http://127.0.0.1:00555/?token=t"), b"");
    assert!(!shell.allows(url));
    assert!(shell.allows("http://127.0.0.1:555/"));
}

#[test]
fn ready_event_with_the_port_of_the_scheme_opens_it() {
    let mut shell = Shell::new();
    let url = "http://127.0.0.1:80/?token=t";
    let effect = shell.handle_dsh_event(ready(url), b"");
    assert_eq!(effect.navigate.as_deref(), Some(url));
    assert!(shell.allows(url));
    assert!(!shell.allows("http://127.0.0.1:81/"));
}

#[test]
fn starting_over_closes_the_port_until_the_next_announcement() {
    let mut shell = Shell::new();
    let url = "http://127.0.0.1:41234/?token=t";
    shell.handle_dsh_event(ready(url), b"");
    assert!(shell.allows(url));
    shell.start_over();
    assert!(!shell.allows(url));
    assert_eq!(shell.state().status, "ready");
    shell.set_status(spawn_result(None));
    assert!(!shell.allows(url));
    assert!(shell.allows("tauri://localhost/loading.html"));
    let next = "http://127.0.0.1:41235/?token=t";
    shell.handle_dsh_event(ready(next), b"");
    // The end of the process before it may be reported late.
    shell.handle_dsh_event(DshEvent::Exited { exit_code: None, requested: true }, b"");
    assert!(shell.allows(next));
    assert!(!shell.allows(url));
}

#[test]
fn navigation_shows_follows_or_hands_over() {
    let mut shell = Shell::new();
    let url = "http://127.0.0.1:7/?token=t";
    assert_eq!(shell.on_navigation(url), NavigationAction::OpenInBrowser);
    shell.handle_dsh_event(ready(url), b"");
    assert_eq!(shell.on_navigation(url), NavigationAction::Show);
    assert_eq!(shell.on_navigation("tauri://localhost/bar.html"), NavigationAction::Show);
    assert_eq!(shell.on_navigation("dsh-theme://dark"), NavigationAction::FollowTheme("dark"));
    assert_eq!(shell.on_navigation("dsh-theme://light"), NavigationAction::FollowTheme("light"));
    assert_eq!(shell.on_navigation("dsh-theme://blue"), NavigationAction::OpenInBrowser);
    assert_eq!(shell.on_navigation("https://example.com/"), NavigationAction::OpenInBrowser);
    assert!(!shell.allows("dsh-theme://dark"));
}

#[test]
fn ready_event_with_a_number_that_is_no_port_leads_nowhere() {
    let mut shell = Shell::new();
    let url = "http://127.0.0.1:65536/?token=t";
    let effect = shell.handle_dsh_event(ready(url), b"");
    assert!(effect.publish);
    assert_eq!(effect.navigate, None);
    assert_eq!(fields(&shell.state()), ("ready", Some(url), None, None));
    assert!(!shell.allows(url));
}

#[test]
fn apply_event_uses_the_port_it_is_given() {
    let mut shell = Shell::new();
    let effect = shell.apply_event(ready("u"), "", Some(Some(7)));
    assert_eq!(effect.navigate.as_deref(), Some("u"));
    assert!(shell.allows("http://127.0.0.1:7/"));
    let effect = shell.apply_event(ready("u"), "", None);
    assert_eq!(effect.navigate, None);
    assert!(!shell.allows("http://127.0.0.1:7/"));
}

#[test]
fn boot_timeout_is_shown_with_the_log() {
    let mut shell = Shell::new();
    let effect = shell.handle_dsh_event(DshEvent::BootTimeout, "日志\n".as_bytes());
    assert!(effect.publish);
    assert_eq!(effect.navigate, None);
    assert_eq!(
        fields(&shell.state()),
        ("error", None, Some("dsh 启动超时。最近日志：\n日志\n"), Some("boot_timeout"))
    );
    // The exit that the shell itself asked for changes nothing.
    let effect =
        shell.handle_dsh_event(DshEvent::Exited { exit_code: None, requested: true }, b"x");
    assert!(!effect.publish);
    assert_eq!(shell.state().error_kind.as_deref(), Some("boot_timeout"));
}

#[test]
fn crash_is_shown_with_the_log() {
    let mut shell = Shell::new();
    shell.handle_dsh_event(ready("http://127.0.0.1:9/?token=t"), b"");
    let effect =
        shell.handle_dsh_event(DshEvent::Exited { exit_code: Some(1), requested: false }, b"boom");
    assert!(effect.publish);
    assert_eq!(
        fields(&shell.state()),
        ("stopped", None, Some("dsh 进程已退出。最近日志：\nboom"), Some("crashed"))
    );
    assert!(!shell.allows("http://127.0.0.1:9/"));
}

#[test]
fn error_tail_quotes_the_end_of_the_log() {
    assert_eq!(dsh_error_tail(b""), "");
    assert_eq!(dsh_error_tail("日志".as_bytes()), "日志");
    let log = format!("{}{}", "a".repeat(10), "b".repeat(2048));
    assert_eq!(dsh_error_tail(log.as_bytes()), "b".repeat(2048));
    assert_eq!(dsh_error_tail(&log.as_bytes()[10..]), "b".repeat(2048));
    // A character that is cut through is replaced.
    let cut = format!("é{}", "b".repeat(2047));
    assert_eq!(dsh_error_tail(cut.as_bytes()), format!("\u{fffd}{}", "b".repeat(2047)));
    assert_eq!(dsh_error_tail(&[0x61, 0xff, 0x62]), "a\u{fffd}b");
}

#[test]
fn overlong_end_is_the_last_part() {
    assert_eq!(overlong_end(&"b".repeat(2048)), None);
    assert_eq!(overlong_end(&format!("a{}", "b".repeat(2048))), Some(vec![b'b'; 2048]));
}

#[test]
fn menu_items_change_the_zoom() {
    let mut shell = Shell::new();
    assert_eq!(shell.choose_menu_item("zoom_in"), Some(110));
    assert_eq!(shell.choose_menu_item("zoom_in"), Some(125));
    assert_eq!(shell.choose_menu_item("zoom_out"), Some(110));
    assert_eq!(shell.choose_menu_item("copy"), None);
    assert_eq!(shell.zoom(), 110);
    assert_eq!(shell.choose_menu_item("zoom_reset"), Some(100));
}

#[test]
fn set_status_replaces_the_state() {
    let mut shell = Shell::new();
    shell.set_status(DshState::starting());
    assert_eq!(fields(&shell.state()), ("starting", None, None, None));
    shell.set_status(DshState::default());
    assert_eq!(fields(&shell.state()), ("", None, None, None));
}

fn env() -> Environment {
    Environment {
        dsh_path: "/usr/local/bin/dsh".to_string(),
        node_path: "/opt/node/bin/node".to_string(),
        node_major: 24,
    }
}

#[test]
fn found_environment_is_launched_with_its_directories_first() {
    let plan =
        plan_launch(EnvCheck::Found(env()), Some("/bin"), whole_secs(30), Some("/Users/x"));
    match plan {
        LaunchPlan::Spawn(config) => {
            assert_eq!(config.child_path.as_deref(), Some("/usr/local/bin:/opt/node/bin:/bin"));
            assert_eq!(config.args[3], "/usr/local/bin/dsh");
            assert_eq!(config.boot_timeout, whole_secs(30));
        }
        other => panic!("unexpected {other:?}"),
    }
}

#[test]
fn launched_dsh_finds_the_same_node() {
    let plan = plan_launch(
        EnvCheck::Found(env()),
        Some("/usr/local/bin:/bin"),
        whole_secs(30),
        None,
    );
    let LaunchPlan::Spawn(config) = plan else { panic!("expected a process") };
    let dirs = dirs_from_path(&config.child_path.expect("a search path"));
    let executables = ["/opt/node/bin/node", "/bin/node"];
    let mut search = find_executable("node", &dirs);
    loop {
        match search.status() {
            SearchStatus::Probe(path) => search.record(executables.contains(&path.as_str())),
            SearchStatus::Found(path) => {
                assert_eq!(path, "/opt/node/bin/node");
                break;
            }
            SearchStatus::Missing => panic!("node not found"),
        }
    }
}

#[test]
fn programs_in_the_root_have_the_root_for_their_directory() {
    let rooted = Environment {
        dsh_path: "/dsh".to_string(),
        node_path: "node".to_string(),
        node_major: 24,
    };
    match plan_launch(EnvCheck::Found(rooted), Some("/bin"), whole_secs(30), None) {
        LaunchPlan::Spawn(config) => assert_eq!(config.child_path.as_deref(), Some("/::/bin")),
        other => panic!("unexpected {other:?}"),
    }
}

#[test]
fn programs_without_a_directory_add_an_empty_one() {
    let bare = Environment {
        dsh_path: "dsh".to_string(),
        node_path: "/".to_string(),
        node_major: 24,
    };
    match plan_launch(EnvCheck::Found(bare), None, whole_secs(30), None) {
        LaunchPlan::Spawn(config) => assert_eq!(config.child_path.as_deref(), Some(":")),
        other => panic!("unexpected {other:?}"),
    }
    let config = launch_config(&env(), None, Some("/n".to_string()), None, whole_secs(1), None);
    assert_eq!(config.child_path.as_deref(), Some(":/n"));
}

#[test]
fn each_failure_has_its_message_and_kind() {
    let state = |check| match plan_launch(check, None, whole_secs(30), None) {
        LaunchPlan::Fail(state) => state,
        other => panic!("unexpected {other:?}"),
    };
    assert_eq!(
        fields(&state(EnvCheck::MissingDsh)),
        ("error", None, Some("未找到 dsh 命令。"), Some("missing_dsh"))
    );
    assert_eq!(
        fields(&state(EnvCheck::MissingNode)),
        ("error", None, Some("未找到可用的 Node.js。"), Some("missing_node"))
    );
    assert_eq!(
        fields(&state(EnvCheck::NodeTooOld { major: 18 })),
        ("error", None, Some("Node.js 版本过低（v18），dsh 需要 ≥22。"), Some("node_too_old"))
    );
    assert_eq!(
        fields(&spawn_result(Some("no such file"))),
        ("error", None, Some("无法启动 dsh：no such file"), Some("spawn_failed"))
    );
    assert_eq!(fields(&spawn_result(None)), ("starting", None, None, None));
}

#[test]
fn settings_window_is_told_the_result() {
    assert_eq!(
        test_environment(&EnvCheck::Found(env())),
        Ok("✅ 就绪\ndsh: /usr/local/bin/dsh\nnode: /opt/node/bin/node (v24)".to_string())
    );
    assert_eq!(
        test_environment(&EnvCheck::MissingDsh),
        Err("未找到可用的 dsh：路径无效、不可执行，或留空时自动探测失败".to_string())
    );
    assert_eq!(
        test_environment(&EnvCheck::MissingNode),
        Err("未找到可用的 Node.js（需要 ≥22）".to_string())
    );
    assert_eq!(
        test_environment(&EnvCheck::NodeTooOld { major: 9 }),
        Err("Node.js 版本过低（v9），dsh 需要 ≥22".to_string())
    );
}

#[test]
fn boot_timeout_setting_is_a_number_of_seconds() {
    assert_eq!(boot_timeout_from_env(None), whole_secs(30));
    assert_eq!(boot_timeout_from_env(Some("5")), whole_secs(5));
    assert_eq!(boot_timeout_from_env(Some("0")), whole_secs(0));
    assert_eq!(boot_timeout_from_env(Some("5s")), whole_secs(30));
    assert_eq!(boot_timeout_from_env(Some(" 5")), whole_secs(30));
    assert_eq!(boot_timeout_from_env(Some("18446744073709551615")), whole_secs(u64::MAX));
    assert_eq!(boot_timeout_from_env(Some("18446744073709551616")), whole_secs(30));
}

#[test]
fn theme_is_read_from_the_payload() {
    assert_eq!(theme_of_payload("{\"theme\":\"dark\"}"), "dark");
    assert_eq!(theme_of_payload("{\"theme\":\"light\"}"), "light");
    assert_eq!(theme_of_payload("{\"theme\":\"blue\"}"), "light");
    assert_eq!(theme_of_payload("{\"other\":\"dark\"}"), "light");
    assert_eq!(theme_of_payload("{\"theme\":1}"), "light");
    assert_eq!(theme_of_payload("[\"dark\"]"), "light");
    assert_eq!(theme_of_payload("{ not json"), "light");
    assert_eq!(reported_theme(Some("dark")), "dark");
    assert_eq!(reported_theme(Some("Dark")), "light");
    assert_eq!(reported_theme(None), "light");
}

#[test]
fn window_look_follows_the_theme() {
    assert!(window_look("dark").dark);
    assert_eq!(window_look("dark").background, (0, 0, 0, 255));
    assert!(!window_look("light").dark);
    assert_eq!(window_look("light").background, (255, 255, 255, 255));
}

#[test]
fn tray_items_and_exit_requests() {
    assert_eq!(tray_action("show"), TrayAction::Show);
    assert_eq!(tray_action("quit"), TrayAction::Quit);
    assert_eq!(tray_action("other"), TrayAction::Ignore);
    assert!(opens_terminal("open_terminal"));
    assert!(!opens_terminal("zoom_in"));
    assert!(holds_up_exit(None));
    assert!(!holds_up_exit(Some(0)));
}
