use dsh_ui::environment::{
    captured_output, detect_environment, detect_environment_with_dirs, find_executable,
    is_executable_path, judge_version, node_version_ok, parse_node_version, Detection, DetectionStep, EnvCheck,
    EnvOverrides, SearchStatus, MIN_NODE_MAJOR,
};
use dsh_ui::paths::search_dirs;

/// A machine on which some files are executable and some of them print a version.
struct Machine {
    executables: Vec<String>,
    versions: Vec<(String, Option<String>)>,
}

impl Machine {
    fn new() -> Self {
        Machine { executables: Vec::new(), versions: Vec::new() }
    }

    fn executable(mut self, path: &str) -> Self {
        self.executables.push(path.to_string());
        self
    }

    fn node(mut self, path: &str, version: &str) -> Self {
        self.executables.push(path.to_string());
        self.versions.push((path.to_string(), Some(format!("{version}\n"))));
        self
    }

    fn is_executable(&self, path: &str) -> bool {
        self.executables.iter().any(|p| p == path)
    }

    fn version(&self, path: &str) -> Option<String> {
        self.versions.iter().find(|(p, _)| p == path).and_then(|(_, v)| v.clone())
    }

    fn detect(&self, mut detection: Detection) -> EnvCheck {
        loop {
            match detection.step() {
                DetectionStep::Probe(path) => detection.record_probe(self.is_executable(&path)),
                DetectionStep::RunVersion(path) => detection.record_version(self.version(&path)),
                DetectionStep::Done(check) => return check,
            }
        }
    }

    fn find(&self, name: &str, dirs: &[String]) -> Option<String> {
        let mut search = find_executable(name, dirs);
        loop {
            match search.status() {
                SearchStatus::Probe(path) => search.record(self.is_executable(&path)),
                SearchStatus::Found(path) => return Some(path),
                SearchStatus::Missing => return None,
            }
        }
    }
}

fn strings(list: &[&str]) -> Vec<String> {
    list.iter().map(|s| s.to_string()).collect()
}

#[test]
fn find_executable_hits_first_directory_in_order() {
    let machine = Machine::new().executable("/order-a/dsh").executable("/order-b/dsh");
    let dirs = strings(&["/order-a", "/order-b"]);
    assert_eq!(machine.find("dsh", &dirs), Some("/order-a/dsh".to_string()));
}

#[test]
fn find_executable_skips_missing_dirs_and_files() {
    let machine = Machine::new().executable("/skip-b/dsh");
    let dirs = strings(&["/skip-a/nonexistent", "/skip-b"]);
    assert_eq!(machine.find("dsh", &dirs), Some("/skip-b/dsh".to_string()));
}

#[test]
fn find_executable_rejects_non_executable_file() {
    let machine = Machine::new();
    let dirs = strings(&["/exec-a"]);
    assert_eq!(machine.find("dsh", &dirs), None);
}

#[test]
fn find_executable_missing_everywhere_returns_none() {
    let machine = Machine::new();
    let dirs = strings(&["/none-a"]);
    assert_eq!(machine.find("dsh", &dirs), None);
}

#[test]
fn parse_node_version_reads_major_from_v_string() {
    assert_eq!(parse_node_version("v22.3.0\n"), Some(22));
    assert_eq!(parse_node_version("v24.17.0"), Some(24));
    assert_eq!(parse_node_version("v18.20.0"), Some(18));
}

#[test]
fn parse_node_version_rejects_malformed_output() {
    assert_eq!(parse_node_version(""), None);
    assert_eq!(parse_node_version("node v20.1.0"), None);
    assert_eq!(parse_node_version("vv22.0.0"), None);
    assert_eq!(parse_node_version("v22"), Some(22));
    assert_eq!(parse_node_version("vabc.0.0"), None);
}

#[test]
fn parse_node_version_at_the_limits() {
    assert_eq!(parse_node_version("v4294967295.0"), Some(u32::MAX));
    assert_eq!(parse_node_version("v4294967296.0"), None);
    assert_eq!(parse_node_version("v.1"), None);
    assert_eq!(parse_node_version("v+22.1"), Some(22));
    assert_eq!(parse_node_version("v22 .1"), None);
}

#[test]
fn node_version_ok_requires_at_least_minimum() {
    assert!(node_version_ok(MIN_NODE_MAJOR));
    assert!(node_version_ok(24));
    assert!(!node_version_ok(MIN_NODE_MAJOR - 1));
}

#[test]
fn detect_environment_ok_when_dsh_and_fresh_node_present() {
    let machine = Machine::new().executable("/env-ok/dsh").node("/env-ok/node", "v22.11.0");
    let extra = strings(&["/env-ok"]);
    match machine.detect(detect_environment_with_dirs(Some(""), &extra, &EnvOverrides::default())) {
        EnvCheck::Found(env) => {
            assert_eq!(env.dsh_path, "/env-ok/dsh");
            assert_eq!(env.node_path, "/env-ok/node");
            assert_eq!(env.node_major, 22);
        }
        other => panic!("expected Ok, got {other:?}"),
    }
}

#[test]
fn detect_environment_missing_dsh_when_nothing_found() {
    let machine = Machine::new();
    let extra = strings(&["/env-empty"]);
    assert!(matches!(
        machine.detect(detect_environment_with_dirs(Some(""), &extra, &EnvOverrides::default())),
        EnvCheck::MissingDsh
    ));
}

#[test]
fn detect_environment_missing_node_when_only_dsh_found() {
    let machine = Machine::new().executable("/env-nonode/dsh");
    let extra = strings(&["/env-nonode"]);
    assert!(matches!(
        machine.detect(detect_environment_with_dirs(Some(""), &extra, &EnvOverrides::default())),
        EnvCheck::MissingNode
    ));
}

#[test]
fn detect_environment_node_too_old() {
    let machine = Machine::new().executable("/env-old/dsh").node("/env-old/node", "v18.20.0");
    let extra = strings(&["/env-old"]);
    assert!(matches!(
        machine.detect(detect_environment_with_dirs(Some(""), &extra, &EnvOverrides::default())),
        EnvCheck::NodeTooOld { major: 18 }
    ));
}

#[test]
fn detect_environment_unparsable_node_version_treated_as_missing() {
    let machine =
        Machine::new().executable("/env-garbage/dsh").node("/env-garbage/node", "garbage output");
    let extra = strings(&["/env-garbage"]);
    assert!(matches!(
        machine.detect(detect_environment_with_dirs(Some(""), &extra, &EnvOverrides::default())),
        EnvCheck::MissingNode
    ));
}

#[test]
fn detect_environment_node_that_cannot_be_run_is_missing() {
    let machine = Machine::new().executable("/d/dsh").executable("/d/node");
    assert!(matches!(
        machine.detect(detect_environment_with_dirs(Some("/d"), &[], &EnvOverrides::default())),
        EnvCheck::MissingNode
    ));
}

#[test]
fn detect_environment_real_machine_has_compatible_node_if_present() {
    let machine =
        Machine::new().executable("/usr/local/bin/dsh").node("/opt/homebrew/bin/node", "v22.0.0");
    assert!(machine.find("node", &search_dirs(None)).is_some());
    if machine.find("node", &search_dirs(None)).is_some() {
        assert!(matches!(
            machine.detect(detect_environment(None, &EnvOverrides::default())),
            EnvCheck::Found(_)
        ));
    }
}

#[test]
fn executable_files_are_regular_and_have_an_execute_bit() {
    assert!(is_executable_path(Some((true, 0o100755))));
    assert!(is_executable_path(Some((true, 0o010))));
    assert!(is_executable_path(Some((true, 0o001))));
    assert!(!is_executable_path(Some((true, 0o100644))));
    assert!(!is_executable_path(Some((false, 0o40755))));
    assert!(!is_executable_path(None));
}

#[test]
fn detect_environment_prefers_the_inherited_path() {
    let machine = Machine::new()
        .executable("/mine/dsh")
        .executable("/usr/local/bin/dsh")
        .node("/usr/local/bin/node", "v23.1.0");
    match machine.detect(detect_environment(Some("/mine"), &EnvOverrides::default())) {
        EnvCheck::Found(env) => {
            assert_eq!(env.dsh_path, "/mine/dsh");
            assert_eq!(env.node_path, "/usr/local/bin/node");
            assert_eq!(env.node_major, 23);
        }
        other => panic!("expected Ok, got {other:?}"),
    }
}

#[test]
fn overrides_take_precedence_over_search_dirs() {
    let machine = Machine::new()
        .executable("/ovr-auto/dsh")
        .executable("/ovr-manual/dsh")
        .node("/ovr-manual/node", "v22.11.0");
    let overrides = EnvOverrides {
        dsh: Some("/ovr-manual/dsh".to_string()),
        node: Some("/ovr-manual/node".to_string()),
    };
    let extra = strings(&["/ovr-auto"]);
    match machine.detect(detect_environment_with_dirs(Some(""), &extra, &overrides)) {
        EnvCheck::Found(env) => {
            assert_eq!(env.dsh_path, "/ovr-manual/dsh");
            assert_eq!(env.node_path, "/ovr-manual/node");
        }
        other => panic!("expected Ok, got {other:?}"),
    }
}

#[test]
fn invalid_dsh_override_reports_missing_even_when_auto_would_hit() {
    let machine = Machine::new().executable("/ovr-bad-auto/dsh");
    let overrides =
        EnvOverrides { dsh: Some("/ovr-bad-auto/no-such-dsh".to_string()), node: None };
    let extra = strings(&["/ovr-bad-auto"]);
    assert!(matches!(
        machine.detect(detect_environment_with_dirs(Some(""), &extra, &overrides)),
        EnvCheck::MissingDsh
    ));
}

#[test]
fn invalid_node_override_reports_missing_node() {
    let machine = Machine::new().executable("/ovr-bad-node/dsh");
    let overrides =
        EnvOverrides { dsh: None, node: Some("/ovr-bad-node/no-such-node".to_string()) };
    let extra = strings(&["/ovr-bad-node"]);
    assert!(matches!(
        machine.detect(detect_environment_with_dirs(Some(""), &extra, &overrides)),
        EnvCheck::MissingNode
    ));
}

#[test]
fn node_is_not_looked_for_before_dsh_is_found() {
    let overrides = EnvOverrides { dsh: None, node: Some("/n".to_string()) };
    let mut detection = detect_environment_with_dirs(Some("/a:/b"), &[], &overrides);
    assert!(matches!(detection.step(), DetectionStep::Probe(p) if p == "/a/dsh"));
    // An answer to a question that was not asked changes nothing.
    detection.record_version(Some("v22".to_string()));
    detection.record_probe(false);
    assert!(matches!(detection.step(), DetectionStep::Probe(p) if p == "/b/dsh"));
    detection.record_probe(true);
    assert!(matches!(detection.step(), DetectionStep::Probe(p) if p == "/n"));
    detection.record_probe(true);
    assert!(matches!(detection.step(), DetectionStep::RunVersion(p) if p == "/n"));
    detection.record_version(Some("v30.0.0".to_string()));
    match detection.step() {
        DetectionStep::Done(EnvCheck::Found(env)) => {
            assert_eq!(env.dsh_path, "/b/dsh");
            assert_eq!(env.node_path, "/n");
            assert_eq!(env.node_major, 30);
        }
        other => panic!("unexpected {other:?}"),
    }
    detection.record_probe(false);
    assert!(matches!(detection.step(), DetectionStep::Done(EnvCheck::Found(_))));
}

#[test]
fn judge_version_draws_each_conclusion() {
    let judge = |out| judge_version("/d".to_string(), "/n".to_string(), out);
    assert!(matches!(judge(None), EnvCheck::MissingNode));
    assert!(matches!(judge(Some("?")), EnvCheck::MissingNode));
    assert!(matches!(judge(Some("v21.9")), EnvCheck::NodeTooOld { major: 21 }));
    assert!(matches!(judge(Some("v22")), EnvCheck::Found(env) if env.node_major == 22));
}

#[test]
fn captured_output_needs_success_and_text() {
    assert_eq!(captured_output(true, b"v22\n".to_vec()), Some("v22\n".to_string()));
    assert_eq!(captured_output(true, "日志".as_bytes().to_vec()), Some("日志".to_string()));
    assert_eq!(captured_output(false, b"v22\n".to_vec()), None);
    assert_eq!(captured_output(true, vec![0xff, 0x76]), None);
}
