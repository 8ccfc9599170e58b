//! From a detection to a running `dsh`: what to start, and what to say where that is impossible.

use crate::environment::{
    first_executable, paths_in, EnvCheck, EnvCheckView, Environment, EnvironmentView,
    MIN_NODE_MAJOR,
};
use crate::numbers::{decimal, decimal_text, parse_unsigned, parse_unsigned_up_to};
use crate::paths::{
    child_path, child_path_is_searched_in_order, child_path_text, join_path,
    names_are_put_behind_directories, opt_path_dirs, parent_of, path_dirs, path_parent, plain_dir,
    plain_name, some_text,
};
use crate::process::{
    log_dir_in, logs_are_below_home, whole_secs, DshConfig, Span, DSH_WRAPPER_SCRIPT,
};
use crate::session::{is_proper, DshState, DshStateView};
use crate::text::{opt_str, opt_text, texts, texts_show_every_string};
use vstd::prelude::*;

verus! {

/// How long to wait for `dsh` to become ready, in seconds, if nothing else is set.
pub const DEFAULT_BOOT_TIMEOUT_SECS: u64 = 30;

/// How long to wait for `dsh` to become ready: the setting, if it is a number of seconds.
pub fn boot_timeout_from_env(value: Option<&str>) -> (r: Span)
    ensures
        r.nanos == 0,
        r.secs == (match value {
            Some(s) => match parse_unsigned(s@, u64::MAX as int) {
                Some(n) => n,
                None => DEFAULT_BOOT_TIMEOUT_SECS as int,
            },
            None => DEFAULT_BOOT_TIMEOUT_SECS as int,
        }),
{
    match value {
        Some(s) => match parse_unsigned_up_to(s, u64::MAX) {
            Some(n) => whole_secs(n),
            None => whole_secs(DEFAULT_BOOT_TIMEOUT_SECS),
        },
        None => whole_secs(DEFAULT_BOOT_TIMEOUT_SECS),
    }
}

/// What to do after a detection.
#[derive(Debug)]
pub enum LaunchPlan {
    /// Start a process.
    Spawn(DshConfig),
    /// Show this state.
    Fail(DshState),
}

/// The text, or nothing.
pub open spec fn or_empty(s: Option<Seq<char>>) -> Seq<char> {
    match s {
        Some(t) => t,
        None => Seq::empty(),
    }
}

/// Whether `config` starts the `dsh` at `dsh_path` with the search path `path`.
pub open spec fn starts_dsh(
    config: DshConfig,
    dsh_path: Seq<char>,
    path: Seq<char>,
    boot_timeout: Span,
    home: Option<Seq<char>>,
) -> bool {
    &&& config.program@ == "/bin/sh"@
    &&& texts(config.args@) == seq!["-c"@, DSH_WRAPPER_SCRIPT@, "sh"@, dsh_path]
    &&& opt_text(config.child_path) == Some(path)
    &&& config.boot_timeout == boot_timeout
    &&& config.kill_grace == (Span { secs: 3, nanos: 0 })
    &&& opt_text(config.log_file) == (match log_dir_in(home) {
        Some(dir) => Some(join_path(dir, "dsh.log"@)),
        None => None,
    })
    &&& config.stdin_pipe
}

/// How to start the `dsh` of an environment, given the directories of the two programs: these
/// come first on its search path, so that `dsh` finds the same Node.js.
pub fn launch_config(
    env: &Environment,
    dsh_dir: Option<String>,
    node_dir: Option<String>,
    path_env: Option<&str>,
    boot_timeout: Span,
    home: Option<&str>,
) -> (r: DshConfig)
    ensures
        starts_dsh(
            r,
            env.dsh_path@,
            child_path_text(
                seq![or_empty(opt_text(dsh_dir)), or_empty(opt_text(node_dir))],
                opt_str(path_env),
            ),
            boot_timeout,
            opt_str(home),
        ),
{
    let first: String = match dsh_dir {
        Some(dir) => dir,
        None => String::new(),
    };
    let second: String = match node_dir {
        Some(dir) => dir,
        None => String::new(),
    };
    let mut dirs: Vec<String> = Vec::new();
    let ghost shown = seq![first@, second@];
    dirs.push(first);
    dirs.push(second);
    proof {
        assert(texts(dirs@) =~= shown);
    }
    let path: String = child_path(dirs.as_slice(), path_env);
    DshConfig::production(env.dsh_path.as_str(), Some(path), boot_timeout, home)
}

/// What to show where the environment is not usable.
pub open spec fn failure(check: EnvCheckView) -> Option<DshStateView> {
    match check {
        EnvCheckView::Found(_) => None,
        EnvCheckView::MissingDsh => Some(
            DshStateView::failed("error"@, "未找到 dsh 命令。"@, "missing_dsh"@),
        ),
        EnvCheckView::MissingNode => Some(
            DshStateView::failed("error"@, "未找到可用的 Node.js。"@, "missing_node"@),
        ),
        EnvCheckView::NodeTooOld { major } => Some(
            DshStateView::failed(
                "error"@,
                "Node.js 版本过低（v"@ + decimal(major as nat) + "），dsh 需要 ≥"@ + decimal(
                    MIN_NODE_MAJOR as nat,
                ) + "。"@,
                "node_too_old"@,
            ),
        ),
    }
}

/// What is shown of a failure is a proper state.
pub proof fn failures_are_proper(check: EnvCheckView)
    ensures
        failure(check) is None <==> check is Found,
        failure(check) matches Some(state) ==> is_proper(state) && state.status == "error"@,
{
}

/// Each kind of failure has an error kind of its own, by which the pages tell them apart.
pub proof fn failures_are_told_apart(a: EnvCheckView, b: EnvCheckView)
    requires
        failure(a) is Some,
        failure(b) is Some,
        failure(a)->0.error_kind == failure(b)->0.error_kind,
    ensures
        a is MissingDsh <==> b is MissingDsh,
        a is MissingNode <==> b is MissingNode,
        a is NodeTooOld <==> b is NodeTooOld,
{
    reveal_strlit("missing_dsh");
    reveal_strlit("missing_node");
    reveal_strlit("node_too_old");
    assert("missing_dsh"@.len() == 11);
    assert("missing_node"@[0] != "node_too_old"@[0]);
}

/// A `dsh` that looks for `node` on its search path finds the Node.js that the detection found,
/// unless there is another one beside `dsh` itself.
pub proof fn child_finds_the_same_node(
    dsh_dir: Seq<char>,
    node_dir: Seq<char>,
    inherited: Option<Seq<char>>,
    exec: spec_fn(Seq<char>) -> bool,
)
    requires
        dsh_dir.len() > 0,
        !dsh_dir.contains(':'),
        node_dir.len() > 0,
        !node_dir.contains(':'),
        exec(join_path(node_dir, "node"@)),
        dsh_dir == node_dir || !exec(join_path(dsh_dir, "node"@)),
    ensures
        first_executable(
            paths_in(
                path_dirs(child_path_text(seq![dsh_dir, node_dir], inherited)),
                "node"@,
            ),
            exec,
        ) == Some(join_path(node_dir, "node"@)),
{
    let dirs = seq![dsh_dir, node_dir];
    child_path_is_searched_in_order(dirs, inherited);
    lemma_both_count(dsh_dir, node_dir);
    let searched = path_dirs(child_path_text(dirs, inherited));
    let rest = opt_path_dirs(inherited);
    assert(searched == dirs + rest);
    let paths = paths_in(searched, "node"@);
    assert(searched[0] == dsh_dir);
    assert(searched[1] == node_dir);
    lemma_one_of_two(paths, exec);
}

/// Two directories that are named both count.
proof fn lemma_both_count(a: Seq<char>, b: Seq<char>)
    requires
        a.len() > 0,
        b.len() > 0,
    ensures
        seq![a, b].filter(some_text()) == seq![a, b],
{
    reveal_with_fuel(Seq::filter, 3);
    assert(seq![a, b].drop_last() =~= seq![a]);
    assert(seq![a].drop_last() =~= Seq::<Seq<char>>::empty());
    assert(seq![a].filter(some_text()) =~= seq![a]);
    assert(seq![a, b].filter(some_text()) =~= seq![a, b]);
}

/// Where the second candidate is executable, and the first is not or is the same, it is the one.
proof fn lemma_one_of_two(paths: Seq<Seq<char>>, exec: spec_fn(Seq<char>) -> bool)
    requires
        paths.len() >= 2,
        exec(paths[1]),
        paths[0] == paths[1] || !exec(paths[0]),
    ensures
        first_executable(paths, exec) == Some(paths[1]),
{
    let rest = paths.drop_first();
    assert(rest[0] == paths[1]);
    assert(first_executable(rest, exec) == Some(rest[0]));
}

/// Decides what to do after a detection.
pub fn plan_launch(
    check: EnvCheck,
    path_env: Option<&str>,
    boot_timeout: Span,
    home: Option<&str>,
) -> (r: LaunchPlan)
    ensures
        r is Spawn <==> check@ is Found,
        r matches LaunchPlan::Fail(state) ==> failure(check@) == Some(state@),
        r matches LaunchPlan::Spawn(config) ==> starts_dsh(
            config,
            check@->Found_0.dsh_path,
            child_path_text(
                seq![
                    or_empty(path_parent(check@->Found_0.dsh_path)),
                    or_empty(path_parent(check@->Found_0.node_path)),
                ],
                opt_str(path_env),
            ),
            boot_timeout,
            opt_str(home),
        ),
        r matches LaunchPlan::Spawn(config) ==> forall|
            dsh_dir: Seq<char>,
            dsh_name: Seq<char>,
            node_dir: Seq<char>,
            node_name: Seq<char>,
        |
            #![trigger plain_dir(dsh_dir), plain_name(dsh_name), plain_dir(node_dir), plain_name(
                node_name,
            )]
            {
                &&& plain_dir(dsh_dir)
                &&& plain_name(dsh_name)
                &&& check@->Found_0.dsh_path == join_path(dsh_dir, dsh_name)
                &&& plain_dir(node_dir)
                &&& plain_name(node_name)
                &&& check@->Found_0.node_path == join_path(node_dir, node_name)
            } ==> opt_text(config.child_path) == Some(
                child_path_text(seq![dsh_dir, node_dir], opt_str(path_env)),
            ),
{
    match check {
        EnvCheck::Found(env) => {
            let dsh_dir: Option<String> = parent_of(env.dsh_path.as_str());
            let node_dir: Option<String> = parent_of(env.node_path.as_str());
            LaunchPlan::Spawn(
                launch_config(&env, dsh_dir, node_dir, path_env, boot_timeout, home),
            )
        },
        EnvCheck::MissingDsh => LaunchPlan::Fail(
            DshState::failed("error", "未找到 dsh 命令。".to_owned(), "missing_dsh"),
        ),
        EnvCheck::MissingNode => LaunchPlan::Fail(
            DshState::failed("error", "未找到可用的 Node.js。".to_owned(), "missing_node"),
        ),
        EnvCheck::NodeTooOld { major } => {
            let mut error: String = "Node.js 版本过低（v".to_owned();
            error.append(decimal_text(major as u64).as_str());
            error.append("），dsh 需要 ≥");
            error.append(decimal_text(MIN_NODE_MAJOR as u64).as_str());
            error.append("。");
            LaunchPlan::Fail(DshState::failed("error", error, "node_too_old"))
        },
    }
}

/// The state after an attempt to start the process; `error` says why it could not be started.
pub fn spawn_result(error: Option<&str>) -> (r: DshState)
    ensures
        r@ == (match error {
            None => DshStateView::starting(),
            Some(e) => DshStateView::failed("error"@, "无法启动 dsh："@ + e@, "spawn_failed"@),
        }),
        is_proper(r@),
{
    match error {
        None => DshState::starting(),
        Some(e) => {
            let mut message: String = "无法启动 dsh：".to_owned();
            message.append(e);
            DshState::failed("error", message, "spawn_failed")
        },
    }
}

/// What the settings window is told about a detection.
pub open spec fn report(check: EnvCheckView) -> Result<Seq<char>, Seq<char>> {
    match check {
        EnvCheckView::Found(env) => Ok(
            "✅ 就绪\ndsh: "@ + env.dsh_path + "\nnode: "@ + env.node_path + " (v"@ + decimal(
                env.node_major as nat,
            ) + ")"@,
        ),
        EnvCheckView::MissingDsh => Err(
            "未找到可用的 dsh：路径无效、不可执行，或留空时自动探测失败"@,
        ),
        EnvCheckView::MissingNode => Err("未找到可用的 Node.js（需要 ≥22）"@),
        EnvCheckView::NodeTooOld { major } => Err(
            "Node.js 版本过低（v"@ + decimal(major as nat) + "），dsh 需要 ≥"@ + decimal(
                MIN_NODE_MAJOR as nat,
            ),
        ),
    }
}

/// What the settings window is told about a detection.
pub fn test_environment(check: &EnvCheck) -> (r: Result<String, String>)
    ensures
        r is Ok <==> check@ is Found,
        r matches Ok(message) ==> report(check@) == Ok::<Seq<char>, Seq<char>>(message@),
        r matches Err(message) ==> report(check@) == Err::<Seq<char>, Seq<char>>(message@),
{
    match check {
        EnvCheck::Found(env) => {
            let mut message: String = "✅ 就绪\ndsh: ".to_owned();
            message.append(env.dsh_path.as_str());
            message.append("\nnode: ");
            message.append(env.node_path.as_str());
            message.append(" (v");
            message.append(decimal_text(env.node_major as u64).as_str());
            message.append(")");
            Ok(message)
        },
        EnvCheck::MissingDsh => Err(
            "未找到可用的 dsh：路径无效、不可执行，或留空时自动探测失败".to_owned(),
        ),
        EnvCheck::MissingNode => Err("未找到可用的 Node.js（需要 ≥22）".to_owned()),
        EnvCheck::NodeTooOld { major } => {
            let mut message: String = "Node.js 版本过低（v".to_owned();
            message.append(decimal_text(*major as u64).as_str());
            message.append("），dsh 需要 ≥");
            message.append(decimal_text(MIN_NODE_MAJOR as u64).as_str());
            Err(message)
        },
    }
}

/// What is started is the wrapper with the found `dsh`, with the search path and the time given,
/// three seconds to end, a log below the home directory, and its standard input held.
pub proof fn start_is_through_the_wrapper(
    config: DshConfig,
    dsh_path: Seq<char>,
    path: Seq<char>,
    boot_timeout: Span,
    home: Option<Seq<char>>,
)
    requires
        starts_dsh(config, dsh_path, path, boot_timeout, home),
    ensures
        config.program@ == "/bin/sh"@,
        config.args@.len() == 4,
        config.args@[0]@ == "-c"@,
        config.args@[1]@ == DSH_WRAPPER_SCRIPT@,
        config.args@[2]@ == "sh"@,
        config.args@[3]@ == dsh_path,
        config.child_path is Some,
        config.child_path->0@ == path,
        config.boot_timeout == boot_timeout,
        config.kill_grace.secs == 3,
        config.kill_grace.nanos == 0,
        home is None ==> config.log_file is None,
        home matches Some(h) ==> {
            &&& config.log_file is Some
            &&& config.log_file->0@ == join_path(join_path(h, "Library/Logs/dsh-ui"@), "dsh.log"@)
        },
        home matches Some(h) ==> h.len() > 0 && h.last() != '/' ==> {
            &&& config.log_file is Some
            &&& config.log_file->0@ == h + "/Library/Logs/dsh-ui/dsh.log"@
        },
        config.stdin_pipe,
{
    texts_show_every_string(config.args@);
    assert(texts(config.args@).len() == 4);
    assert(texts(config.args@)[0] == config.args@[0]@);
    assert(texts(config.args@)[1] == config.args@[1]@);
    assert(texts(config.args@)[2] == config.args@[2]@);
    assert(texts(config.args@)[3] == config.args@[3]@);
    if let Some(h) = home {
        if h.len() > 0 && h.last() != '/' {
            reveal_strlit("/Library/Logs/dsh-ui");
            reveal_strlit("/Library/Logs/dsh-ui/dsh.log");
            reveal_strlit("dsh.log");
            logs_are_below_home(h);
            let dir = h + "/Library/Logs/dsh-ui"@;
            assert(dir.last() == 'i');
            names_are_put_behind_directories(dir, "dsh.log"@);
            assert(dir + seq!['/'] + "dsh.log"@ =~= h + "/Library/Logs/dsh-ui/dsh.log"@);
        }
    }
}

/// A directory that is there is used, and nothing stands for one that is not.
pub proof fn missing_directories_are_empty(dir: Seq<char>)
    ensures
        or_empty(Some(dir)) == dir,
        or_empty(None).len() == 0,
{
}

/// What is shown of each failure: its message, its kind, and no address.
pub proof fn failures_have_their_messages(major: u32, env: EnvironmentView)
    ensures
        failure(EnvCheckView::Found(env)) is None,
        failure(EnvCheckView::MissingDsh) is Some,
        failure(EnvCheckView::MissingDsh)->0.status == "error"@,
        failure(EnvCheckView::MissingDsh)->0.url is None,
        failure(EnvCheckView::MissingDsh)->0.error == Some("未找到 dsh 命令。"@),
        failure(EnvCheckView::MissingDsh)->0.error_kind == Some("missing_dsh"@),
        failure(EnvCheckView::MissingNode) is Some,
        failure(EnvCheckView::MissingNode)->0.status == "error"@,
        failure(EnvCheckView::MissingNode)->0.url is None,
        failure(EnvCheckView::MissingNode)->0.error == Some("未找到可用的 Node.js。"@),
        failure(EnvCheckView::MissingNode)->0.error_kind == Some("missing_node"@),
        failure(EnvCheckView::NodeTooOld { major }) is Some,
        failure(EnvCheckView::NodeTooOld { major })->0.status == "error"@,
        failure(EnvCheckView::NodeTooOld { major })->0.url is None,
        failure(EnvCheckView::NodeTooOld { major })->0.error == Some(
            "Node.js 版本过低（v"@ + decimal(major as nat) + "），dsh 需要 ≥"@ + decimal(22)
                + "。"@,
        ),
        failure(EnvCheckView::NodeTooOld { major })->0.error_kind == Some("node_too_old"@),
{
}

/// The settings window is told the paths and the version of what was found, or else what is
/// missing or too old.
pub proof fn reports_say_what_was_found(major: u32, env: EnvironmentView)
    ensures
        report(EnvCheckView::Found(env)) == Ok::<Seq<char>, Seq<char>>(
            "✅ 就绪\ndsh: "@ + env.dsh_path + "\nnode: "@ + env.node_path + " (v"@ + decimal(
                env.node_major as nat,
            ) + ")"@,
        ),
        report(EnvCheckView::MissingDsh) == Err::<Seq<char>, Seq<char>>(
            "未找到可用的 dsh：路径无效、不可执行，或留空时自动探测失败"@,
        ),
        report(EnvCheckView::MissingNode) == Err::<Seq<char>, Seq<char>>(
            "未找到可用的 Node.js（需要 ≥22）"@,
        ),
        report(EnvCheckView::NodeTooOld { major }) == Err::<Seq<char>, Seq<char>>(
            "Node.js 版本过低（v"@ + decimal(major as nat) + "），dsh 需要 ≥"@ + decimal(22),
        ),
{
}

} // verus!
