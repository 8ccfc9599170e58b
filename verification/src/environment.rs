//! Finding `dsh` and Node.js on a machine.
//!
//! The search asks one question at a time (is this path an executable file, what does this
//! program print as its version) and the caller answers it; what is asked and what is concluded
//! is decided here.

use crate::numbers::{only_numerals_are_read, parse_unsigned, parse_unsigned_up_to};
use crate::paths::{
    extra_bin_dirs, extra_dirs, join, join_path, opt_path_dirs, search_dirs_with,
};
use crate::text::{
    chars_of, has_prefix, lead_len, lemma_lead_len, lemma_lead_len_is, opt_str, opt_text, other_than, strip_prefix,
    texts, trim, trim_text,
};
use vstd::prelude::*;
use vstd::utf8::{decode_utf8, valid_utf8};

verus! {

/// The lowest major version of Node.js that `dsh` runs on.
pub const MIN_NODE_MAJOR: u32 = 22;

/// The major version in the output of `node --version`: after a `v`, the numeral before the
/// first dot. White space around the output does not matter.
pub open spec fn node_major(output: Seq<char>) -> Option<int> {
    let t = trim(output);
    if has_prefix(t, "v"@) {
        let rest = t.skip(1);
        parse_unsigned(rest.take(lead_len(rest, other_than('.')) as int), u32::MAX as int)
    } else {
        None
    }
}

/// Reads the major version from the output of `node --version`.
pub fn parse_node_version(output: &str) -> (r: Option<u32>)
    ensures
        r is Some <==> node_major(output@) is Some,
        r matches Some(v) ==> node_major(output@) == Some(v as int),
{
    proof {
        reveal_strlit("v");
    }
    let rest: &str = match strip_prefix(trim_text(output), "v") {
        Some(t) => t,
        None => return None,
    };
    let cs: Vec<char> = chars_of(rest);
    let n: usize = cs.len();
    let mut i: usize = 0;
    while i < n && cs[i] != '.'
        invariant
            i <= n,
            n == cs@.len(),
            cs@ == rest@,
            forall|j: int| 0 <= j < i ==> #[trigger] rest@[j] != '.',
        decreases n - i,
    {
        i = i + 1;
    }
    proof {
        assert forall|j: int| 0 <= j < i implies other_than('.')(#[trigger] rest@[j]) by {}
        lemma_lead_len_is(rest@, other_than('.'), i as int);
    }
    match parse_unsigned_up_to(rest.substring_char(0, i), u32::MAX as u64) {
        Some(v) => Some(v as u32),
        None => None,
    }
}

/// Whether a major version of Node.js is recent enough.
pub fn node_version_ok(major: u32) -> (r: bool)
    ensures
        r == (major >= MIN_NODE_MAJOR),
{
    major >= MIN_NODE_MAJOR
}

/// What was found: where `dsh` and Node.js are, and the major version of Node.js.
#[derive(Debug, Clone)]
pub struct Environment {
    pub dsh_path: String,
    pub node_path: String,
    pub node_major: u32,
}

/// The view of an [`Environment`].
pub struct EnvironmentView {
    pub dsh_path: Seq<char>,
    pub node_path: Seq<char>,
    pub node_major: u32,
}

impl View for Environment {
    type V = EnvironmentView;

    open spec fn view(&self) -> EnvironmentView {
        EnvironmentView {
            dsh_path: self.dsh_path@,
            node_path: self.node_path@,
            node_major: self.node_major,
        }
    }
}

/// The conclusion of a search; each failure calls for its own advice.
#[derive(Debug)]
pub enum EnvCheck {
    /// Everything that `dsh` needs is there.
    Found(Environment),
    /// No executable `dsh`.
    MissingDsh,
    /// No executable Node.js, or one whose version output makes no sense.
    MissingNode,
    /// Node.js is older than `dsh` needs.
    NodeTooOld { major: u32 },
}

/// The view of an [`EnvCheck`].
pub enum EnvCheckView {
    Found(EnvironmentView),
    MissingDsh,
    MissingNode,
    NodeTooOld { major: u32 },
}

impl View for EnvCheck {
    type V = EnvCheckView;

    open spec fn view(&self) -> EnvCheckView {
        match self {
            EnvCheck::Found(env) => EnvCheckView::Found(env@),
            EnvCheck::MissingDsh => EnvCheckView::MissingDsh,
            EnvCheck::MissingNode => EnvCheckView::MissingNode,
            EnvCheck::NodeTooOld { major } => EnvCheckView::NodeTooOld { major: *major },
        }
    }
}

/// Paths that the user has set by hand; where one is set, nothing else is tried.
#[derive(Debug, Clone)]
pub struct EnvOverrides {
    pub dsh: Option<String>,
    pub node: Option<String>,
}

impl Default for EnvOverrides {
    fn default() -> (r: Self)
        ensures
            r.dsh is None,
            r.node is None,
    {
        EnvOverrides { dsh: None, node: None }
    }
}

/// Whether a file counts as executable, given whether it is a regular file and its permission
/// bits; `None` if these could not be found out, in which case it does not.
pub fn is_executable_path(meta: Option<(bool, u32)>) -> (r: bool)
    ensures
        r == (meta matches Some((is_file, mode)) && is_file && mode & 0o111 != 0),
{
    match meta {
        Some((is_file, mode)) => is_file && mode & 0o111 != 0,
        None => false,
    }
}

/// What a search for one executable asks or has concluded.
#[derive(Debug)]
pub enum SearchStatus {
    /// Is this path an executable regular file?
    Probe(String),
    /// This path is the one.
    Found(String),
    /// There is none.
    Missing,
}

/// The view of a [`SearchStatus`].
pub enum SearchStatusView {
    Probe(Seq<char>),
    Found(Seq<char>),
    Missing,
}

impl View for SearchStatus {
    type V = SearchStatusView;

    open spec fn view(&self) -> SearchStatusView {
        match self {
            SearchStatus::Probe(p) => SearchStatusView::Probe(p@),
            SearchStatus::Found(p) => SearchStatusView::Found(p@),
            SearchStatus::Missing => SearchStatusView::Missing,
        }
    }
}

/// A search for one executable among candidate paths, in order.
pub struct ExecutableSearch {
    candidates: Vec<String>,
    next: usize,
    found: bool,
}

/// The view of an [`ExecutableSearch`]: the candidates, the one whose turn it is, and whether
/// that one is known to be executable.
#[verifier::ext_equal]
pub struct SearchView {
    pub candidates: Seq<Seq<char>>,
    pub next: nat,
    pub found: bool,
}

impl View for ExecutableSearch {
    type V = SearchView;

    closed spec fn view(&self) -> SearchView {
        SearchView {
            candidates: texts(self.candidates@),
            next: self.next as nat,
            found: self.found,
        }
    }
}

impl SearchView {
    /// A search that has not asked anything yet.
    pub open spec fn start(candidates: Seq<Seq<char>>) -> SearchView {
        SearchView { candidates, next: 0, found: false }
    }

    /// What the search asks or has concluded.
    pub open spec fn status(self) -> SearchStatusView {
        if self.next >= self.candidates.len() {
            SearchStatusView::Missing
        } else if self.found {
            SearchStatusView::Found(self.candidates[self.next as int])
        } else {
            SearchStatusView::Probe(self.candidates[self.next as int])
        }
    }

    /// The search after an answer; one that asks nothing stays as it is.
    pub open spec fn record(self, executable: bool) -> SearchView {
        if self.status() is Probe {
            if executable {
                SearchView { found: true, ..self }
            } else {
                SearchView { next: self.next + 1, ..self }
            }
        } else {
            self
        }
    }

    /// How many answers the search may still need.
    pub open spec fn questions_left(self) -> int {
        if self.status() is Probe {
            self.candidates.len() - self.next
        } else {
            0
        }
    }

    /// The search after all its questions were answered by `exec`.
    pub open spec fn settle(self, exec: spec_fn(Seq<char>) -> bool) -> SearchView
        decreases self.questions_left(),
    {
        match self.status() {
            SearchStatusView::Probe(p) => self.record(exec(p)).settle(exec),
            _ => self,
        }
    }
}

/// The first of `candidates` that `exec` holds of.
pub open spec fn first_executable(
    candidates: Seq<Seq<char>>,
    exec: spec_fn(Seq<char>) -> bool,
) -> Option<Seq<char>>
    decreases candidates.len(),
{
    if candidates.len() == 0 {
        None
    } else if exec(candidates[0]) {
        Some(candidates[0])
    } else {
        first_executable(candidates.drop_first(), exec)
    }
}

/// The paths at which `name` could be: one in each directory.
pub open spec fn paths_in(dirs: Seq<Seq<char>>, name: Seq<char>) -> Seq<Seq<char>> {
    dirs.map_values(|dir: Seq<char>| join_path(dir, name))
}

impl ExecutableSearch {
    /// What the search asks or has concluded.
    pub fn status(&self) -> (r: SearchStatus)
        ensures
            r@ == self@.status(),
    {
        if self.next >= self.candidates.len() {
            SearchStatus::Missing
        } else {
            let path: String = self.candidates[self.next].as_str().to_owned();
            if self.found {
                SearchStatus::Found(path)
            } else {
                SearchStatus::Probe(path)
            }
        }
    }

    /// Takes the answer to the question that the search asks.
    pub fn record(&mut self, executable: bool)
        ensures
            final(self)@ == old(self)@.record(executable),
    {
        if self.next < self.candidates.len() && !self.found {
            if executable {
                self.found = true;
            } else {
                self.next = self.next + 1;
            }
        }
    }
}

/// Starts a search for the executable `name` in `search_dirs`, in their order.
pub fn find_executable(name: &str, search_dirs: &[String]) -> (r: ExecutableSearch)
    ensures
        r@ == SearchView::start(paths_in(texts(search_dirs@), name@)),
{
    let mut candidates: Vec<String> = Vec::new();
    let ghost all = paths_in(texts(search_dirs@), name@);
    let mut i: usize = 0;
    while i < search_dirs.len()
        invariant
            i <= search_dirs.len(),
            all == paths_in(texts(search_dirs@), name@),
            texts(candidates@) == all.take(i as int),
        decreases search_dirs.len() - i,
    {
        let ghost so_far = texts(candidates@);
        candidates.push(join(search_dirs[i].as_str(), name));
        proof {
            assert(all[i as int] == join_path(search_dirs@[i as int]@, name@));
            assert(texts(candidates@) =~= so_far.push(all[i as int]));
            assert(texts(candidates@) =~= all.take(i + 1));
        }
        i = i + 1;
    }
    proof {
        assert(all.take(i as int) =~= all);
    }
    ExecutableSearch { candidates, next: 0, found: false }
}

/// A search that finds what `exec` says: the first executable candidate, or that there is none.
pub proof fn search_finds_the_first_executable(
    candidates: Seq<Seq<char>>,
    exec: spec_fn(Seq<char>) -> bool,
)
    ensures
        SearchView::start(candidates).settle(exec).status() == (match first_executable(
            candidates,
            exec,
        ) {
            Some(p) => SearchStatusView::Found(p),
            None => SearchStatusView::Missing,
        }),
{
    lemma_search_from(SearchView::start(candidates), exec);
    assert(candidates.skip(0) =~= candidates);
}

proof fn lemma_search_from(search: SearchView, exec: spec_fn(Seq<char>) -> bool)
    requires
        search.next <= search.candidates.len(),
        !search.found,
    ensures
        search.settle(exec).status() == (match first_executable(
            search.candidates.skip(search.next as int),
            exec,
        ) {
            Some(p) => SearchStatusView::Found(p),
            None => SearchStatusView::Missing,
        }),
    decreases search.candidates.len() - search.next,
{
    if search.next < search.candidates.len() {
        let p = search.candidates[search.next as int];
        let rest = search.candidates.skip(search.next as int);
        assert(rest[0] == p);
        if exec(p) {
            reveal_with_fuel(SearchView::settle, 2);
        } else {
            assert(rest.drop_first() =~= search.candidates.skip(search.next as int + 1));
            lemma_search_from(search.record(false), exec);
        }
    }
}

/// The paths to try for a program: the one the user has set, or else one in each directory.
pub open spec fn candidates(
    set: Option<Seq<char>>,
    dirs: Seq<Seq<char>>,
    name: Seq<char>,
) -> Seq<Seq<char>> {
    match set {
        Some(p) => seq![p],
        None => paths_in(dirs, name),
    }
}

/// Starts the search for a program that the user may have set by hand.
fn find_program(set: &Option<String>, dirs: &[String], name: &str) -> (r: ExecutableSearch)
    ensures
        r@ == SearchView::start(candidates(opt_text(*set), texts(dirs@), name@)),
{
    match set {
        Some(p) => {
            let mut one: Vec<String> = Vec::new();
            one.push(p.as_str().to_owned());
            proof {
                assert(texts(one@) =~= seq![p@]);
            }
            ExecutableSearch { candidates: one, next: 0, found: false }
        },
        None => find_executable(name, dirs),
    }
}

/// What the output of `node --version` leads to, once both programs are found.
pub open spec fn version_verdict(
    dsh_path: Seq<char>,
    node_path: Seq<char>,
    output: Option<Seq<char>>,
) -> EnvCheckView {
    match output {
        None => EnvCheckView::MissingNode,
        Some(out) => match node_major(out) {
            None => EnvCheckView::MissingNode,
            Some(major) => if major >= MIN_NODE_MAJOR {
                EnvCheckView::Found(
                    EnvironmentView { dsh_path, node_path, node_major: major as u32 },
                )
            } else {
                EnvCheckView::NodeTooOld { major: major as u32 }
            },
        },
    }
}

/// Draws the conclusion from what `node --version` printed; `None` if it could not be run.
pub fn judge_version(dsh_path: String, node_path: String, output: Option<&str>) -> (r: EnvCheck)
    ensures
        r@ == version_verdict(dsh_path@, node_path@, opt_str(output)),
{
    match output {
        None => EnvCheck::MissingNode,
        Some(out) => match parse_node_version(out) {
            None => EnvCheck::MissingNode,
            Some(major) => if node_version_ok(major) {
                EnvCheck::Found(Environment { dsh_path, node_path, node_major: major })
            } else {
                EnvCheck::NodeTooOld { major }
            },
        },
    }
}

/// What a detection asks or has concluded.
#[derive(Debug)]
pub enum DetectionStep {
    /// Is this path an executable regular file?
    Probe(String),
    /// What does this program print when it is run with `--version`?
    RunVersion(String),
    /// The conclusion.
    Done(EnvCheck),
}

/// The view of a [`DetectionStep`].
pub enum DetectionStepView {
    Probe(Seq<char>),
    RunVersion(Seq<char>),
    Done(EnvCheckView),
}

impl View for DetectionStep {
    type V = DetectionStepView;

    open spec fn view(&self) -> DetectionStepView {
        match self {
            DetectionStep::Probe(p) => DetectionStepView::Probe(p@),
            DetectionStep::RunVersion(p) => DetectionStepView::RunVersion(p@),
            DetectionStep::Done(check) => DetectionStepView::Done(check@),
        }
    }
}

/// A detection under way: the two searches, and what Node.js printed, if it was asked.
pub struct Detection {
    dsh: ExecutableSearch,
    node: ExecutableSearch,
    version: Option<Option<String>>,
}

/// The view of a [`Detection`].
pub struct DetectionView {
    pub dsh: SearchView,
    pub node: SearchView,
    pub version: Option<Option<Seq<char>>>,
}

impl View for Detection {
    type V = DetectionView;

    closed spec fn view(&self) -> DetectionView {
        DetectionView {
            dsh: self.dsh@,
            node: self.node@,
            version: match self.version {
                Some(output) => Some(opt_text(output)),
                None => None,
            },
        }
    }
}

impl DetectionView {
    /// A detection that has not asked anything yet.
    pub open spec fn start(
        dsh_candidates: Seq<Seq<char>>,
        node_candidates: Seq<Seq<char>>,
    ) -> DetectionView {
        DetectionView {
            dsh: SearchView::start(dsh_candidates),
            node: SearchView::start(node_candidates),
            version: None,
        }
    }

    /// What the detection asks or has concluded: `dsh` is looked for first, then Node.js, whose
    /// version is asked for last.
    pub open spec fn step(self) -> DetectionStepView {
        match self.dsh.status() {
            SearchStatusView::Probe(p) => DetectionStepView::Probe(p),
            SearchStatusView::Missing => DetectionStepView::Done(EnvCheckView::MissingDsh),
            SearchStatusView::Found(d) => match self.node.status() {
                SearchStatusView::Probe(p) => DetectionStepView::Probe(p),
                SearchStatusView::Missing => DetectionStepView::Done(EnvCheckView::MissingNode),
                SearchStatusView::Found(n) => match self.version {
                    None => DetectionStepView::RunVersion(n),
                    Some(output) => DetectionStepView::Done(version_verdict(d, n, output)),
                },
            },
        }
    }

    /// The detection after the answer to a [`DetectionStep::Probe`].
    pub open spec fn record_probe(self, executable: bool) -> DetectionView {
        if self.step() is Probe {
            if self.dsh.status() is Probe {
                DetectionView { dsh: self.dsh.record(executable), ..self }
            } else {
                DetectionView { node: self.node.record(executable), ..self }
            }
        } else {
            self
        }
    }

    /// The detection after the answer to a [`DetectionStep::RunVersion`].
    pub open spec fn record_version(self, output: Option<Seq<char>>) -> DetectionView {
        if self.step() is RunVersion {
            DetectionView { version: Some(output), ..self }
        } else {
            self
        }
    }

    /// How many answers the detection may still need.
    pub open spec fn questions_left(self) -> int {
        self.dsh.questions_left() + self.node.questions_left() + (if self.version is None {
            1int
        } else {
            0
        })
    }

    /// The detection after all its questions were answered: by `exec` whether a path is
    /// executable, by `version` what a program prints.
    pub open spec fn settle(
        self,
        exec: spec_fn(Seq<char>) -> bool,
        version: spec_fn(Seq<char>) -> Option<Seq<char>>,
    ) -> DetectionView
        decreases self.questions_left(),
    {
        match self.step() {
            DetectionStepView::Probe(p) => self.record_probe(exec(p)).settle(exec, version),
            DetectionStepView::RunVersion(p) => self.record_version(version(p)).settle(
                exec,
                version,
            ),
            DetectionStepView::Done(_) => self,
        }
    }
}

impl Detection {
    /// What the detection asks or has concluded.
    pub fn step(&self) -> (r: DetectionStep)
        ensures
            r@ == self@.step(),
    {
        match self.dsh.status() {
            SearchStatus::Probe(p) => DetectionStep::Probe(p),
            SearchStatus::Missing => DetectionStep::Done(EnvCheck::MissingDsh),
            SearchStatus::Found(d) => match self.node.status() {
                SearchStatus::Probe(p) => DetectionStep::Probe(p),
                SearchStatus::Missing => DetectionStep::Done(EnvCheck::MissingNode),
                SearchStatus::Found(n) => match &self.version {
                    None => DetectionStep::RunVersion(n),
                    Some(output) => {
                        let printed: Option<&str> = match output {
                            Some(out) => Some(out.as_str()),
                            None => None,
                        };
                        DetectionStep::Done(judge_version(d, n, printed))
                    },
                },
            },
        }
    }

    /// Takes the answer to a [`DetectionStep::Probe`].
    pub fn record_probe(&mut self, executable: bool)
        ensures
            final(self)@ == old(self)@.record_probe(executable),
    {
        match self.dsh.status() {
            SearchStatus::Probe(_) => {
                self.dsh.record(executable);
            },
            SearchStatus::Missing => {},
            SearchStatus::Found(_) => {
                self.node.record(executable);
            },
        }
    }

    /// Takes the answer to a [`DetectionStep::RunVersion`]: what was printed, or `None` if the
    /// program could not be run, failed or printed no text.
    pub fn record_version(&mut self, output: Option<String>)
        ensures
            final(self)@ == old(self)@.record_version(opt_text(output)),
    {
        match self.step() {
            DetectionStep::RunVersion(_) => {
                self.version = Some(output);
            },
            _ => {},
        }
    }
}

/// Starts a detection in the directories of `path_env` and then in `extra_dirs`, unless the user
/// has set the paths.
pub fn detect_environment_with_dirs(
    path_env: Option<&str>,
    extra_dirs: &[String],
    overrides: &EnvOverrides,
) -> (r: Detection)
    ensures
        r@ == detection_start(
            opt_path_dirs(opt_str(path_env)) + texts(extra_dirs@),
            opt_text(overrides.dsh),
            opt_text(overrides.node),
        ),
{
    let dirs: Vec<String> = search_dirs_with(path_env, extra_dirs);
    Detection {
        dsh: find_program(&overrides.dsh, dirs.as_slice(), "dsh"),
        node: find_program(&overrides.node, dirs.as_slice(), "node"),
        version: None,
    }
}

/// Starts a detection in the directories of `path_env` and then in the fallback directories,
/// unless the user has set the paths.
pub fn detect_environment(path_env: Option<&str>, overrides: &EnvOverrides) -> (r: Detection)
    ensures
        r@ == detection_start(
            opt_path_dirs(opt_str(path_env)) + extra_dirs(),
            opt_text(overrides.dsh),
            opt_text(overrides.node),
        ),
{
    let fallbacks: Vec<String> = extra_bin_dirs();
    detect_environment_with_dirs(path_env, fallbacks.as_slice(), overrides)
}

/// The detection of `dsh` and `node` in `dirs`, before anything was asked.
pub open spec fn detection_start(
    dirs: Seq<Seq<char>>,
    dsh: Option<Seq<char>>,
    node: Option<Seq<char>>,
) -> DetectionView {
    DetectionView::start(candidates(dsh, dirs, "dsh"@), candidates(node, dirs, "node"@))
}

/// What there is to conclude about a machine on which `exec` tells the executable files and
/// `version` what programs print as their version.
pub open spec fn environment_of(
    dsh_candidates: Seq<Seq<char>>,
    node_candidates: Seq<Seq<char>>,
    exec: spec_fn(Seq<char>) -> bool,
    version: spec_fn(Seq<char>) -> Option<Seq<char>>,
) -> EnvCheckView {
    match first_executable(dsh_candidates, exec) {
        None => EnvCheckView::MissingDsh,
        Some(d) => match first_executable(node_candidates, exec) {
            None => EnvCheckView::MissingNode,
            Some(n) => version_verdict(d, n, version(n)),
        },
    }
}

proof fn lemma_settle_node(
    detection: DetectionView,
    dsh_path: Seq<char>,
    exec: spec_fn(Seq<char>) -> bool,
    version: spec_fn(Seq<char>) -> Option<Seq<char>>,
)
    requires
        detection.dsh.status() == SearchStatusView::Found(dsh_path),
        detection.node.next <= detection.node.candidates.len(),
        !detection.node.found,
        detection.version is None,
    ensures
        detection.settle(exec, version).step() == DetectionStepView::Done(
            match first_executable(
                detection.node.candidates.skip(detection.node.next as int),
                exec,
            ) {
                None => EnvCheckView::MissingNode,
                Some(n) => version_verdict(dsh_path, n, version(n)),
            },
        ),
    decreases detection.node.candidates.len() - detection.node.next,
{
    let node = detection.node;
    if node.next < node.candidates.len() {
        let p = node.candidates[node.next as int];
        let rest = node.candidates.skip(node.next as int);
        assert(rest[0] == p);
        if exec(p) {
            reveal_with_fuel(DetectionView::settle, 3);
        } else {
            assert(rest.drop_first() =~= node.candidates.skip(node.next as int + 1));
            lemma_settle_node(detection.record_probe(false), dsh_path, exec, version);
        }
    }
}

proof fn lemma_settle_dsh(
    detection: DetectionView,
    exec: spec_fn(Seq<char>) -> bool,
    version: spec_fn(Seq<char>) -> Option<Seq<char>>,
)
    requires
        detection.dsh.next <= detection.dsh.candidates.len(),
        !detection.dsh.found,
        detection.node == SearchView::start(detection.node.candidates),
        detection.version is None,
    ensures
        detection.settle(exec, version).step() == DetectionStepView::Done(
            environment_of(
                detection.dsh.candidates.skip(detection.dsh.next as int),
                detection.node.candidates,
                exec,
                version,
            ),
        ),
    decreases detection.dsh.candidates.len() - detection.dsh.next,
{
    let dsh = detection.dsh;
    if dsh.next < dsh.candidates.len() {
        let p = dsh.candidates[dsh.next as int];
        let rest = dsh.candidates.skip(dsh.next as int);
        assert(rest[0] == p);
        if exec(p) {
            assert(detection.node.candidates.skip(0) =~= detection.node.candidates);
            lemma_settle_node(detection.record_probe(true), p, exec, version);
        } else {
            assert(rest.drop_first() =~= dsh.candidates.skip(dsh.next as int + 1));
            lemma_settle_dsh(detection.record_probe(false), exec, version);
        }
    }
}

/// A detection whose questions are answered truthfully ends, and concludes what there is to
/// conclude about the machine.
pub proof fn detection_concludes_what_is_there(
    dsh_candidates: Seq<Seq<char>>,
    node_candidates: Seq<Seq<char>>,
    exec: spec_fn(Seq<char>) -> bool,
    version: spec_fn(Seq<char>) -> Option<Seq<char>>,
)
    ensures
        DetectionView::start(dsh_candidates, node_candidates).settle(exec, version).step()
            == DetectionStepView::Done(
            environment_of(dsh_candidates, node_candidates, exec, version),
        ),
{
    assert(dsh_candidates.skip(0) =~= dsh_candidates);
    lemma_settle_dsh(DetectionView::start(dsh_candidates, node_candidates), exec, version);
}

/// The first executable candidate is a candidate, is executable, and no candidate before it is.
pub proof fn first_executable_comes_first(
    candidates: Seq<Seq<char>>,
    exec: spec_fn(Seq<char>) -> bool,
)
    ensures
        match first_executable(candidates, exec) {
            Some(p) => exists|i: int|
                {
                    &&& 0 <= i < candidates.len()
                    &&& #[trigger] candidates[i] == p
                    &&& exec(p)
                    &&& forall|j: int| 0 <= j < i ==> !exec(#[trigger] candidates[j])
                },
            None => forall|i: int| 0 <= i < candidates.len() ==> !exec(#[trigger] candidates[i]),
        },
    decreases candidates.len(),
{
    if candidates.len() > 0 {
        if exec(candidates[0]) {
            assert(candidates[0] == first_executable(candidates, exec)->0);
        } else {
            let rest = candidates.drop_first();
            first_executable_comes_first(rest, exec);
            match first_executable(candidates, exec) {
                Some(p) => {
                    let i = choose|i: int|
                        {
                            &&& 0 <= i < rest.len()
                            &&& #[trigger] rest[i] == p
                            &&& exec(p)
                            &&& forall|j: int| 0 <= j < i ==> !exec(#[trigger] rest[j])
                        };
                    assert(candidates[i + 1] == p);
                    assert forall|j: int| 0 <= j < i + 1 implies !exec(#[trigger] candidates[j]) by {
                        if j > 0 {
                            assert(candidates[j] == rest[j - 1]);
                        }
                    }
                },
                None => {
                    assert forall|j: int| 0 <= j < candidates.len() implies !exec(
                        #[trigger] candidates[j],
                    ) by {
                        if j > 0 {
                            assert(candidates[j] == rest[j - 1]);
                        }
                    }
                },
            }
        }
    }
}

/// An environment that was found can be used: both programs are among the candidates and
/// executable, and Node.js printed a version that is recent enough.
pub proof fn found_environment_is_usable(
    dsh_candidates: Seq<Seq<char>>,
    node_candidates: Seq<Seq<char>>,
    exec: spec_fn(Seq<char>) -> bool,
    version: spec_fn(Seq<char>) -> Option<Seq<char>>,
)
    ensures
        environment_of(dsh_candidates, node_candidates, exec, version) matches EnvCheckView::Found(
            env,
        ) ==> {
            &&& dsh_candidates.contains(env.dsh_path)
            &&& exec(env.dsh_path)
            &&& node_candidates.contains(env.node_path)
            &&& exec(env.node_path)
            &&& version(env.node_path) matches Some(out)
            &&& node_major(out) == Some(env.node_major as int)
            &&& env.node_major >= MIN_NODE_MAJOR
        },
{
    first_executable_comes_first(dsh_candidates, exec);
    first_executable_comes_first(node_candidates, exec);
}

/// A path that the user has set is the only one tried: where it is not executable the program
/// counts as missing, whatever the directories hold, and where it is, it is the one used.
pub proof fn set_paths_are_decisive(
    dirs: Seq<Seq<char>>,
    dsh: Option<Seq<char>>,
    node: Option<Seq<char>>,
    exec: spec_fn(Seq<char>) -> bool,
    version: spec_fn(Seq<char>) -> Option<Seq<char>>,
)
    ensures
        ({
            let check = environment_of(
                candidates(dsh, dirs, "dsh"@),
                candidates(node, dirs, "node"@),
                exec,
                version,
            );
            &&& dsh matches Some(p) ==> if exec(p) {
                &&& !(check is MissingDsh)
                &&& check matches EnvCheckView::Found(env) ==> env.dsh_path == p
            } else {
                check is MissingDsh
            }
            &&& node matches Some(p) ==> if exec(p) {
                check matches EnvCheckView::Found(env) ==> env.node_path == p
            } else {
                check is MissingDsh || check is MissingNode
            }
        }),
{
    if let Some(p) = dsh {
        lemma_single_candidate(p, exec);
    }
    if let Some(p) = node {
        lemma_single_candidate(p, exec);
    }
}

proof fn lemma_single_candidate(p: Seq<char>, exec: spec_fn(Seq<char>) -> bool)
    ensures
        first_executable(seq![p], exec) == (if exec(p) {
            Some(p)
        } else {
            None
        }),
{
    reveal_with_fuel(first_executable, 2);
}

/// The text that a program printed, by `String::from_utf8`.
///
/// The contract claims that there is a text just where the bytes are valid UTF-8, and that it is
/// the one they encode.
#[verifier::external_body]
fn text_of_bytes(bytes: Vec<u8>) -> (r: Option<String>)
    ensures
        r is Some <==> valid_utf8(bytes@),
        r matches Some(s) ==> s@ == decode_utf8(bytes@),
{
    String::from_utf8(bytes).ok()
}

/// What a program that has ended printed: nothing counts if it failed or printed no text.
pub fn captured_output(success: bool, stdout: Vec<u8>) -> (r: Option<String>)
    ensures
        r is Some <==> success && valid_utf8(stdout@),
        r matches Some(s) ==> s@ == decode_utf8(stdout@),
{
    if success {
        text_of_bytes(stdout)
    } else {
        None
    }
}

/// A version output holds a major version just where, without the white space around it, it is a
/// `v`, a numeral, and nothing more or a dot and whatever follows it.
pub proof fn major_version_stands_before_the_dot(output: Seq<char>, major: int)
    ensures
        node_major(output) == Some(major) <==> exists|numeral: Seq<char>, rest: Seq<char>|
            {
                &&& trim(output) == #[trigger] (seq!['v'] + numeral + rest)
                &&& !numeral.contains('.')
                &&& rest.len() > 0 ==> rest[0] == '.'
                &&& parse_unsigned(numeral, u32::MAX as int) == Some(major)
            },
{
    reveal_strlit("v");
    assert("v"@ =~= seq!['v']);
    let t = trim(output);
    if node_major(output) == Some(major) {
        let all = t.skip(1);
        let n = lead_len(all, other_than('.')) as int;
        lemma_lead_len(all, other_than('.'));
        let numeral = all.take(n);
        let rest = all.skip(n);
        assert forall|i: int| 0 <= i < numeral.len() implies numeral[i] != '.' by {
            assert(other_than('.')(all[i]));
        }
        if rest.len() > 0 {
            assert(!other_than('.')(all[n]));
        }
        assert(t.take(1) == seq!['v']);
        assert(t =~= t.take(1) + all);
        assert(t =~= seq!['v'] + numeral + rest);
    }
    if exists|numeral: Seq<char>, rest: Seq<char>|
        {
            &&& t == #[trigger] (seq!['v'] + numeral + rest)
            &&& !numeral.contains('.')
            &&& rest.len() > 0 ==> rest[0] == '.'
            &&& parse_unsigned(numeral, u32::MAX as int) == Some(major)
        } {
        let (numeral, rest) = choose|numeral: Seq<char>, rest: Seq<char>|
            {
                &&& t == #[trigger] (seq!['v'] + numeral + rest)
                &&& !numeral.contains('.')
                &&& rest.len() > 0 ==> rest[0] == '.'
                &&& parse_unsigned(numeral, u32::MAX as int) == Some(major)
            };
        assert(t.take(1) =~= seq!['v']);
        let all = t.skip(1);
        assert(all =~= numeral + rest);
        assert forall|i: int| 0 <= i < numeral.len() implies other_than('.')(#[trigger] all[i]) by {
            assert(all[i] == numeral[i]);
            assert(numeral.contains(numeral[i]));
        }
        if rest.len() > 0 {
            assert(all[numeral.len() as int] == rest[0]);
        }
        lemma_lead_len_is(all, other_than('.'), numeral.len() as int);
        assert(all.take(numeral.len() as int) =~= numeral);
    }
}

/// Once both programs are found, the version of Node.js decides: it will do if and only if its
/// major version can be read and is 22 or later, and what will do is what was found.
pub proof fn version_decides(
    dsh_path: Seq<char>,
    node_path: Seq<char>,
    output: Option<Seq<char>>,
    major: int,
)
    ensures
        output is None ==> version_verdict(dsh_path, node_path, output) is MissingNode,
        output matches Some(out) ==> node_major(out) is None ==> version_verdict(
            dsh_path,
            node_path,
            output,
        ) is MissingNode,
        output matches Some(out) ==> node_major(out) == Some(major) && major >= 22 ==> {
            &&& version_verdict(dsh_path, node_path, output) matches EnvCheckView::Found(env)
            &&& env.dsh_path == dsh_path
            &&& env.node_path == node_path
            &&& env.node_major == major
        },
        output matches Some(out) ==> node_major(out) == Some(major) && major < 22 ==> {
            &&& version_verdict(dsh_path, node_path, output) matches EnvCheckView::NodeTooOld {
                major: found,
            }
            &&& found == major
        },
{
    if let Some(out) = output {
        if node_major(out) == Some(major) {
            major_is_a_number(out);
        }
    }
}

/// A major version that was read fits what it is kept in.
pub proof fn major_is_a_number(output: Seq<char>)
    ensures
        node_major(output) matches Some(major) ==> 0 <= major <= u32::MAX,
{
    let rest = trim(output).skip(1);
    only_numerals_are_read(
        rest.take(lead_len(rest, other_than('.')) as int),
        u32::MAX as int,
    );
}

/// A program is looked for at the path that the user has set, and nowhere else; or else in every
/// directory, in their order.
pub proof fn every_directory_is_a_candidate(
    set: Option<Seq<char>>,
    dirs: Seq<Seq<char>>,
    name: Seq<char>,
)
    ensures
        set matches Some(p) ==> candidates(set, dirs, name) == seq![p],
        set is None ==> candidates(set, dirs, name).len() == dirs.len(),
        set is None ==> forall|i: int|
            0 <= i < dirs.len() ==> #[trigger] candidates(set, dirs, name)[i] == join_path(
                dirs[i],
                name,
            ),
        paths_in(dirs, name).len() == dirs.len(),
        forall|i: int|
            0 <= i < dirs.len() ==> #[trigger] paths_in(dirs, name)[i] == join_path(dirs[i], name),
{
}

/// Whether each state of a search follows from the one before by a truthful answer to what that
/// one asks.
pub open spec fn search_run(states: Seq<SearchView>, exec: spec_fn(Seq<char>) -> bool) -> bool {
    forall|k: int|
        0 <= k < states.len() - 1 ==> (#[trigger] states[k].status() matches SearchStatusView::Probe(
            p,
        ) && states[k + 1] == states[k].record(exec(p)))
}

proof fn lemma_search_run(
    states: Seq<SearchView>,
    exec: spec_fn(Seq<char>) -> bool,
    k: int,
)
    requires
        search_run(states, exec),
        0 <= k < states.len(),
        !(states.last().status() is Probe),
    ensures
        states[k].settle(exec) == states.last(),
    decreases states.len() - k,
{
    if k < states.len() - 1 {
        lemma_search_run(states, exec, k + 1);
        assert(states[k].status() is Probe);
    }
}

/// However a search for an executable in some directories goes, once its questions are answered
/// truthfully it has found the first directory that holds one, or there is none that does.
pub proof fn search_goes_through_every_directory(
    dirs: Seq<Seq<char>>,
    name: Seq<char>,
    exec: spec_fn(Seq<char>) -> bool,
    states: Seq<SearchView>,
)
    requires
        states.len() > 0,
        states[0] == SearchView::start(paths_in(dirs, name)),
        search_run(states, exec),
        !(states.last().status() is Probe),
    ensures
        states.last().status() is Missing <==> forall|i: int|
            0 <= i < dirs.len() ==> !exec(#[trigger] join_path(dirs[i], name)),
        forall|i: int|
            {
                &&& 0 <= i < dirs.len()
                &&& exec(#[trigger] join_path(dirs[i], name))
                &&& forall|j: int| 0 <= j < i ==> !exec(#[trigger] join_path(dirs[j], name))
            } ==> states.last().status() == SearchStatusView::Found(join_path(dirs[i], name)),
{
    let paths = paths_in(dirs, name);
    lemma_search_run(states, exec, 0);
    search_finds_the_first_executable(paths, exec);
    lemma_first_in_dirs(dirs, name, exec);
}

/// What comes first among the candidates in directories.
proof fn lemma_first_in_dirs(
    dirs: Seq<Seq<char>>,
    name: Seq<char>,
    exec: spec_fn(Seq<char>) -> bool,
)
    ensures
        first_executable(paths_in(dirs, name), exec) is None <==> forall|i: int|
            0 <= i < dirs.len() ==> !exec(#[trigger] join_path(dirs[i], name)),
        forall|i: int|
            {
                &&& 0 <= i < dirs.len()
                &&& exec(#[trigger] join_path(dirs[i], name))
                &&& forall|j: int| 0 <= j < i ==> !exec(#[trigger] join_path(dirs[j], name))
            } ==> first_executable(paths_in(dirs, name), exec) == Some(join_path(dirs[i], name)),
{
    let paths = paths_in(dirs, name);
    first_executable_comes_first(paths, exec);
    let first = first_executable(paths, exec);
    if first is None {
        assert forall|i: int| 0 <= i < dirs.len() implies !exec(
            #[trigger] join_path(dirs[i], name),
        ) by {
            assert(!exec(paths[i]));
        }
    } else {
        let p = first->0;
        let n = choose|n: int|
            {
                &&& 0 <= n < paths.len()
                &&& #[trigger] paths[n] == p
                &&& exec(p)
                &&& forall|j: int| 0 <= j < n ==> !exec(#[trigger] paths[j])
            };
        assert(exec(join_path(dirs[n], name)));
        assert forall|i: int|
            {
                &&& 0 <= i < dirs.len()
                &&& exec(#[trigger] join_path(dirs[i], name))
                &&& forall|j: int| 0 <= j < i ==> !exec(#[trigger] join_path(dirs[j], name))
            } implies first == Some(join_path(dirs[i], name)) by {
            if i < n {
                assert(!exec(paths[i]));
            } else if n < i {
                assert(!exec(join_path(dirs[n], name)));
            }
        }
    }
}

/// Whether each state of a detection follows from the one before by a truthful answer to what
/// that one asks.
pub open spec fn detection_run(
    states: Seq<DetectionView>,
    exec: spec_fn(Seq<char>) -> bool,
    version: spec_fn(Seq<char>) -> Option<Seq<char>>,
) -> bool {
    forall|k: int|
        0 <= k < states.len() - 1 ==> match #[trigger] states[k].step() {
            DetectionStepView::Probe(p) => states[k + 1] == states[k].record_probe(exec(p)),
            DetectionStepView::RunVersion(p) => states[k + 1] == states[k].record_version(
                version(p),
            ),
            DetectionStepView::Done(_) => false,
        }
}

proof fn lemma_detection_run(
    states: Seq<DetectionView>,
    exec: spec_fn(Seq<char>) -> bool,
    version: spec_fn(Seq<char>) -> Option<Seq<char>>,
    k: int,
)
    requires
        detection_run(states, exec, version),
        0 <= k < states.len(),
        states.last().step() is Done,
    ensures
        states[k].settle(exec, version) == states.last(),
    decreases states.len() - k,
{
    if k < states.len() - 1 {
        lemma_detection_run(states, exec, version, k + 1);
        assert(!(states[k].step() is Done));
    }
}

/// Whether `path` is where a program is: at the path that the user has set, or else in the first
/// directory that holds an executable of that name.
pub open spec fn is_where(
    path: Seq<char>,
    set: Option<Seq<char>>,
    dirs: Seq<Seq<char>>,
    name: Seq<char>,
    exec: spec_fn(Seq<char>) -> bool,
) -> bool {
    match set {
        Some(p) => path == p && exec(p),
        None => exists|i: int|
            {
                &&& 0 <= i < dirs.len()
                &&& path == #[trigger] join_path(dirs[i], name)
                &&& exec(path)
                &&& forall|j: int| 0 <= j < i ==> !exec(#[trigger] join_path(dirs[j], name))
            },
    }
}

/// A program is somewhere if the path that the user has set is executable, or else if any of the
/// directories holds an executable of that name; and it is at one place only.
pub proof fn programs_are_where_they_are_first(
    set: Option<Seq<char>>,
    dirs: Seq<Seq<char>>,
    name: Seq<char>,
    exec: spec_fn(Seq<char>) -> bool,
    p: Seq<char>,
    q: Seq<char>,
)
    ensures
        set matches Some(s) ==> (is_where(p, set, dirs, name, exec) <==> p == s && exec(s)),
        set is None ==> ((exists|path: Seq<char>| #[trigger] is_where(path, set, dirs, name, exec))
            <==> exists|i: int|
            0 <= i < dirs.len() && exec(#[trigger] join_path(dirs[i], name))),
        set is None ==> forall|i: int|
            {
                &&& 0 <= i < dirs.len()
                &&& exec(#[trigger] join_path(dirs[i], name))
                &&& forall|j: int| 0 <= j < i ==> !exec(#[trigger] join_path(dirs[j], name))
            } ==> is_where(join_path(dirs[i], name), set, dirs, name, exec),
        is_where(p, set, dirs, name, exec) && is_where(q, set, dirs, name, exec) ==> p == q,
{
    lemma_where(set, dirs, name, exec, p);
    lemma_where(set, dirs, name, exec, q);
    if set is None {
        lemma_first_in_dirs(dirs, name, exec);
        let first = first_executable(paths_in(dirs, name), exec);
        if first is Some {
            lemma_where(set, dirs, name, exec, first->0);
            assert(is_where(first->0, set, dirs, name, exec));
        }
        if exists|path: Seq<char>| #[trigger] is_where(path, set, dirs, name, exec) {
            let path = choose|path: Seq<char>| #[trigger] is_where(path, set, dirs, name, exec);
            lemma_where(set, dirs, name, exec, path);
        }
    }
}

proof fn lemma_where(
    set: Option<Seq<char>>,
    dirs: Seq<Seq<char>>,
    name: Seq<char>,
    exec: spec_fn(Seq<char>) -> bool,
    path: Seq<char>,
)
    ensures
        first_executable(candidates(set, dirs, name), exec) == Some(path) <==> is_where(
            path,
            set,
            dirs,
            name,
            exec,
        ),
{
    match set {
        Some(p) => {
            lemma_single_candidate(p, exec);
        },
        None => {
            let paths = paths_in(dirs, name);
            lemma_first_in_dirs(dirs, name, exec);
            first_executable_comes_first(paths, exec);
            if first_executable(paths, exec) == Some(path) {
                let n = choose|n: int|
                    {
                        &&& 0 <= n < paths.len()
                        &&& #[trigger] paths[n] == path
                        &&& exec(path)
                        &&& forall|j: int| 0 <= j < n ==> !exec(#[trigger] paths[j])
                    };
                assert(path == join_path(dirs[n], name));
                assert forall|j: int| 0 <= j < n implies !exec(
                    #[trigger] join_path(dirs[j], name),
                ) by {
                    assert(!exec(paths[j]));
                }
            }
        },
    }
}

/// However a detection goes, once its questions are answered truthfully it has concluded what is
/// so: `dsh` is missing if it is nowhere, Node.js is missing if it is nowhere or prints no version
/// that can be read, it is too old below version 22, and else both are where they were found.
pub proof fn detection_tells_what_is_so(
    dirs: Seq<Seq<char>>,
    dsh: Option<Seq<char>>,
    node: Option<Seq<char>>,
    exec: spec_fn(Seq<char>) -> bool,
    version: spec_fn(Seq<char>) -> Option<Seq<char>>,
    states: Seq<DetectionView>,
    check: EnvCheckView,
)
    requires
        states.len() > 0,
        states[0] == detection_start(dirs, dsh, node),
        detection_run(states, exec, version),
        states.last().step() == DetectionStepView::Done(check),
    ensures
        check is MissingDsh <==> !(exists|p: Seq<char>|
            #[trigger] is_where(p, dsh, dirs, "dsh"@, exec)),
        check is MissingDsh || (check is MissingNode <==> forall|p: Seq<char>| #[trigger]
            is_where(p, node, dirs, "node"@, exec) ==> version(p) is None || node_major(
                version(p)->0,
            ) is None),
        check matches EnvCheckView::NodeTooOld { major } ==> {
            &&& major < 22
            &&& exists|p: Seq<char>| #[trigger]
                is_where(p, node, dirs, "node"@, exec) && version(p) is Some && node_major(
                    version(p)->0,
                ) == Some(major as int)
        },
        check matches EnvCheckView::Found(env) ==> {
            &&& is_where(env.dsh_path, dsh, dirs, "dsh"@, exec)
            &&& is_where(env.node_path, node, dirs, "node"@, exec)
            &&& version(env.node_path) is Some
            &&& node_major(version(env.node_path)->0) == Some(env.node_major as int)
            &&& env.node_major >= 22
        },
{
    let dsh_candidates = candidates(dsh, dirs, "dsh"@);
    let node_candidates = candidates(node, dirs, "node"@);
    lemma_detection_run(states, exec, version, 0);
    detection_concludes_what_is_there(dsh_candidates, node_candidates, exec, version);
    let d = first_executable(dsh_candidates, exec);
    let n = first_executable(node_candidates, exec);
    assert forall|p: Seq<char>| #[trigger] is_where(p, dsh, dirs, "dsh"@, exec) implies d == Some(
        p,
    ) by {
        lemma_where(dsh, dirs, "dsh"@, exec, p);
    }
    assert forall|p: Seq<char>| #[trigger] is_where(p, node, dirs, "node"@, exec) implies n == Some(
        p,
    ) by {
        lemma_where(node, dirs, "node"@, exec, p);
    }
    if d is Some {
        lemma_where(dsh, dirs, "dsh"@, exec, d->0);
        assert(is_where(d->0, dsh, dirs, "dsh"@, exec));
        if n is Some {
            lemma_where(node, dirs, "node"@, exec, n->0);
            assert(is_where(n->0, node, dirs, "node"@, exec));
            if version(n->0) is Some {
                major_is_a_number(version(n->0)->0);
            }
        }
    }
}

/// The views of what a detection deals in show all there is.
pub proof fn detection_views_show_everything(
    env: Environment,
    check: EnvCheck,
    status: SearchStatus,
    step: DetectionStep,
)
    ensures
        env@.dsh_path == env.dsh_path@,
        env@.node_path == env.node_path@,
        env@.node_major == env.node_major,
        check matches EnvCheck::Found(e) ==> check@ == EnvCheckView::Found(e@),
        check is MissingDsh ==> check@ is MissingDsh,
        check is MissingNode ==> check@ is MissingNode,
        check matches EnvCheck::NodeTooOld { major } ==> check@ == (EnvCheckView::NodeTooOld {
            major,
        }),
        status matches SearchStatus::Probe(p) ==> status@ == SearchStatusView::Probe(p@),
        status matches SearchStatus::Found(p) ==> status@ == SearchStatusView::Found(p@),
        status is Missing ==> status@ is Missing,
        step matches DetectionStep::Probe(p) ==> step@ == DetectionStepView::Probe(p@),
        step matches DetectionStep::RunVersion(p) ==> step@ == DetectionStepView::RunVersion(p@),
        step matches DetectionStep::Done(c) ==> step@ == DetectionStepView::Done(c@),
{
}

} // verus!
