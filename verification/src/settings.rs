//! The configuration of the application: where `dsh` and Node.js are, if the user has said so.

use crate::environment::EnvOverrides;
use crate::paths::{join, join_path};
use crate::text::{
    blank, is_white_space, lead_len, lemma_lead_len, lemma_lead_len_is, lemma_trail_len,
    lemma_trail_len_is, opt_text, trail_len, trim, trim_end, trim_start, trim_text,
    trimming_takes_off_white_space_alone,
};
use vstd::prelude::*;

verus! {

/// The configuration.
#[derive(Debug, Clone, PartialEq, Eq)]
pub struct AppConfig {
    /// The path of `dsh`; `None` to look for it.
    pub dsh_path: Option<String>,
    /// The path of Node.js; `None` to look for it.
    pub node_path: Option<String>,
}

impl Default for AppConfig {
    fn default() -> (r: Self)
        ensures
            r.dsh_path is None,
            r.node_path is None,
    {
        AppConfig { dsh_path: None, node_path: None }
    }
}

/// The name of the file that the configuration is kept in.
pub const CONFIG_FILE: &'static str = "config.json";

/// The path of the configuration file in `dir`.
pub fn config_path(dir: &str) -> (r: String)
    ensures
        r@ == join_path(dir@, "config.json"@),
{
    join(dir, CONFIG_FILE)
}

/// The configuration to use, given what could be read from the file: the default where there
/// is no file or its content makes no sense.
pub fn load(stored: Option<AppConfig>) -> (r: AppConfig)
    ensures
        stored matches Some(config) ==> r == config,
        stored is None ==> r.dsh_path is None && r.node_path is None,
{
    match stored {
        Some(config) => config,
        None => AppConfig::default(),
    }
}

/// What an input field says: nothing if it is blank, and otherwise its text without the white
/// space around it.
pub open spec fn normal_input(input: Option<Seq<char>>) -> Option<Seq<char>> {
    match input {
        Some(s) => if trim(s).len() > 0 {
            Some(trim(s))
        } else {
            None
        },
        None => None,
    }
}

/// Reads an input field.
pub fn normalize_input(input: &Option<String>) -> (r: Option<String>)
    ensures
        opt_text(r) == normal_input(opt_text(*input)),
{
    match input {
        Some(s) => {
            let t: &str = trim_text(s.as_str());
            if t.is_empty() {
                None
            } else {
                Some(t.to_owned())
            }
        },
        None => None,
    }
}

/// The paths that a configuration sets.
pub fn overrides_of(config: &AppConfig) -> (r: EnvOverrides)
    ensures
        opt_text(r.dsh) == normal_input(opt_text(config.dsh_path)),
        opt_text(r.node) == normal_input(opt_text(config.node_path)),
{
    EnvOverrides {
        dsh: normalize_input(&config.dsh_path),
        node: normalize_input(&config.node_path),
    }
}

/// A field counts as blank just where it holds white space alone.
pub proof fn blank_input_counts_as_none(s: Seq<char>)
    ensures
        normal_input(Some(s)) is None <==> forall|i: int|
            0 <= i < s.len() ==> is_white_space(#[trigger] s[i]),
{
    lemma_lead_len(s, blank());
    let n = lead_len(s, blank()) as int;
    let t = trim_start(s);
    lemma_trail_len(t, blank());
    if n < s.len() {
        assert(t[0] == s[n]);
        assert(!blank()(s[n]));
        if trail_len(t, blank()) == t.len() {
            assert(blank()(t[0]));
        }
    } else {
        assert forall|i: int| 0 <= i < s.len() implies is_white_space(#[trigger] s[i]) by {
            assert(blank()(s[i]));
        }
    }
}

/// What was read from a field has no white space at its ends, and reads as itself.
pub proof fn normal_input_is_stable(input: Option<Seq<char>>)
    ensures
        normal_input(normal_input(input)) == normal_input(input),
        normal_input(input) matches Some(t) ==> {
            &&& t.len() > 0
            &&& !is_white_space(t[0])
            &&& !is_white_space(t.last())
        },
{
    if let Some(s) = input {
        let t = trim_start(s);
        let u = trim_end(t);
        lemma_lead_len(s, blank());
        lemma_trail_len(t, blank());
        if u.len() > 0 {
            assert(u[0] == s[lead_len(s, blank()) as int]);
            assert(!blank()(u[0]));
            assert(!blank()(u.last()));
            lemma_lead_len_is(u, blank(), 0);
            assert(u.skip(0) =~= u);
            lemma_trail_len_is(u, blank(), 0);
            assert(u.take(u.len() as int) =~= u);
        }
    }
}

/// A field that is not blank is white space, then what it says, then white space: nothing else is
/// taken away, and nothing is changed.
pub proof fn input_is_what_stands_between_white_space(s: Seq<char>)
    ensures
        normal_input(None) is None,
        normal_input(Some(s)) matches Some(t) ==> {
            &&& t.len() > 0
            &&& !is_white_space(t[0])
            &&& !is_white_space(t.last())
            &&& exists|a: Seq<char>, b: Seq<char>|
                {
                    &&& s == #[trigger] (a + t + b)
                    &&& forall|i: int| 0 <= i < a.len() ==> is_white_space(#[trigger] a[i])
                    &&& forall|i: int| 0 <= i < b.len() ==> is_white_space(#[trigger] b[i])
                }
        },
{
    trimming_takes_off_white_space_alone(s);
}

/// Whatever white space is typed around a text, the field says that text.
pub proof fn white_space_around_input_does_not_matter(
    a: Seq<char>,
    t: Seq<char>,
    b: Seq<char>,
)
    requires
        t.len() > 0,
        !is_white_space(t[0]),
        !is_white_space(t.last()),
        forall|i: int| 0 <= i < a.len() ==> is_white_space(#[trigger] a[i]),
        forall|i: int| 0 <= i < b.len() ==> is_white_space(#[trigger] b[i]),
    ensures
        normal_input(Some(a + t + b)) == Some(t),
        normal_input(Some(t)) == Some(t),
{
    lemma_trim_to(a, t, b);
    let e = Seq::<char>::empty();
    lemma_trim_to(e, t, e);
    assert(e + t + e =~= t);
}

proof fn lemma_trim_to(a: Seq<char>, t: Seq<char>, b: Seq<char>)
    requires
        t.len() > 0,
        !is_white_space(t[0]),
        !is_white_space(t.last()),
        forall|i: int| 0 <= i < a.len() ==> is_white_space(#[trigger] a[i]),
        forall|i: int| 0 <= i < b.len() ==> is_white_space(#[trigger] b[i]),
    ensures
        trim(a + t + b) == t,
{
    let s = a + t + b;
    assert forall|i: int| 0 <= i < a.len() implies blank()(#[trigger] s[i]) by {
        assert(s[i] == a[i]);
    }
    assert(s[a.len() as int] == t[0]);
    lemma_lead_len_is(s, blank(), a.len() as int);
    let u = s.skip(a.len() as int);
    assert(u =~= t + b);
    assert forall|i: int| u.len() - b.len() <= i < u.len() implies blank()(#[trigger] u[i]) by {
        assert(u[i] == b[i - t.len()]);
    }
    assert(u[u.len() - b.len() - 1] == t.last());
    lemma_trail_len_is(u, blank(), b.len() as int);
    assert(u.take(t.len() as int) =~= t);
}

} // verus!
