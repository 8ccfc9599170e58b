//! Light and dark.

use crate::text::{opt_str, same_text};
use vstd::prelude::*;

verus! {

/// The theme that a navigation to `url` signals, if it is such a signal.
pub open spec fn signalled_theme(url: Seq<char>) -> Option<Seq<char>> {
    if url == "dsh-theme://dark"@ {
        Some("dark"@)
    } else if url == "dsh-theme://light"@ {
        Some("light"@)
    } else {
        None
    }
}

/// The theme that a reported name stands for: what is not dark is light.
pub open spec fn normal_theme(theme: Seq<char>) -> Seq<char> {
    if theme == "dark"@ {
        "dark"@
    } else {
        "light"@
    }
}

/// Reads the theme that a navigation to `url` signals.
pub fn parse_theme_navigation(url: &str) -> (r: Option<&'static str>)
    ensures
        opt_str(r) == signalled_theme(url@),
{
    if same_text(url, "dsh-theme://dark") {
        Some("dark")
    } else if same_text(url, "dsh-theme://light") {
        Some("light")
    } else {
        None
    }
}

/// The theme that a reported name stands for.
pub fn normalize_theme(theme: &str) -> (r: &'static str)
    ensures
        r@ == normal_theme(theme@),
{
    if same_text(theme, "dark") {
        "dark"
    } else {
        "light"
    }
}

/// A normal theme stays what it is.
pub proof fn normal_theme_is_stable(theme: Seq<char>)
    ensures
        normal_theme(normal_theme(theme)) == normal_theme(theme),
{
}

/// A signal is the theme it carries behind a fixed prefix, and that theme is a normal one.
pub proof fn signals_carry_normal_themes(url: Seq<char>)
    ensures
        signalled_theme(url) matches Some(theme) ==> {
            &&& url == "dsh-theme://"@ + theme
            &&& normal_theme(theme) == theme
        },
{
    reveal_strlit("dsh-theme://dark");
    reveal_strlit("dsh-theme://light");
    reveal_strlit("dsh-theme://");
    reveal_strlit("dark");
    reveal_strlit("light");
    assert("dsh-theme://dark"@ =~= "dsh-theme://"@ + "dark"@);
    assert("dsh-theme://light"@ =~= "dsh-theme://"@ + "light"@);
}

/// Every theme there is has its signal, and nothing else is one.
pub proof fn signals_are_themes_behind_the_scheme(url: Seq<char>, theme: Seq<char>)
    ensures
        signalled_theme(url) == Some(theme) <==> {
            &&& theme == "dark"@ || theme == "light"@
            &&& url == "dsh-theme://"@ + theme
        },
{
    reveal_strlit("dsh-theme://dark");
    reveal_strlit("dsh-theme://light");
    reveal_strlit("dsh-theme://");
    reveal_strlit("dark");
    reveal_strlit("light");
    assert("dsh-theme://dark"@ =~= "dsh-theme://"@ + "dark"@);
    assert("dsh-theme://light"@ =~= "dsh-theme://"@ + "light"@);
    assert("dsh-theme://dark"@.len() != "dsh-theme://light"@.len());
    assert("dark"@.len() != "light"@.len());
}

/// Only dark is dark; whatever else is reported is light.
pub proof fn what_is_not_dark_is_light(theme: Seq<char>)
    ensures
        theme == "dark"@ ==> normal_theme(theme) == "dark"@,
        theme != "dark"@ ==> normal_theme(theme) == "light"@,
        "dark"@ != "light"@,
{
    reveal_strlit("dark");
    reveal_strlit("light");
    assert("dark"@.len() != "light"@.len());
}

} // verus!
