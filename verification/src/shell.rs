//! What the shell does about what its pages, its tray and the system ask of it.

use crate::text::{opt_str, opt_text, same_text};
use crate::theme::{normal_theme, normalize_theme};
use vstd::prelude::*;

verus! {

/// The text that a JSON object holds under a key, as `serde_json` reads it: `None` if `json` is
/// no JSON, no object, or holds no text under that key.
pub uninterp spec fn json_text(json: Seq<char>, key: Seq<char>) -> Option<Seq<char>>;

/// Reads a text from a JSON object, by `serde_json::from_str`, `serde_json::Value::get` and
/// `serde_json::Value::as_str`.
///
/// The contract claims that the result depends on the JSON text and the key alone.
#[verifier::external_body]
fn json_text_of(json: &str, key: &str) -> (r: Option<String>)
    ensures
        opt_text(r) == json_text(json@, key@),
{
    let value: serde_json::Value = serde_json::from_str(json).ok()?;
    value.get(key).and_then(|text| text.as_str()).map(String::from)
}

/// The theme of a report, given the name it holds: a report without one counts as light.
pub fn reported_theme(name: Option<&str>) -> (r: &'static str)
    ensures
        r@ == (match opt_str(name) {
            Some(theme) => normal_theme(theme),
            None => normal_theme("light"@),
        }),
{
    match name {
        Some(theme) => normalize_theme(theme),
        None => normalize_theme("light"),
    }
}

/// The theme that a page reports in the payload of its event.
pub fn theme_of_payload(payload: &str) -> (r: &'static str)
    ensures
        r@ == (match json_text(payload@, "theme"@) {
            Some(theme) => normal_theme(theme),
            None => normal_theme("light"@),
        }),
{
    match json_text_of(payload, "theme") {
        Some(theme) => reported_theme(Some(theme.as_str())),
        None => reported_theme(None),
    }
}

/// How the window looks under a theme.
#[derive(Debug, Clone, Copy, PartialEq, Eq)]
pub struct WindowLook {
    /// Whether the system's dark appearance is used.
    pub dark: bool,
    /// The background, as red, green, blue and opacity.
    pub background: (u8, u8, u8, u8),
}

/// How the window looks under `theme`: black where it is dark, white otherwise.
pub fn window_look(theme: &str) -> (r: WindowLook)
    ensures
        r.dark == (theme@ == "dark"@),
        r.background == (if theme@ == "dark"@ {
            (0u8, 0u8, 0u8, 255u8)
        } else {
            (255u8, 255u8, 255u8, 255u8)
        }),
{
    if same_text(theme, "dark") {
        WindowLook { dark: true, background: (0, 0, 0, 255) }
    } else {
        WindowLook { dark: false, background: (255, 255, 255, 255) }
    }
}

/// What an item of the tray's menu asks for.
#[derive(Debug, Clone, Copy, PartialEq, Eq, Structural)]
pub enum TrayAction {
    /// Show the window.
    Show,
    /// Stop `dsh` and quit.
    Quit,
    /// Nothing.
    Ignore,
}

/// What the item `id` of the tray's menu asks for.
pub fn tray_action(id: &str) -> (r: TrayAction)
    ensures
        r == TrayAction::Show <==> id@ == "show"@,
        r == TrayAction::Quit <==> id@ == "quit"@,
{
    proof {
        reveal_strlit("show");
        reveal_strlit("quit");
        assert("show"@[0] != "quit"@[0]);
    }
    if same_text(id, "show") {
        TrayAction::Show
    } else if same_text(id, "quit") {
        TrayAction::Quit
    } else {
        TrayAction::Ignore
    }
}

/// Whether the item `id` of the menu opens the system's terminal.
pub fn opens_terminal(id: &str) -> (r: bool)
    ensures
        r == (id@ == "open_terminal"@),
{
    same_text(id, "open_terminal")
}

/// How long the shell waits for `dsh` to end before it exits, in seconds.
pub const QUIT_WAIT_SECS: u64 = 3;

/// Whether a request to exit is held up until `dsh` has stopped: it is, unless it comes with the
/// exit code that the shell itself sets.
pub fn holds_up_exit(code: Option<i32>) -> (r: bool)
    ensures
        r == (code is None),
{
    code.is_none()
}

} // verus!
