use dsh_ui::paths::{
    append_dirs, child_path, dirs_from_path, extra_bin_dirs, join, search_dirs, search_dirs_with,
    EXTRA_BIN_DIRS,
};

fn strings(list: &[&str]) -> Vec<String> {
    list.iter().map(|s| s.to_string()).collect()
}

#[test]
fn dirs_from_path_splits_on_colon_and_skips_empty_segments() {
    let dirs = dirs_from_path("/a:/b::/c:");
    assert_eq!(dirs, strings(&["/a", "/b", "/c"]));
}

#[test]
fn dirs_from_path_empty_input_returns_empty() {
    assert!(dirs_from_path("").is_empty());
}

#[test]
fn search_dirs_appends_gui_fallback_dirs_after_inherited_path() {
    let dirs = search_dirs(Some("/a:/b"));
    assert_eq!(dirs, strings(&["/a", "/b", "/usr/local/bin", "/opt/homebrew/bin"]));
}

#[test]
fn search_dirs_without_path_env_still_has_fallbacks() {
    assert_eq!(search_dirs(None), strings(&["/usr/local/bin", "/opt/homebrew/bin"]));
}

#[test]
fn child_path_puts_probe_dirs_first_then_inherited() {
    let dirs = strings(&["/usr/local/bin", "/opt/homebrew/bin"]);
    assert_eq!(
        child_path(&dirs, Some("/bin:/usr/bin")),
        "/usr/local/bin:/opt/homebrew/bin:/bin:/usr/bin"
    );
}

#[test]
fn child_path_without_inherited_is_probe_dirs_only() {
    let dirs = strings(&["/usr/local/bin"]);
    assert_eq!(child_path(&dirs, None), "/usr/local/bin");
}

#[test]
fn fallback_dirs_are_the_two_known_ones() {
    assert_eq!(EXTRA_BIN_DIRS, ["/usr/local/bin", "/opt/homebrew/bin"]);
    assert_eq!(extra_bin_dirs(), strings(&["/usr/local/bin", "/opt/homebrew/bin"]));
}

#[test]
fn search_dirs_with_puts_the_given_dirs_last() {
    assert_eq!(search_dirs_with(Some("/a:"), &strings(&["/x"])), strings(&["/a", "/x"]));
    assert_eq!(search_dirs_with(None, &strings(&["/x"])), strings(&["/x"]));
}

#[test]
fn append_dirs_keeps_the_order() {
    let mut dirs = strings(&["/a"]);
    append_dirs(&mut dirs, &strings(&["/b", "/c"]));
    assert_eq!(dirs, strings(&["/a", "/b", "/c"]));
}

#[test]
fn join_agrees_with_the_standard_library() {
    for dir in ["", "/", "/a", "/a/", "a", "a/b", "a//", "."] {
        for name in ["dsh", "x/y", "/abs", "", "."] {
            let expected = std::path::Path::new(dir).join(name);
            assert_eq!(join(dir, name), expected.to_str().unwrap(), "{dir:?} {name:?}");
        }
    }
}

#[test]
fn child_path_splits_back_into_its_dirs() {
    let dirs = strings(&["/x", "", "/y"]);
    let path = child_path(&dirs, Some("/bin::/usr/bin"));
    assert_eq!(path, "/x::/y:/bin::/usr/bin");
    assert_eq!(dirs_from_path(&path), strings(&["/x", "/y", "/bin", "/usr/bin"]));
    assert_eq!(child_path(&[], None), "");
    assert_eq!(child_path(&[], Some("/bin")), "/bin");
}

#[test]
fn dirs_from_path_handles_text_beyond_ascii() {
    assert_eq!(dirs_from_path("/工具:/é"), strings(&["/工具", "/é"]));
    assert_eq!(dirs_from_path(":::"), Vec::<String>::new());
}
