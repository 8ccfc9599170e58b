use dsh_ui::navigation::is_allowed_navigation;
use dsh_ui::theme::{normalize_theme, parse_theme_navigation};

#[test]
fn navigation_allows_shell_pages_regardless_of_port() {
    assert!(is_allowed_navigation("tauri://localhost/loading.html", None));
    assert!(is_allowed_navigation("tauri://localhost/bar.html", Some(3080)));
    assert!(is_allowed_navigation("http://tauri.localhost/bar.html", None));
}

#[test]
fn navigation_allows_only_current_dsh_port_on_loopback() {
    assert!(is_allowed_navigation("http://127.0.0.1:64898/?token=t", Some(64898)));
    assert!(is_allowed_navigation("http://127.0.0.1:64898/sessions/abc", Some(64898)));
    assert!(!is_allowed_navigation("http://127.0.0.1:64899/?token=t", Some(64898)));
    assert!(!is_allowed_navigation("http://127.0.0.1:64898/", None));
}

#[test]
fn navigation_rejects_foreign_hosts_and_schemes() {
    assert!(!is_allowed_navigation("https://example.com/path", Some(64898)));
    assert!(!is_allowed_navigation("http://localhost:64898/", Some(64898)));
    assert!(!is_allowed_navigation("file:///etc/passwd", Some(64898)));
    assert!(!is_allowed_navigation("http://127.0.0.1:port/", Some(64898)));
}

#[test]
fn normalize_theme_maps_unknown_to_light() {
    assert_eq!(normalize_theme("dark"), "dark");
    assert_eq!(normalize_theme("light"), "light");
    assert_eq!(normalize_theme("Dark"), "light");
    assert_eq!(normalize_theme(""), "light");
}

#[test]
fn theme_navigation_url_parses_to_theme() {
    assert_eq!(parse_theme_navigation("dsh-theme://dark"), Some("dark"));
    assert_eq!(parse_theme_navigation("dsh-theme://light"), Some("light"));
}

#[test]
fn theme_navigation_rejects_other_urls_and_themes() {
    assert_eq!(parse_theme_navigation("dsh-theme://blue"), None);
    assert_eq!(parse_theme_navigation("http://127.0.0.1:3080/?token=t"), None);
    assert_eq!(parse_theme_navigation("tauri://localhost/bar.html"), None);
    assert_eq!(parse_theme_navigation(""), None);
}

#[test]
fn navigation_reads_the_port_up_to_the_path_query_or_fragment() {
    assert!(is_allowed_navigation("http://127.0.0.1:80", Some(80)));
    assert!(is_allowed_navigation("http://127.0.0.1:80#a", Some(80)));
    assert!(is_allowed_navigation("http://127.0.0.1:0080?q", Some(80)));
    assert!(is_allowed_navigation("http://127.0.0.1:+80/", Some(80)));
    assert!(!is_allowed_navigation("http://127.0.0.1:80@evil.example/", Some(80)));
    assert!(!is_allowed_navigation("http://127.0.0.1:65616/", Some(80)));
    assert!(!is_allowed_navigation("http://127.0.0.1:/", Some(80)));
    assert!(!is_allowed_navigation("http://127.0.0.1/", Some(80)));
}

#[test]
fn normal_themes_stay_what_they_are() {
    for theme in ["dark", "light", "blue"] {
        let normal = normalize_theme(theme);
        assert_eq!(normalize_theme(normal), normal);
    }
}

#[test]
fn navigation_refuses_hosts_that_only_begin_like_the_shell() {
    for port in [None, Some(64898)] {
        assert!(!is_allowed_navigation("http://tauri.localhost.evil.com/", port));
        assert!(!is_allowed_navigation("tauri://localhost.evil.com/", port));
        assert!(!is_allowed_navigation("tauri://localhost@evil.com/", port));
        assert!(!is_allowed_navigation("tauri://localhosts", port));
        assert!(is_allowed_navigation("tauri://localhost", port));
        assert!(is_allowed_navigation("http://tauri.localhost", port));
        assert!(is_allowed_navigation("tauri://localhost?q", port));
        assert!(is_allowed_navigation("http://tauri.localhost#a", port));
    }
}
