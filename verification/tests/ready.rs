use dsh_ui::ready::{
    is_ready_url, parse_ready_line, LOOPBACK_PREFIX, READY_LINE_PREFIX, TOKEN_MARK,
};

#[test]
fn parse_ready_line_reads_standard_line() {
    let line = "dsh web: http://127.0.0.1:41234/?token=abc123";
    assert_eq!(parse_ready_line(line), Some("http://127.0.0.1:41234/?token=abc123".to_string()));
}

#[test]
fn parse_ready_line_takes_first_url_before_lan_suffix() {
    let line = "dsh web: http://127.0.0.1:41234/?token=t (LAN: http://192.168.1.5:41234/?token=t)";
    assert_eq!(parse_ready_line(line), Some("http://127.0.0.1:41234/?token=t".to_string()));
}

#[test]
fn parse_ready_line_rejects_prose_line() {
    assert_eq!(
        parse_ready_line("dsh web: opening the default browser; pass --no-open to disable"),
        None
    );
}

#[test]
fn parse_ready_line_rejects_non_loopback_host() {
    assert_eq!(parse_ready_line("dsh web: http://192.168.1.5:3080/?token=t"), None);
}

#[test]
fn parse_ready_line_rejects_non_http_scheme() {
    assert_eq!(parse_ready_line("dsh web: https://127.0.0.1:3080/?token=t"), None);
}

#[test]
fn parse_ready_line_rejects_missing_or_empty_token() {
    assert_eq!(parse_ready_line("dsh web: http://127.0.0.1:3080/"), None);
    assert_eq!(parse_ready_line("dsh web: http://127.0.0.1:3080/?token="), None);
}

#[test]
fn parse_ready_line_rejects_non_numeric_port() {
    assert_eq!(parse_ready_line("dsh web: http://127.0.0.1:port/?token=t"), None);
}

#[test]
fn parse_ready_line_rejects_plain_log_lines() {
    assert_eq!(parse_ready_line("[loader] mounted plugin"), None);
    assert_eq!(parse_ready_line(""), None);
    assert_eq!(parse_ready_line("dsh web:"), None);
}

#[test]
fn parse_ready_line_tolerates_trailing_newline() {
    assert_eq!(
        parse_ready_line("dsh web: http://127.0.0.1:1/?token=t\r\n"),
        Some("http://127.0.0.1:1/?token=t".to_string())
    );
}

#[test]
fn parse_ready_line_accepts_any_run_of_digits_as_a_port() {
    assert_eq!(
        parse_ready_line("dsh web:   http://127.0.0.1:0099999/?token=/?token=\u{e9}#x"),
        Some("http://127.0.0.1:0099999/?token=/?token=\u{e9}#x".to_string())
    );
    assert_eq!(parse_ready_line("dsh web: http://127.0.0.1:/?token=t"), None);
    assert_eq!(parse_ready_line("dsh web: http://127.0.0.1:1x/?token=t"), None);
    assert_eq!(parse_ready_line("dsh web: http://127.0.0.1:1/x?token=t"), None);
    assert_eq!(parse_ready_line(" dsh web: http://127.0.0.1:1/?token=t"), None);
    assert_eq!(parse_ready_line("dsh web: "), None);
}

#[test]
fn ready_addresses_are_recognised() {
    assert!(is_ready_url("http://127.0.0.1:1/?token=t"));
    assert!(!is_ready_url("http://127.0.0.1:1/?token="));
    assert!(!is_ready_url("http://127.0.0.1"));
}

#[test]
fn the_fixed_parts_of_the_line() {
    assert_eq!(READY_LINE_PREFIX, "dsh web: ");
    assert_eq!(LOOPBACK_PREFIX, "http://127.0.0.1:");
    assert_eq!(TOKEN_MARK, "/?token=");
}
