use dsh_ui::settings::{config_path, load, normalize_input, overrides_of, AppConfig, CONFIG_FILE};

#[test]
fn normalize_input_treats_blank_as_auto() {
    assert_eq!(normalize_input(&None), None);
    assert_eq!(normalize_input(&Some("   ".to_string())), None);
    assert_eq!(
        normalize_input(&Some("  /opt/dsh  ".to_string())),
        Some("/opt/dsh".to_string())
    );
}

#[test]
fn normalize_input_is_stable() {
    let once = normalize_input(&Some("\u{3000} /a b\t".to_string()));
    assert_eq!(once, Some("/a b".to_string()));
    assert_eq!(normalize_input(&once), once);
    assert_eq!(normalize_input(&Some("\u{2028}\u{85}".to_string())), None);
}

#[test]
fn load_missing_dir_returns_default() {
    assert_eq!(load(None), AppConfig::default());
    assert_eq!(AppConfig::default(), AppConfig { dsh_path: None, node_path: None });
}

#[test]
fn load_gives_what_was_stored() {
    let config = AppConfig { dsh_path: Some("/opt/tools/dsh".to_string()), node_path: None };
    assert_eq!(load(Some(config.clone())), config);
}

#[test]
fn the_configuration_file_has_a_fixed_name() {
    assert_eq!(CONFIG_FILE, "config.json");
    assert_eq!(config_path("/home/x"), "/home/x/config.json");
}

#[test]
fn overrides_come_from_the_fields_that_are_not_blank() {
    let config = AppConfig {
        dsh_path: Some(" /opt/tools/dsh\n".to_string()),
        node_path: Some(" ".to_string()),
    };
    let overrides = overrides_of(&config);
    assert_eq!(overrides.dsh, Some("/opt/tools/dsh".to_string()));
    assert_eq!(overrides.node, None);
}
