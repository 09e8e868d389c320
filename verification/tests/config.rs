use rayhunter::config::{parse_args, parse_config, Config, ConfigFile};

#[test]
fn default_config_is_the_documented_one() {
    let config = Config::default();
    assert_eq!(config.qmdl_store_path, "/data/rayhunter/qmdl");
    assert_eq!(config.port, 8080);
    assert!(!config.debug_mode);
    assert_eq!(config.ui_level, 1);
    assert!(!config.enable_dummy_analyzer);
    assert!(!config.colorblind_mode);
    assert!(!config.full_background_color);
    assert!(config.show_screen_overlay);
    assert!(config.enable_animation);
}

#[test]
fn missing_file_leaves_the_defaults() {
    let config = parse_config(None);
    assert_eq!(config.qmdl_store_path, "/data/rayhunter/qmdl");
    assert_eq!(config.port, 8080);
    assert_eq!(config.ui_level, 1);
    assert!(config.show_screen_overlay);
}

#[test]
fn empty_file_leaves_the_defaults() {
    let config = parse_config(Some(ConfigFile::default()));
    assert_eq!(config.qmdl_store_path, "/data/rayhunter/qmdl");
    assert_eq!(config.port, 8080);
    assert!(!config.debug_mode);
    assert_eq!(config.ui_level, 1);
    assert!(config.enable_animation);
}

#[test]
fn entries_of_the_file_take_the_place_of_the_defaults() {
    let file = ConfigFile {
        qmdl_store_path: Some("/tmp/qmdl".to_string()),
        port: Some(9000),
        debug_mode: Some(true),
        ui_level: Some(3),
        enable_dummy_analyzer: Some(true),
        colorblind_mode: Some(true),
        full_background_color: Some(true),
        show_screen_overlay: Some(false),
        enable_animation: Some(false),
    };
    let config = parse_config(Some(file));
    assert_eq!(config.qmdl_store_path, "/tmp/qmdl");
    assert_eq!(config.port, 9000);
    assert!(config.debug_mode);
    assert_eq!(config.ui_level, 3);
    assert!(config.enable_dummy_analyzer);
    assert!(config.colorblind_mode);
    assert!(config.full_background_color);
    assert!(!config.show_screen_overlay);
    assert!(!config.enable_animation);
}

#[test]
fn single_entry_changes_nothing_else() {
    let file = ConfigFile { port: Some(1234), ..ConfigFile::default() };
    let config = Config::default().apply(file);
    assert_eq!(config.port, 1234);
    assert_eq!(config.qmdl_store_path, "/data/rayhunter/qmdl");
    assert_eq!(config.ui_level, 1);
    assert!(config.show_screen_overlay);
    let again = config.apply(ConfigFile { ui_level: Some(0), ..ConfigFile::default() });
    assert_eq!(again.port, 1234);
    assert_eq!(again.ui_level, 0);
}

#[test]
fn command_line_is_the_program_and_one_path() {
    let args = parse_args(vec!["daemon".to_string(), "/etc/config.toml".to_string()]).unwrap();
    assert_eq!(args.config_path, "/etc/config.toml");
    assert!(parse_args(vec![]).is_none());
    assert!(parse_args(vec!["daemon".to_string()]).is_none());
    assert!(
        parse_args(vec!["daemon".to_string(), "a".to_string(), "b".to_string()]).is_none()
    );
}
