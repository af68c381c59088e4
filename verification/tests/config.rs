use ratgreet::config::{self, Config, ConfigError};
use ratgreet::paths::Environment;
use ratgreet::theme::{self, ThemeError, ThemeFile};

fn env() -> Environment {
    Environment { xdg_config_home: None, home: Some("/home/alice".into()), xdg_data_dirs: None }
}

#[test]
fn defaults_validate() {
    Config::default().validate().unwrap();
}

#[test]
fn rejects_issue_and_greeting() {
    let mut theme = ThemeFile::default();
    theme.ui.issue = true;
    theme.ui.greeting = Some("hi".into());
    let err = theme.validate().unwrap_err();
    assert!(matches!(err, ThemeError::Validation(_)));
}

#[test]
fn rejects_duplicate_keybindings() {
    let mut cfg = Config::default();
    cfg.keybindings.command = 2;
    cfg.keybindings.sessions = 2;
    cfg.keybindings.power = 12;
    let err = cfg.validate().unwrap_err();
    assert!(matches!(err, ConfigError::Validation(_)));
}

#[test]
fn resolved_paths_prefers_override() {
    assert_eq!(
        config::resolved_paths(Some("/custom/config.toml"), &env()),
        vec!["/custom/config.toml".to_string()]
    );
}

#[test]
fn resolved_paths_default_order() {
    let paths = config::resolved_paths(None, &env());
    assert_eq!(paths[0], config::system_path());
    assert_eq!(paths[1], config::user_path(&env()));
}

#[test]
fn config_paths_follow_xdg_then_home() {
    assert_eq!(config::system_path(), "/etc/ratgreet/config.toml");
    assert_eq!(config::user_path(&env()), "/home/alice/.config/ratgreet/config.toml");
    let xdg = Environment { xdg_config_home: Some("/xdg/".into()), home: Some("/home/alice".into()), xdg_data_dirs: None };
    assert_eq!(config::user_path(&xdg), "/xdg/ratgreet/config.toml");
    let none = Environment { xdg_config_home: None, home: None, xdg_data_dirs: None };
    assert_eq!(config::user_path(&none), "/ratgreet/config.toml");
}

#[test]
fn theme_paths_follow_xdg_then_home() {
    assert_eq!(theme::system_path(), "/etc/ratgreet/theme.toml");
    assert_eq!(theme::user_path(&env()), "/home/alice/.config/ratgreet/theme.toml");
    assert_eq!(theme::resolved_paths(Some("/t.toml"), &env()), vec!["/t.toml".to_string()]);
    assert_eq!(
        theme::resolved_paths(None, &env()),
        vec![theme::system_path(), theme::user_path(&env())]
    );
}

#[test]
fn rejects_keybinding_out_of_range() {
    let mut cfg = Config::default();
    cfg.keybindings.power = 13;
    assert!(matches!(cfg.validate(), Err(ConfigError::Validation(_))));
    cfg.keybindings.power = 0;
    assert!(matches!(cfg.validate(), Err(ConfigError::Validation(_))));
}

#[test]
fn rejects_malformed_environment() {
    let mut cfg = Config::default();
    cfg.session.env = vec!["A=B".into(), "NOEQUALS".into()];
    assert!(matches!(cfg.validate(), Err(ConfigError::Validation(_))));
}

#[test]
fn default_config_values() {
    let cfg = Config::default();
    assert_eq!(cfg.keybindings.command, 2);
    assert_eq!(cfg.keybindings.sessions, 3);
    assert_eq!(cfg.keybindings.power, 12);
    assert_eq!(cfg.session.xsession_wrapper, config::DEFAULT_XSESSION_WRAPPER);
    assert!(!cfg.session.no_xsession_wrapper);
    assert_eq!(config::DEFAULT_LOG_FILE, "/tmp/ratgreet.log");
}

#[test]
fn theme_rejects_bad_color_and_time_format() {
    let mut theme = ThemeFile::default();
    theme.colors.border = Some("nope".into());
    assert!(matches!(theme.validate(), Err(ThemeError::InvalidColor { .. })));
    let mut theme = ThemeFile::default();
    theme.ui.time_format = Some("%Q".into());
    assert!(matches!(theme.validate(), Err(ThemeError::Validation(_))));
    let mut theme = ThemeFile::default();
    theme.ui.time_format = Some("%H:%M".into());
    theme.colors.border = Some("#123".into());
    assert!(theme.validate().is_ok());
}
