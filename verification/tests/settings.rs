use ratgreet::cli::Cli;
use ratgreet::config::{self, ConfigLayer, ConfigRead, LogLevel, SecretDisplayMode};
use ratgreet::paths::Environment;
use ratgreet::settings::{CliOverrides, DebugOverride, Settings, SettingsInput};
use ratgreet::theme::{GreetAlign, ThemeLayer, ThemeRead};

fn env() -> Environment {
    Environment { xdg_config_home: None, home: Some("/home/alice".into()), xdg_data_dirs: None }
}

/// What reading the files named for `cli` gives when none of them exists.
fn nothing_on_disk(cli: &CliOverrides) -> SettingsInput {
    let env = env();
    let config_reads = config::resolved_paths(cli.config.as_deref(), &env)
        .into_iter()
        .map(|path| ConfigRead::NotFound { path })
        .collect();
    let theme_reads = ratgreet::theme::resolved_paths(cli.theme.as_deref(), &env)
        .into_iter()
        .map(|path| ThemeRead::NotFound { path })
        .collect();
    SettingsInput { env, config_reads, theme_reads, config_exists: vec![false, false], theme_exists: vec![false, false] }
}

#[test]
fn tests_load_defaults_without_files() {
    let cli = CliOverrides::default();
    let settings = Settings::load(&cli, &nothing_on_disk(&cli)).unwrap();
    assert_eq!(settings.ui.width, 80);
    assert_eq!(settings.keybindings.power, 12);
    assert!(!settings.logging.debug);
    assert!(!settings.ui.show_time);
}

#[test]
fn load_defaults_without_files() {
    let cli = CliOverrides::default();
    let settings = Settings::load(&cli, &nothing_on_disk(&cli)).unwrap();
    assert_eq!(settings.ui.width, 80);
    assert_eq!(settings.keybindings.power, 12);
    assert!(!settings.logging.debug);
}

#[test]
fn tests_cli_debug_overrides_logging() {
    let cli = CliOverrides {
        debug: Some(DebugOverride::LogFile("/var/log/ratgreet.log".into())),
        ..CliOverrides::default()
    };
    let settings = Settings::load(&cli, &nothing_on_disk(&cli)).unwrap();
    assert!(settings.logging.debug);
    assert_eq!(settings.logging.file, "/var/log/ratgreet.log");
}

#[test]
fn cli_debug_overrides_logging() {
    let cli = CliOverrides {
        debug: Some(DebugOverride::LogFile("/var/log/tuigreet.log".into())),
        ..CliOverrides::default()
    };
    let settings = Settings::load(&cli, &nothing_on_disk(&cli)).unwrap();
    assert!(settings.logging.debug);
    assert_eq!(settings.logging.file, "/var/log/tuigreet.log");
}

#[test]
fn bad_explicit_config_path_falls_back_to_defaults() {
    let cli = CliOverrides {
        config: Some("/nonexistent/ratgreet/config.toml".into()),
        ..CliOverrides::default()
    };
    let settings = Settings::load(&cli, &nothing_on_disk(&cli)).unwrap();
    assert_eq!(settings.ui.width, 80);
}

#[test]
fn bad_explicit_theme_path_falls_back_to_defaults() {
    let cli = CliOverrides {
        theme: Some("/nonexistent/ratgreet/theme.toml".into()),
        ..CliOverrides::default()
    };
    let settings = Settings::load(&cli, &nothing_on_disk(&cli)).unwrap();
    assert_eq!(settings.ui.width, 80);
    assert!(!settings.ui.show_time);
}

#[test]
fn cli_theme_path_wins_over_defaults() {
    let cli = CliOverrides { theme: Some("/tmp/theme.toml".into()), ..CliOverrides::default() };
    let mut input = nothing_on_disk(&cli);
    let mut layer = ThemeLayer::default();
    layer.ui.width = Some(120);
    input.theme_reads = vec![ThemeRead::Parsed(layer)];
    let settings = Settings::load(&cli, &input).unwrap();
    assert_eq!(settings.ui.width, 120);
    assert_eq!(settings.theme_path, Some("/tmp/theme.toml".into()));
}

#[test]
fn explicit_config_layer_is_used() {
    let cli = CliOverrides { config: Some("/tmp/config.toml".into()), ..CliOverrides::default() };
    let mut input = nothing_on_disk(&cli);
    let mut layer = ConfigLayer::default();
    layer.keybindings.command = Some(5);
    layer.logging.level = Some(LogLevel::Debug);
    input.config_reads = vec![ConfigRead::Parsed(layer)];
    let settings = Settings::load(&cli, &input).unwrap();
    assert_eq!(settings.keybindings.command, 5);
    assert_eq!(settings.logging.level, LogLevel::Debug);
    assert_eq!(settings.config_path, Some("/tmp/config.toml".into()));
    assert_eq!(settings.ui.greet_align, GreetAlign::Center);
    assert_eq!(settings.session.xsession_wrapper.as_deref(), Some(config::DEFAULT_XSESSION_WRAPPER));
}

#[test]
fn invalid_layer_is_skipped() {
    let cli = CliOverrides::default();
    let mut input = nothing_on_disk(&cli);
    let mut good = ConfigLayer::default();
    good.keybindings.sessions = Some(7);
    let mut bad = ConfigLayer::default();
    bad.keybindings.command = Some(3);
    input.config_reads = vec![ConfigRead::Parsed(good), ConfigRead::Parsed(bad)];
    let settings = Settings::load(&cli, &input).unwrap();
    assert_eq!(settings.keybindings.sessions, 7);
    assert_eq!(settings.keybindings.command, 2);
}

#[test]
fn later_layer_wins_and_unset_keys_stay() {
    let cli = CliOverrides::default();
    let mut input = nothing_on_disk(&cli);
    let mut system = ConfigLayer::default();
    system.session.cmd = Some("sway".into());
    system.power.shutdown = Some("poweroff".into());
    let mut user = ConfigLayer::default();
    user.session.cmd = Some("river".into());
    input.config_reads = vec![ConfigRead::Parsed(system), ConfigRead::Parsed(user)];
    input.config_exists = vec![true, true];
    let settings = Settings::load(&cli, &input).unwrap();
    assert_eq!(settings.session.cmd, Some("river".into()));
    assert_eq!(settings.power.shutdown, Some("poweroff".into()));
    assert_eq!(settings.config_path, Some(config::system_path()));
}

#[test]
fn reported_path_is_first_existing() {
    let e = env();
    assert_eq!(
        ratgreet::settings::resolved_config_path(None, &e, &vec![false, true]),
        Some(config::user_path(&e))
    );
    assert_eq!(ratgreet::settings::resolved_config_path(None, &e, &vec![false, false]), None);
    assert_eq!(
        ratgreet::settings::resolved_theme_path(Some("/x"), &e, &vec![true, true]),
        Some("/x".to_string())
    );
}

#[test]
fn bare_debug_enables_tracing_only() {
    let cli = CliOverrides { debug: Some(DebugOverride::Enabled), ..CliOverrides::default() };
    let settings = Settings::load(&cli, &nothing_on_disk(&cli)).unwrap();
    assert!(settings.logging.debug);
    assert_eq!(settings.logging.file, config::DEFAULT_LOG_FILE);
}

#[test]
fn overrides_from_command_line() {
    let cli = Cli { config: None, theme: None, debug: None };
    let o = CliOverrides::from(&cli);
    assert!(o.config.is_none() && o.theme.is_none() && o.debug.is_none());

    let cli = Cli {
        config: Some("/etc/ratgreet/config.toml".into()),
        theme: Some("/etc/ratgreet/theme.toml".into()),
        debug: Some(Some(config::DEFAULT_LOG_FILE.into())),
    };
    let o = CliOverrides::from(&cli);
    assert_eq!(o.config, Some("/etc/ratgreet/config.toml".into()));
    assert_eq!(o.theme, Some("/etc/ratgreet/theme.toml".into()));
    assert_eq!(o.debug, Some(DebugOverride::LogFile(config::DEFAULT_LOG_FILE.into())));

    let cli = Cli { config: None, theme: None, debug: Some(None) };
    assert_eq!(CliOverrides::from(&cli).debug, Some(DebugOverride::Enabled));
}

#[test]
fn invalid_theme_layer_is_skipped() {
    let cli = CliOverrides::default();
    let mut input = nothing_on_disk(&cli);
    let mut good = ThemeLayer::default();
    good.ui.width = Some(100);
    let mut bad = ThemeLayer::default();
    bad.ui.width = Some(40);
    bad.ui.issue = Some(true);
    bad.ui.greeting = Some("hi".into());
    input.theme_reads = vec![ThemeRead::Parsed(good), ThemeRead::Parsed(bad), ThemeRead::Empty];
    let settings = Settings::load(&cli, &input).unwrap();
    assert_eq!(settings.ui.width, 100);
    assert!(!settings.ui.issue);
}

#[test]
fn later_theme_file_keeps_keys_it_leaves_out() {
    let cli = CliOverrides::default();
    let mut input = nothing_on_disk(&cli);
    let mut system = ThemeLayer::default();
    system.ui.width = Some(120);
    let mut user = ThemeLayer::default();
    user.colors.title = Some("red".into());
    input.theme_reads = vec![ThemeRead::Parsed(system), ThemeRead::Parsed(user)];
    let settings = Settings::load(&cli, &input).unwrap();
    assert_eq!(settings.ui.width, 120);
    assert!(settings.theme.spec.contains("title=red"));
}

#[test]
fn later_config_file_keeps_keys_it_leaves_out() {
    let cli = CliOverrides::default();
    let mut input = nothing_on_disk(&cli);
    let mut system = ConfigLayer::default();
    system.keybindings.power = Some(10);
    system.secrets.display = Some(SecretDisplayMode::Plain);
    let mut user = ConfigLayer::default();
    user.keybindings.command = Some(4);
    input.config_reads = vec![ConfigRead::Parsed(system), ConfigRead::Parsed(user)];
    let settings = Settings::load(&cli, &input).unwrap();
    assert_eq!(settings.keybindings.power, 10);
    assert_eq!(settings.keybindings.command, 4);
    assert_eq!(settings.secrets.display, SecretDisplayMode::Plain);
}

#[test]
fn secrets_default_to_masked_with_star() {
    let cli = CliOverrides::default();
    let settings = Settings::load(&cli, &nothing_on_disk(&cli)).unwrap();
    assert_eq!(settings.secrets.display, SecretDisplayMode::Masked);
    assert_eq!(settings.secrets.mask_char, '*');
}
