//! Merged runtime settings: command-line overrides over the configuration and
//! theme files over built-in defaults.

use vstd::prelude::*;
use crate::config::{
    self, Config, ConfigError, ConfigErrorView, ConfigRead, ConfigView, LogLevel, SecretDisplayMode,
};
use crate::paths::Environment;
use crate::text::{clone_opt, opt_chars, owned};
use crate::theme::{
    self, colors_parse_safely, theme_spec, GreetAlign, Theme, ThemeError, ThemeErrorView,
    ThemeFile, ThemeFileView, ThemeRead, ThemeUiView, read_parses_safely,
};

verus! {

broadcast use vstd::string::group_string_axioms;

/// Command-line overrides.
#[derive(Debug)]
pub struct CliOverrides {
    pub config: Option<String>,
    pub theme: Option<String>,
    pub debug: Option<DebugOverride>,
}

/// `--debug`, with or without a log file.
#[derive(Debug, PartialEq, Eq)]
pub enum DebugOverride {
    Enabled,
    LogFile(String),
}

pub enum DebugOverrideView {
    Enabled,
    LogFile(Seq<char>),
}

impl View for DebugOverride {
    type V = DebugOverrideView;

    open spec fn view(&self) -> DebugOverrideView {
        match self {
            DebugOverride::Enabled => DebugOverrideView::Enabled,
            DebugOverride::LogFile(p) => DebugOverrideView::LogFile(p@),
        }
    }
}

impl CliOverrides {
    /// No overrides.
    pub fn default() -> (r: CliOverrides)
        ensures
            r.config is None && r.theme is None && r.debug is None,
    {
        CliOverrides { config: None, theme: None, debug: None }
    }
}

#[derive(Debug)]
pub struct LoggingSettings {
    pub level: LogLevel,
    pub file: String,
    pub debug: bool,
}

/// The kind of session a directory holds.
#[derive(Debug, Clone, Copy, PartialEq, Eq)]
pub enum SessionKind {
    Wayland,
    X11,
}

#[derive(Debug)]
pub struct SessionSettings {
    pub cmd: Option<String>,
    pub env: Vec<String>,
    pub wayland_dirs: Vec<String>,
    pub x11_dirs: Vec<String>,
    pub session_wrapper: Option<String>,
    pub xsession_wrapper: Option<String>,
    pub session_paths: Vec<(String, SessionKind)>,
}

#[derive(Debug)]
pub struct UiSettings {
    pub width: u16,
    pub window_padding: u16,
    pub container_padding: u16,
    pub prompt_padding: u16,
    pub greet_align: GreetAlign,
    pub show_time: bool,
    pub time_format: Option<String>,
    pub issue: bool,
    pub greeting: Option<String>,
}

#[derive(Debug)]
pub struct SecretsSettings {
    pub display: SecretDisplayMode,
    pub mask_char: char,
}

#[derive(Debug)]
pub struct KeybindingsSettings {
    pub command: u8,
    pub sessions: u8,
    pub power: u8,
}

#[derive(Debug)]
pub struct PowerSettings {
    pub shutdown: Option<String>,
    pub reboot: Option<String>,
    pub setsid: bool,
}

/// Everything the greeter runs with.
#[derive(Debug)]
pub struct Settings {
    pub logging: LoggingSettings,
    pub session: SessionSettings,
    pub ui: UiSettings,
    pub secrets: SecretsSettings,
    pub keybindings: KeybindingsSettings,
    pub power: PowerSettings,
    pub theme: Theme,
    pub config_path: Option<String>,
    pub theme_path: Option<String>,
}

/// Why settings could not be loaded.
#[derive(Debug)]
pub enum SettingsError {
    Config(ConfigError),
    Theme(ThemeError),
}

pub struct SettingsView {
    pub level: LogLevel,
    pub log_file: Seq<char>,
    pub debug: bool,
    pub cmd: Option<Seq<char>>,
    pub env: Seq<Seq<char>>,
    pub wayland_dirs: Seq<Seq<char>>,
    pub x11_dirs: Seq<Seq<char>>,
    pub session_wrapper: Option<Seq<char>>,
    pub xsession_wrapper: Option<Seq<char>>,
    pub session_paths: Seq<(Seq<char>, SessionKind)>,
    pub ui: ThemeUiView,
    pub display: SecretDisplayMode,
    pub mask_char: char,
    pub kb_command: u8,
    pub kb_sessions: u8,
    pub kb_power: u8,
    pub shutdown: Option<Seq<char>>,
    pub reboot: Option<Seq<char>>,
    pub setsid: bool,
    pub theme: Seq<char>,
    pub config_path: Option<Seq<char>>,
    pub theme_path: Option<Seq<char>>,
}

impl View for UiSettings {
    type V = ThemeUiView;

    open spec fn view(&self) -> ThemeUiView {
        ThemeUiView {
            width: self.width,
            window_padding: self.window_padding,
            container_padding: self.container_padding,
            prompt_padding: self.prompt_padding,
            greet_align: self.greet_align,
            show_time: self.show_time,
            time_format: self.time_format.deep_view(),
            issue: self.issue,
            greeting: self.greeting.deep_view(),
        }
    }
}

/// The view of a list of session directories.
pub open spec fn paths_view(v: Seq<(String, SessionKind)>) -> Seq<(Seq<char>, SessionKind)> {
    v.map_values(|p: (String, SessionKind)| (p.0@, p.1))
}

impl View for Settings {
    type V = SettingsView;

    open spec fn view(&self) -> SettingsView {
        SettingsView {
            level: self.logging.level,
            log_file: self.logging.file@,
            debug: self.logging.debug,
            cmd: self.session.cmd.deep_view(),
            env: self.session.env.deep_view(),
            wayland_dirs: self.session.wayland_dirs.deep_view(),
            x11_dirs: self.session.x11_dirs.deep_view(),
            session_wrapper: self.session.session_wrapper.deep_view(),
            xsession_wrapper: self.session.xsession_wrapper.deep_view(),
            session_paths: paths_view(self.session.session_paths@),
            ui: self.ui@,
            display: self.secrets.display,
            mask_char: self.secrets.mask_char,
            kb_command: self.keybindings.command,
            kb_sessions: self.keybindings.sessions,
            kb_power: self.keybindings.power,
            shutdown: self.power.shutdown.deep_view(),
            reboot: self.power.reboot.deep_view(),
            setsid: self.power.setsid,
            theme: self.theme.spec@,
            config_path: self.config_path.deep_view(),
            theme_path: self.theme_path.deep_view(),
        }
    }
}

/// Wayland session directories first, then X11 ones, each with its kind.
pub open spec fn session_dirs(wayland: Seq<Seq<char>>, x11: Seq<Seq<char>>) -> Seq<(Seq<char>, SessionKind)> {
    wayland.map_values(|d: Seq<char>| (d, SessionKind::Wayland)) + x11.map_values(
        |d: Seq<char>| (d, SessionKind::X11),
    )
}

/// The settings a configuration and a theme give, before command-line overrides.
pub open spec fn settings_from(
    c: ConfigView,
    t: ThemeFileView,
    config_path: Option<Seq<char>>,
    theme_path: Option<Seq<char>>,
) -> SettingsView {
    SettingsView {
        level: c.level,
        log_file: match c.log_file {
            Some(f) => f,
            None => config::DEFAULT_LOG_FILE@,
        },
        debug: false,
        cmd: c.session.cmd,
        env: c.session.env,
        wayland_dirs: c.session.wayland_dirs,
        x11_dirs: c.session.x11_dirs,
        session_wrapper: c.session.session_wrapper,
        xsession_wrapper: if c.session.no_xsession_wrapper {
            None
        } else {
            Some(c.session.xsession_wrapper)
        },
        session_paths: session_dirs(c.session.wayland_dirs, c.session.x11_dirs),
        ui: t.ui,
        display: c.display,
        mask_char: c.mask_char,
        kb_command: c.kb_command,
        kb_sessions: c.kb_sessions,
        kb_power: c.kb_power,
        shutdown: c.shutdown,
        reboot: c.reboot,
        setsid: !c.no_setsid,
        theme: theme_spec(t.colors),
        config_path,
        theme_path,
    }
}

/// Settings with `--debug` applied: it turns tracing on, and a file given with it
/// becomes the log file.
pub open spec fn with_cli(s: SettingsView, debug: Option<DebugOverrideView>) -> SettingsView {
    match debug {
        None => s,
        Some(DebugOverrideView::Enabled) => SettingsView { debug: true, ..s },
        Some(DebugOverrideView::LogFile(p)) => SettingsView { debug: true, log_file: p, ..s },
    }
}

/// The view of the `--debug` override.
pub open spec fn debug_view(d: Option<DebugOverride>) -> Option<DebugOverrideView> {
    match d {
        Some(x) => Some(x@),
        None => None,
    }
}

fn session_paths_of(wayland: &Vec<String>, x11: &Vec<String>) -> (r: Vec<(String, SessionKind)>)
    ensures
        paths_view(r@) == session_dirs(wayland.deep_view(), x11.deep_view()),
{
    let mut r: Vec<(String, SessionKind)> = Vec::new();
    let mut i: usize = 0;
    while i < wayland.len()
        invariant
            i <= wayland@.len(),
            r@.len() == i,
            forall|k: int| #![trigger r@[k]] 0 <= k < i ==> r@[k].0@ == wayland@[k]@ && r@[k].1 == SessionKind::Wayland,
        decreases wayland.len() - i,
    {
        let ghost prev = r@;
        r.push((wayland[i].clone(), SessionKind::Wayland));
        assert(forall|k: int| 0 <= k < i ==> r@[k] == prev[k]);
        i = i + 1;
    }
    let n = r.len();
    let mut j: usize = 0;
    while j < x11.len()
        invariant
            j <= x11@.len(),
            n == wayland@.len(),
            r@.len() == n + j,
            forall|k: int| #![trigger r@[k]] 0 <= k < n ==> r@[k].0@ == wayland@[k]@ && r@[k].1 == SessionKind::Wayland,
            forall|k: int| #![trigger r@[k]] n <= k < n + j ==> r@[k].0@ == x11@[k - n]@ && r@[k].1 == SessionKind::X11,
        decreases x11.len() - j,
    {
        let ghost prev = r@;
        r.push((x11[j].clone(), SessionKind::X11));
        assert(forall|k: int| 0 <= k < n + j ==> r@[k] == prev[k]);
        j = j + 1;
    }
    assert(paths_view(r@) =~= session_dirs(wayland.deep_view(), x11.deep_view()));
    r
}

impl Settings {
    /// Settings from a configuration and a theme, with no command-line overrides.
    pub fn from_config(
        config: Config,
        theme_file: &ThemeFile,
        config_path: Option<String>,
        theme_path: Option<String>,
    ) -> (r: Settings)
        ensures
            r@ == settings_from(
                config@,
                theme_file@,
                config_path.deep_view(),
                theme_path.deep_view(),
            ),
    {
        let session_paths = session_paths_of(&config.session.wayland_dirs, &config.session.x11_dirs);
        let xsession_wrapper = if config.session.no_xsession_wrapper {
            None
        } else {
            Some(config.session.xsession_wrapper.clone())
        };
        let theme = match theme_file.to_ui_theme() {
            Ok(t) => t,
            Err(_) => Theme { spec: String::new() },
        };
        let file = match config.logging.file {
            Some(f) => f,
            None => owned(config::DEFAULT_LOG_FILE),
        };
        let u = &theme_file.ui;
        let r = Settings {
            logging: LoggingSettings { level: config.logging.level, file, debug: false },
            session: SessionSettings {
                cmd: config.session.cmd,
                env: config.session.env,
                wayland_dirs: config.session.wayland_dirs,
                x11_dirs: config.session.x11_dirs,
                session_wrapper: config.session.session_wrapper,
                xsession_wrapper,
                session_paths,
            },
            ui: UiSettings {
                width: u.width,
                window_padding: u.window_padding,
                container_padding: u.container_padding,
                prompt_padding: u.prompt_padding,
                greet_align: u.greet_align,
                show_time: u.show_time,
                time_format: clone_opt(&u.time_format),
                issue: u.issue,
                greeting: clone_opt(&u.greeting),
            },
            secrets: SecretsSettings { display: config.secrets.display, mask_char: config.secrets.mask_char },
            keybindings: KeybindingsSettings {
                command: config.keybindings.command,
                sessions: config.keybindings.sessions,
                power: config.keybindings.power,
            },
            power: PowerSettings {
                shutdown: config.power.shutdown,
                reboot: config.power.reboot,
                setsid: !config.power.no_setsid,
            },
            theme,
            config_path,
            theme_path,
        };
        r
    }

    /// Applies the command-line overrides.
    pub fn apply_cli(&mut self, cli: &CliOverrides)
        ensures
            final(self)@ == with_cli(old(self)@, debug_view(cli.debug)),
    {
        if let Some(debug) = &cli.debug {
            self.logging.debug = true;
            if let DebugOverride::LogFile(path) = debug {
                self.logging.file = path.clone();
            }
        }
    }
}

/// What was found on disk for [`Settings::load`].
///
/// The reads are of the files that `config::resolved_paths` and `theme::resolved_paths`
/// name for the command line, in that order; the existence flags are for the
/// standard search order (system then user) of each.
#[derive(Debug)]
pub struct SettingsInput {
    pub env: Environment,
    pub config_reads: Vec<ConfigRead>,
    pub theme_reads: Vec<ThemeRead>,
    pub config_exists: Vec<bool>,
    pub theme_exists: Vec<bool>,
}

/// The first of `paths` that exists, by the flags given for them.
pub open spec fn first_existing(paths: Seq<Seq<char>>, exists: Seq<bool>) -> Option<Seq<char>>
    decreases paths.len(),
{
    if paths.len() == 0 || exists.len() == 0 {
        None
    } else if exists[0] {
        Some(paths[0])
    } else {
        first_existing(paths.drop_first(), exists.drop_first())
    }
}

/// The file a setting is reported as coming from: the explicit path, else the first
/// file of the standard search order that exists.
pub open spec fn reported_path(
    override_path: Option<Seq<char>>,
    standard: Seq<Seq<char>>,
    exists: Seq<bool>,
) -> Option<Seq<char>> {
    match override_path {
        Some(p) => Some(p),
        None => first_existing(standard, exists),
    }
}

fn first_existing_path(paths: &Vec<String>, exists: &Vec<bool>) -> (r: Option<String>)
    ensures
        r.deep_view() == first_existing(paths@.map_values(|p: String| p@), exists@),
{
    let ghost pv = paths@.map_values(|p: String| p@);
    let mut i: usize = 0;
    assert(pv.skip(0) =~= pv);
    assert(exists@.skip(0) =~= exists@);
    while i < paths.len() && i < exists.len()
        invariant
            i <= paths@.len(),
            i <= exists@.len(),
            pv == paths@.map_values(|p: String| p@),
            first_existing(pv, exists@) == first_existing(pv.skip(i as int), exists@.skip(i as int)),
        decreases paths.len() - i,
    {
        assert(pv.skip(i as int)[0] == paths@[i as int]@);
        assert(exists@.skip(i as int)[0] == exists@[i as int]);
        if exists[i] {
            return Some(paths[i].clone());
        }
        assert(pv.skip(i as int).drop_first() =~= pv.skip(i + 1));
        assert(exists@.skip(i as int).drop_first() =~= exists@.skip(i + 1));
        i = i + 1;
    }
    None
}

/// The configuration file the settings are reported as coming from.
pub fn resolved_config_path(override_path: Option<&str>, env: &Environment, exists: &Vec<bool>) -> (r: Option<String>)
    ensures
        r.deep_view() == reported_path(
            opt_chars(override_path),
            config::config_paths(None, *env),
            exists@,
        ),
{
    match override_path {
        Some(p) => Some(owned(p)),
        None => first_existing_path(&config::resolved_paths(None, env), exists),
    }
}

/// The theme file the settings are reported as coming from.
pub fn resolved_theme_path(override_path: Option<&str>, env: &Environment, exists: &Vec<bool>) -> (r: Option<String>)
    ensures
        r.deep_view() == reported_path(
            opt_chars(override_path),
            theme::theme_paths(None, *env),
            exists@,
        ),
{
    match override_path {
        Some(p) => Some(owned(p)),
        None => first_existing_path(&theme::resolved_paths(None, env), exists),
    }
}

/// The settings that command-line overrides and what was found on disk give.
pub open spec fn loaded_settings(cli: CliOverrides, input: SettingsInput) -> SettingsView {
    with_cli(
        settings_from(
            config::layered_config(config::reads_view(input.config_reads@)),
            theme::layered_theme(theme::reads_view(input.theme_reads@)),
            reported_path(cli.config.deep_view(), config::config_paths(None, input.env), input.config_exists@),
            reported_path(cli.theme.deep_view(), theme::theme_paths(None, input.env), input.theme_exists@),
        ),
        debug_view(cli.debug),
    )
}

fn as_str_opt(o: &Option<String>) -> (r: Option<&str>)
    ensures
        opt_chars(r) == o.deep_view(),
{
    match o {
        Some(s) => Some(s.as_str()),
        None => None,
    }
}

impl Settings {
    /// Merges command-line overrides over the configuration and theme files over
    /// built-in defaults. Files that are missing, unreadable, invalid or empty are
    /// skipped, so loading always succeeds.
    pub fn load(cli: &CliOverrides, input: &SettingsInput) -> (r: Result<Settings, SettingsError>)
        requires
            forall|i: int| 0 <= i < input.theme_reads@.len() ==> read_parses_safely(#[trigger] input.theme_reads@[i]@),
        ensures
            r matches Ok(s) && s@ == loaded_settings(*cli, *input),
    {
        let config = config::load_layered(&input.config_reads);
        let theme_file = theme::load_layered(&input.theme_reads);
        let config_path = resolved_config_path(as_str_opt(&cli.config), &input.env, &input.config_exists);
        let theme_path = resolved_theme_path(as_str_opt(&cli.theme), &input.env, &input.theme_exists);
        let mut settings = Self::from_config(config, &theme_file, config_path, theme_path);
        settings.apply_cli(cli);
        Ok(settings)
    }
}


// ---------------------------------------------------------------- laws

/// With no usable configuration or theme file, the greeter runs on the built-in
/// configuration and theme.
pub proof fn lemma_defaults_without_files(cli: CliOverrides, input: SettingsInput)
    requires
        cli.debug is None,
        forall|i: int|
            0 <= i < input.config_reads@.len() ==> config::accepted_layer(
                #[trigger] input.config_reads@[i]@,
            ) is None,
        forall|i: int|
            0 <= i < input.theme_reads@.len() ==> theme::accepted_layer(
                #[trigger] input.theme_reads@[i]@,
            ) is None,
    ensures
        loaded_settings(cli, input) == settings_from(
            config::default_config(),
            theme::default_theme(),
            reported_path(cli.config.deep_view(), config::config_paths(None, input.env), input.config_exists@),
            reported_path(cli.theme.deep_view(), theme::theme_paths(None, input.env), input.theme_exists@),
        ),
{
    let cr = config::reads_view(input.config_reads@);
    let tr = theme::reads_view(input.theme_reads@);
    assert forall|i: int| 0 <= i < cr.len() implies config::accepted_layer(#[trigger] cr[i]) is None by {
        assert(cr[i] == input.config_reads@[i]@);
    }
    assert forall|i: int| 0 <= i < tr.len() implies theme::accepted_layer(#[trigger] tr[i]) is None by {
        assert(tr[i] == input.theme_reads@[i]@);
    }
    config::lemma_no_config_files(cr);
    theme::lemma_no_theme_files(tr);
}

/// `--debug` turns tracing on and, given a file, sends the log there; nothing else
/// that the files decide changes.
pub proof fn lemma_debug_override(s: SettingsView, d: DebugOverrideView)
    ensures
        with_cli(s, Some(d)).debug,
        with_cli(s, Some(d)).log_file == match d {
            DebugOverrideView::LogFile(p) => p,
            DebugOverrideView::Enabled => s.log_file,
        },
        with_cli(s, Some(d)) == (SettingsView {
            debug: with_cli(s, Some(d)).debug,
            log_file: with_cli(s, Some(d)).log_file,
            ..s
        }),
{
}

} // verus!
