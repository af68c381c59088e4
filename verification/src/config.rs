//! `config.toml`: sessions, secrets, keybindings, power commands and logging;
//! where it lives, how its layers combine, and when it is valid.

use vstd::prelude::*;
use crate::paths::{app_config_base_dir, app_config_dir, join, join_path, Environment};
use crate::text::{clone_opt, clone_strings, concat, decimal, has_char, opt_chars, owned};

verus! {

broadcast use vstd::string::group_string_axioms;

/// Where the log goes when nothing else is configured.
pub const DEFAULT_LOG_FILE: &'static str = "/tmp/ratgreet.log";

/// The wrapper X11 sessions are started with when none is configured.
pub const DEFAULT_XSESSION_WRAPPER: &'static str = "startx /usr/bin/env";

/// Verbosity of the log.
#[derive(Debug, Clone, Copy, PartialEq, Eq)]
pub enum LogLevel {
    Trace,
    Debug,
    Info,
    Warn,
    Error,
}

/// How a secret answer is shown while it is typed (`[secrets].display`).
#[derive(Debug, Clone, Copy, PartialEq, Eq, Structural)]
pub enum SecretDisplayMode {
    /// Nothing is shown.
    Hidden,
    /// The answer is shown as typed.
    Plain,
    /// Each character shows as the mask character.
    Masked,
}

/// `[logging]`.
#[derive(Debug)]
pub struct Logging {
    pub level: LogLevel,
    pub file: Option<String>,
}

/// `[session]`.
#[derive(Debug)]
pub struct Session {
    pub cmd: Option<String>,
    pub env: Vec<String>,
    pub wayland_dirs: Vec<String>,
    pub x11_dirs: Vec<String>,
    pub session_wrapper: Option<String>,
    pub xsession_wrapper: String,
    pub no_xsession_wrapper: bool,
}

/// `[secrets]`.
#[derive(Debug)]
pub struct Secrets {
    pub display: SecretDisplayMode,
    pub mask_char: char,
}

/// `[keybindings]`: function-key numbers.
#[derive(Debug)]
pub struct Keybindings {
    pub command: u8,
    pub sessions: u8,
    pub power: u8,
}

/// `[power]`.
#[derive(Debug)]
pub struct Power {
    pub shutdown: Option<String>,
    pub reboot: Option<String>,
    pub no_setsid: bool,
}

/// The configuration in effect: every setting with its value.
#[derive(Debug)]
pub struct Config {
    pub logging: Logging,
    pub session: Session,
    pub secrets: Secrets,
    pub keybindings: Keybindings,
    pub power: Power,
}

/// Why a configuration could not be used.
#[derive(Debug)]
pub enum ConfigError {
    NotFound { path: String },
    Io(String),
    TomlDeserialize(String),
    Validation(String),
}

pub struct SessionView {
    pub cmd: Option<Seq<char>>,
    pub env: Seq<Seq<char>>,
    pub wayland_dirs: Seq<Seq<char>>,
    pub x11_dirs: Seq<Seq<char>>,
    pub session_wrapper: Option<Seq<char>>,
    pub xsession_wrapper: Seq<char>,
    pub no_xsession_wrapper: bool,
}

pub struct ConfigView {
    pub level: LogLevel,
    pub log_file: Option<Seq<char>>,
    pub session: SessionView,
    pub display: SecretDisplayMode,
    pub mask_char: char,
    pub kb_command: u8,
    pub kb_sessions: u8,
    pub kb_power: u8,
    pub shutdown: Option<Seq<char>>,
    pub reboot: Option<Seq<char>>,
    pub no_setsid: bool,
}

pub enum ConfigErrorView {
    NotFound { path: Seq<char> },
    Io(Seq<char>),
    TomlDeserialize(Seq<char>),
    Validation(Seq<char>),
}

impl View for Session {
    type V = SessionView;

    open spec fn view(&self) -> SessionView {
        SessionView {
            cmd: self.cmd.deep_view(),
            env: self.env.deep_view(),
            wayland_dirs: self.wayland_dirs.deep_view(),
            x11_dirs: self.x11_dirs.deep_view(),
            session_wrapper: self.session_wrapper.deep_view(),
            xsession_wrapper: self.xsession_wrapper@,
            no_xsession_wrapper: self.no_xsession_wrapper,
        }
    }
}

impl View for Config {
    type V = ConfigView;

    open spec fn view(&self) -> ConfigView {
        ConfigView {
            level: self.logging.level,
            log_file: self.logging.file.deep_view(),
            session: self.session@,
            display: self.secrets.display,
            mask_char: self.secrets.mask_char,
            kb_command: self.keybindings.command,
            kb_sessions: self.keybindings.sessions,
            kb_power: self.keybindings.power,
            shutdown: self.power.shutdown.deep_view(),
            reboot: self.power.reboot.deep_view(),
            no_setsid: self.power.no_setsid,
        }
    }
}

impl View for ConfigError {
    type V = ConfigErrorView;

    open spec fn view(&self) -> ConfigErrorView {
        match self {
            ConfigError::NotFound { path } => ConfigErrorView::NotFound { path: path@ },
            ConfigError::Io(m) => ConfigErrorView::Io(m@),
            ConfigError::TomlDeserialize(m) => ConfigErrorView::TomlDeserialize(m@),
            ConfigError::Validation(m) => ConfigErrorView::Validation(m@),
        }
    }
}

impl ConfigError {
    /// A copy.
    pub fn duplicate(&self) -> (r: ConfigError)
        ensures
            r@ == self@,
    {
        match self {
            ConfigError::NotFound { path } => ConfigError::NotFound { path: path.clone() },
            ConfigError::Io(m) => ConfigError::Io(m.clone()),
            ConfigError::TomlDeserialize(m) => ConfigError::TomlDeserialize(m.clone()),
            ConfigError::Validation(m) => ConfigError::Validation(m.clone()),
        }
    }
}

/// A `Result<(), ConfigError>` agrees with its stated form.
pub open spec fn config_result_is(r: Result<(), ConfigError>, s: Result<(), ConfigErrorView>) -> bool {
    match s {
        Ok(()) => r is Ok,
        Err(e) => r matches Err(x) && x@ == e,
    }
}

// ---------------------------------------------------------------- defaults

pub fn default_log_level() -> (r: LogLevel)
    ensures
        r == LogLevel::Info,
{
    LogLevel::Info
}

pub fn default_wayland_dirs() -> (r: Vec<String>)
    ensures
        r.deep_view() == seq!["/usr/share/wayland-sessions"@],
{
    let mut r = Vec::new();
    r.push(owned("/usr/share/wayland-sessions"));
    assert(r.deep_view() =~= seq!["/usr/share/wayland-sessions"@]);
    r
}

pub fn default_x11_dirs() -> (r: Vec<String>)
    ensures
        r.deep_view() == seq!["/usr/share/xsessions"@],
{
    let mut r = Vec::new();
    r.push(owned("/usr/share/xsessions"));
    assert(r.deep_view() =~= seq!["/usr/share/xsessions"@]);
    r
}

pub fn default_xsession_wrapper() -> (r: String)
    ensures
        r@ == DEFAULT_XSESSION_WRAPPER@,
{
    owned(DEFAULT_XSESSION_WRAPPER)
}

pub fn default_display() -> (r: SecretDisplayMode)
    ensures
        r == SecretDisplayMode::Masked,
{
    SecretDisplayMode::Masked
}

pub fn default_mask_char() -> (r: char)
    ensures
        r == '*',
{
    '*'
}

pub fn default_kb_command() -> (r: u8)
    ensures
        r == 2,
{
    2
}

pub fn default_kb_sessions() -> (r: u8)
    ensures
        r == 3,
{
    3
}

pub fn default_kb_power() -> (r: u8)
    ensures
        r == 12,
{
    12
}

/// The built-in configuration.
pub open spec fn default_config() -> ConfigView {
    ConfigView {
        level: LogLevel::Info,
        log_file: None,
        session: SessionView {
            cmd: None,
            env: seq![],
            wayland_dirs: seq!["/usr/share/wayland-sessions"@],
            x11_dirs: seq!["/usr/share/xsessions"@],
            session_wrapper: None,
            xsession_wrapper: DEFAULT_XSESSION_WRAPPER@,
            no_xsession_wrapper: false,
        },
        display: SecretDisplayMode::Masked,
        mask_char: '*',
        kb_command: 2,
        kb_sessions: 3,
        kb_power: 12,
        shutdown: None,
        reboot: None,
        no_setsid: false,
    }
}

impl Session {
    /// The built-in `[session]`.
    pub fn default() -> (r: Session)
        ensures
            r@ == default_config().session,
    {
        let r = Session {
            cmd: None,
            env: Vec::new(),
            wayland_dirs: default_wayland_dirs(),
            x11_dirs: default_x11_dirs(),
            session_wrapper: None,
            xsession_wrapper: default_xsession_wrapper(),
            no_xsession_wrapper: false,
        };
        assert(r@.env =~= seq![]);
        r
    }
}

impl Keybindings {
    /// F2, F3 and F12.
    pub fn default() -> (r: Keybindings)
        ensures
            r.command == 2 && r.sessions == 3 && r.power == 12,
    {
        Keybindings {
            command: default_kb_command(),
            sessions: default_kb_sessions(),
            power: default_kb_power(),
        }
    }
}

impl Config {
    /// The built-in configuration.
    pub fn default() -> (r: Config)
        ensures
            r@ == default_config(),
    {
        let r = Config {
            logging: Logging { level: default_log_level(), file: None },
            session: Session::default(),
            secrets: Secrets { display: default_display(), mask_char: default_mask_char() },
            keybindings: Keybindings::default(),
            power: Power { shutdown: None, reboot: None, no_setsid: false },
        };
        assert(r@.session.env =~= seq![]);
        r
    }
}

// ---------------------------------------------------------------- paths

/// Packager path: `/etc/ratgreet/config.toml`.
pub fn system_path() -> (r: String)
    ensures
        r@ == "/etc/ratgreet/config.toml"@,
{
    owned("/etc/ratgreet/config.toml")
}

/// User path: `config.toml` in the user's configuration directory.
pub open spec fn user_config_path(env: Environment) -> Seq<char> {
    join(app_config_dir(env), "config.toml"@)
}

/// User path: `$XDG_CONFIG_HOME/ratgreet/config.toml` (fallback `~/.config/...`).
pub fn user_path(env: &Environment) -> (r: String)
    ensures
        r@ == user_config_path(*env),
{
    proof {
        reveal_strlit("config.toml");
    }
    let base = config_base_dir(env);
    join_path(base.as_str(), "config.toml")
}

/// The directory `config.toml` lives in for the user.
pub fn config_base_dir(env: &Environment) -> (r: String)
    ensures
        r@ == app_config_dir(*env),
{
    app_config_base_dir(env)
}

/// The files to read, in order: the explicit path alone, or system then user.
pub open spec fn config_paths(override_path: Option<Seq<char>>, env: Environment) -> Seq<Seq<char>> {
    match override_path {
        Some(p) => seq![p],
        None => seq!["/etc/ratgreet/config.toml"@, user_config_path(env)],
    }
}

/// Returns the explicit override path, or the standard search order (system then user).
pub fn resolved_paths(override_path: Option<&str>, env: &Environment) -> (r: Vec<String>)
    ensures
        r@.map_values(|p: String| p@) == config_paths(opt_chars(override_path), *env),
{
    let mut r: Vec<String> = Vec::new();
    match override_path {
        Some(p) => r.push(owned(p)),
        None => {
            r.push(system_path());
            r.push(user_path(env));
        },
    }
    assert(r@.map_values(|p: String| p@) =~= config_paths(opt_chars(override_path), *env));
    r
}

// ---------------------------------------------------------------- validation

/// The first environment entry without `=`, front to back.
pub open spec fn first_malformed(envs: Seq<Seq<char>>) -> Option<Seq<char>>
    decreases envs.len(),
{
    if envs.len() == 0 {
        None
    } else if !envs[0].contains('=') {
        Some(envs[0])
    } else {
        first_malformed(envs.drop_first())
    }
}

/// Whether a function-key number is out of `1..=12`.
pub open spec fn key_out_of_range(k: u8) -> bool {
    !(1 <= k <= 12)
}

/// Validation of a configuration: the first rule it breaks, in this order.
pub open spec fn config_check(c: ConfigView) -> Result<(), ConfigErrorView> {
    if c.kb_command == c.kb_sessions || c.kb_sessions == c.kb_power || c.kb_command
        == c.kb_power {
        Err(ConfigErrorView::Validation("[keybindings] command, sessions, and power must be distinct"@))
    } else if key_out_of_range(c.kb_command) || key_out_of_range(c.kb_sessions) || key_out_of_range(
        c.kb_power,
    ) {
        Err(ConfigErrorView::Validation("[keybindings] values must be between 1 and 12"@))
    } else {
        match first_malformed(c.session.env) {
            Some(e) => Err(ConfigErrorView::Validation(
                "malformed environment variable in [session].env: '"@ + e + "'"@,
            )),
            None => Ok(()),
        }
    }
}

/// Whether a configuration is valid.
pub open spec fn config_valid(c: ConfigView) -> bool {
    config_check(c) is Ok
}

fn first_malformed_env(envs: &Vec<String>) -> (r: Option<usize>)
    ensures
        match first_malformed(envs.deep_view()) {
            Some(e) => r matches Some(i) && i < envs@.len() && envs@[i as int]@ == e,
            None => r is None,
        },
{
    let ghost d = envs.deep_view();
    let mut i: usize = 0;
    assert(d.skip(0) =~= d);
    while i < envs.len()
        invariant
            i <= envs@.len(),
            d == envs.deep_view(),
            first_malformed(d) == first_malformed(d.skip(i as int)),
        decreases envs.len() - i,
    {
        assert(d.skip(i as int)[0] == envs@[i as int]@);
        assert(d.skip(i as int).drop_first() =~= d.skip(i + 1));
        if !has_char(envs[i].as_str(), '=') {
            return Some(i);
        }
        i = i + 1;
    }
    assert(d.skip(i as int) =~= Seq::<Seq<char>>::empty());
    None
}

impl Config {
    /// Checks the combinations of settings that cannot work together.
    pub fn validate(&self) -> (r: Result<(), ConfigError>)
        ensures
            config_result_is(r, config_check(self@)),
    {
        let k = &self.keybindings;
        if k.command == k.sessions || k.sessions == k.power || k.command == k.power {
            return Err(ConfigError::Validation(
                owned("[keybindings] command, sessions, and power must be distinct"),
            ));
        }
        if !(1 <= k.command && k.command <= 12) || !(1 <= k.sessions && k.sessions <= 12) || !(1
            <= k.power && k.power <= 12) {
            return Err(
                ConfigError::Validation(owned("[keybindings] values must be between 1 and 12")),
            );
        }
        match first_malformed_env(&self.session.env) {
            Some(i) => {
                let mut m = owned("malformed environment variable in [session].env: '");
                m.append(self.session.env[i].as_str());
                m.append("'");
                Err(ConfigError::Validation(m))
            },
            None => Ok(()),
        }
    }
}

// ---------------------------------------------------------------- layers

/// `[logging]` as a file sets it: `None` for a key the file leaves out.
#[derive(Debug)]
pub struct LoggingLayer {
    pub level: Option<LogLevel>,
    pub file: Option<String>,
}

/// `[session]` as a file sets it.
#[derive(Debug)]
pub struct SessionLayer {
    pub cmd: Option<String>,
    pub env: Option<Vec<String>>,
    pub wayland_dirs: Option<Vec<String>>,
    pub x11_dirs: Option<Vec<String>>,
    pub session_wrapper: Option<String>,
    pub xsession_wrapper: Option<String>,
    pub no_xsession_wrapper: Option<bool>,
}

/// `[secrets]` as a file sets it.
#[derive(Debug)]
pub struct SecretsLayer {
    pub display: Option<SecretDisplayMode>,
    pub mask_char: Option<char>,
}

/// `[keybindings]` as a file sets it.
#[derive(Debug)]
pub struct KeybindingsLayer {
    pub command: Option<u8>,
    pub sessions: Option<u8>,
    pub power: Option<u8>,
}

/// `[power]` as a file sets it.
#[derive(Debug)]
pub struct PowerLayer {
    pub shutdown: Option<String>,
    pub reboot: Option<String>,
    pub no_setsid: Option<bool>,
}

/// What one `config.toml` sets: each key it carries, and `None` for each it leaves out.
#[derive(Debug)]
pub struct ConfigLayer {
    pub logging: LoggingLayer,
    pub session: SessionLayer,
    pub secrets: SecretsLayer,
    pub keybindings: KeybindingsLayer,
    pub power: PowerLayer,
}

pub struct ConfigLayerView {
    pub level: Option<LogLevel>,
    pub log_file: Option<Seq<char>>,
    pub cmd: Option<Seq<char>>,
    pub env: Option<Seq<Seq<char>>>,
    pub wayland_dirs: Option<Seq<Seq<char>>>,
    pub x11_dirs: Option<Seq<Seq<char>>>,
    pub session_wrapper: Option<Seq<char>>,
    pub xsession_wrapper: Option<Seq<char>>,
    pub no_xsession_wrapper: Option<bool>,
    pub display: Option<SecretDisplayMode>,
    pub mask_char: Option<char>,
    pub kb_command: Option<u8>,
    pub kb_sessions: Option<u8>,
    pub kb_power: Option<u8>,
    pub shutdown: Option<Seq<char>>,
    pub reboot: Option<Seq<char>>,
    pub no_setsid: Option<bool>,
}

impl View for ConfigLayer {
    type V = ConfigLayerView;

    open spec fn view(&self) -> ConfigLayerView {
        ConfigLayerView {
            level: self.logging.level,
            log_file: self.logging.file.deep_view(),
            cmd: self.session.cmd.deep_view(),
            env: self.session.env.deep_view(),
            wayland_dirs: self.session.wayland_dirs.deep_view(),
            x11_dirs: self.session.x11_dirs.deep_view(),
            session_wrapper: self.session.session_wrapper.deep_view(),
            xsession_wrapper: self.session.xsession_wrapper.deep_view(),
            no_xsession_wrapper: self.session.no_xsession_wrapper,
            display: self.secrets.display,
            mask_char: self.secrets.mask_char,
            kb_command: self.keybindings.command,
            kb_sessions: self.keybindings.sessions,
            kb_power: self.keybindings.power,
            shutdown: self.power.shutdown.deep_view(),
            reboot: self.power.reboot.deep_view(),
            no_setsid: self.power.no_setsid,
        }
    }
}

/// A file that sets nothing.
pub open spec fn empty_config_layer() -> ConfigLayerView {
    ConfigLayerView {
        level: None,
        log_file: None,
        cmd: None,
        env: None,
        wayland_dirs: None,
        x11_dirs: None,
        session_wrapper: None,
        xsession_wrapper: None,
        no_xsession_wrapper: None,
        display: None,
        mask_char: None,
        kb_command: None,
        kb_sessions: None,
        kb_power: None,
        shutdown: None,
        reboot: None,
        no_setsid: None,
    }
}

impl ConfigLayer {
    /// A layer that sets nothing.
    pub fn default() -> (r: ConfigLayer)
        ensures
            r@ == empty_config_layer(),
    {
        ConfigLayer {
            logging: LoggingLayer { level: None, file: None },
            session: SessionLayer {
                cmd: None,
                env: None,
                wayland_dirs: None,
                x11_dirs: None,
                session_wrapper: None,
                xsession_wrapper: None,
                no_xsession_wrapper: None,
            },
            secrets: SecretsLayer { display: None, mask_char: None },
            keybindings: KeybindingsLayer { command: None, sessions: None, power: None },
            power: PowerLayer { shutdown: None, reboot: None, no_setsid: None },
        }
    }

    /// A copy.
    pub fn duplicate(&self) -> (r: ConfigLayer)
        ensures
            r@ == self@,
    {
        ConfigLayer {
            logging: LoggingLayer { level: self.logging.level, file: clone_opt(&self.logging.file) },
            session: SessionLayer {
                cmd: clone_opt(&self.session.cmd),
                env: clone_opt_strings(&self.session.env),
                wayland_dirs: clone_opt_strings(&self.session.wayland_dirs),
                x11_dirs: clone_opt_strings(&self.session.x11_dirs),
                session_wrapper: clone_opt(&self.session.session_wrapper),
                xsession_wrapper: clone_opt(&self.session.xsession_wrapper),
                no_xsession_wrapper: self.session.no_xsession_wrapper,
            },
            secrets: SecretsLayer { display: self.secrets.display, mask_char: self.secrets.mask_char },
            keybindings: KeybindingsLayer {
                command: self.keybindings.command,
                sessions: self.keybindings.sessions,
                power: self.keybindings.power,
            },
            power: PowerLayer {
                shutdown: clone_opt(&self.power.shutdown),
                reboot: clone_opt(&self.power.reboot),
                no_setsid: self.power.no_setsid,
            },
        }
    }
}

fn clone_opt_strings(o: &Option<Vec<String>>) -> (r: Option<Vec<String>>)
    ensures
        r.deep_view() == o.deep_view(),
{
    match o {
        Some(v) => Some(clone_strings(v)),
        None => None,
    }
}

/// The value a layer sets, else the one below.
pub open spec fn set_or<T>(top: Option<T>, below: T) -> T {
    match top {
        Some(v) => v,
        None => below,
    }
}

/// A value set by the upper layer wins; an unset one keeps the lower.
pub open spec fn overlay<T>(base: Option<T>, top: Option<T>) -> Option<T> {
    match top {
        Some(v) => Some(v),
        None => base,
    }
}

/// One file's settings over the configuration below: each key the file sets replaces
/// the value below (a list whole); each key it leaves out keeps the value below.
pub open spec fn merge_config(base: ConfigView, top: ConfigLayerView) -> ConfigView {
    ConfigView {
        level: set_or(top.level, base.level),
        log_file: overlay(base.log_file, top.log_file),
        session: SessionView {
            cmd: overlay(base.session.cmd, top.cmd),
            env: set_or(top.env, base.session.env),
            wayland_dirs: set_or(top.wayland_dirs, base.session.wayland_dirs),
            x11_dirs: set_or(top.x11_dirs, base.session.x11_dirs),
            session_wrapper: overlay(base.session.session_wrapper, top.session_wrapper),
            xsession_wrapper: set_or(top.xsession_wrapper, base.session.xsession_wrapper),
            no_xsession_wrapper: set_or(top.no_xsession_wrapper, base.session.no_xsession_wrapper),
        },
        display: set_or(top.display, base.display),
        mask_char: set_or(top.mask_char, base.mask_char),
        kb_command: set_or(top.kb_command, base.kb_command),
        kb_sessions: set_or(top.kb_sessions, base.kb_sessions),
        kb_power: set_or(top.kb_power, base.kb_power),
        shutdown: overlay(base.shutdown, top.shutdown),
        reboot: overlay(base.reboot, top.reboot),
        no_setsid: set_or(top.no_setsid, base.no_setsid),
    }
}

/// A file read on its own: the built-in configuration with what the file sets.
pub open spec fn layer_alone(l: ConfigLayerView) -> ConfigView {
    merge_config(default_config(), l)
}

/// The outcome of reading one configuration file.
#[derive(Debug)]
pub enum ConfigRead {
    /// No file at the path.
    NotFound { path: String },
    /// The file holds nothing but white space.
    Empty,
    /// The file could not be read or is not a configuration.
    Failed(ConfigError),
    /// What the file sets.
    Parsed(ConfigLayer),
}

pub enum ConfigReadView {
    NotFound { path: Seq<char> },
    Empty,
    Failed(ConfigErrorView),
    Parsed(ConfigLayerView),
}

impl View for ConfigRead {
    type V = ConfigReadView;

    open spec fn view(&self) -> ConfigReadView {
        match self {
            ConfigRead::NotFound { path } => ConfigReadView::NotFound { path: path@ },
            ConfigRead::Empty => ConfigReadView::Empty,
            ConfigRead::Failed(e) => ConfigReadView::Failed(e@),
            ConfigRead::Parsed(c) => ConfigReadView::Parsed(c@),
        }
    }
}

/// The layer a read contributes: a parsed file that validates on its own.
pub open spec fn accepted_layer(r: ConfigReadView) -> Option<ConfigLayerView> {
    match r {
        ConfigReadView::Parsed(c) => if config_valid(layer_alone(c)) { Some(c) } else { None },
        _ => None,
    }
}

/// The built-in configuration with each accepted layer merged over it, in order.
pub open spec fn merged_layers(reads: Seq<ConfigReadView>) -> ConfigView
    decreases reads.len(),
{
    if reads.len() == 0 {
        default_config()
    } else {
        let below = merged_layers(reads.drop_last());
        match accepted_layer(reads.last()) {
            Some(c) => merge_config(below, c),
            None => below,
        }
    }
}

/// The configuration in effect: the merged layers where they validate, else the built-in one.
pub open spec fn layered_config(reads: Seq<ConfigReadView>) -> ConfigView {
    let m = merged_layers(reads);
    if config_valid(m) {
        m
    } else {
        default_config()
    }
}

/// The views of a list of reads.
pub open spec fn reads_view(reads: Seq<ConfigRead>) -> Seq<ConfigReadView> {
    reads.map_values(|r: ConfigRead| r@)
}

fn overlay_string(base: Option<String>, top: &Option<String>) -> (r: Option<String>)
    ensures
        r.deep_view() == overlay(base.deep_view(), top.deep_view()),
{
    match top {
        Some(v) => Some(v.clone()),
        None => base,
    }
}

fn set_string(top: &Option<String>, below: String) -> (r: String)
    ensures
        r@ == set_or(top.deep_view(), below@),
{
    match top {
        Some(v) => v.clone(),
        None => below,
    }
}

fn set_strings(top: &Option<Vec<String>>, below: Vec<String>) -> (r: Vec<String>)
    ensures
        r.deep_view() == set_or(top.deep_view(), below.deep_view()),
{
    match top {
        Some(v) => clone_strings(v),
        None => below,
    }
}

fn set_copy<T: Copy>(top: Option<T>, below: T) -> (r: T)
    ensures
        r == set_or(top, below),
{
    match top {
        Some(v) => v,
        None => below,
    }
}

/// Merges what a file sets over `base`.
pub fn merge_layer(base: Config, top: &ConfigLayer) -> (r: Config)
    ensures
        r@ == merge_config(base@, top@),
{
    let Config { logging, session, secrets, keybindings, power } = base;
    let t = top;
    Config {
        logging: Logging {
            level: set_copy(t.logging.level, logging.level),
            file: overlay_string(logging.file, &t.logging.file),
        },
        session: Session {
            cmd: overlay_string(session.cmd, &t.session.cmd),
            env: set_strings(&t.session.env, session.env),
            wayland_dirs: set_strings(&t.session.wayland_dirs, session.wayland_dirs),
            x11_dirs: set_strings(&t.session.x11_dirs, session.x11_dirs),
            session_wrapper: overlay_string(session.session_wrapper, &t.session.session_wrapper),
            xsession_wrapper: set_string(&t.session.xsession_wrapper, session.xsession_wrapper),
            no_xsession_wrapper: set_copy(t.session.no_xsession_wrapper, session.no_xsession_wrapper),
        },
        secrets: Secrets {
            display: set_copy(t.secrets.display, secrets.display),
            mask_char: set_copy(t.secrets.mask_char, secrets.mask_char),
        },
        keybindings: Keybindings {
            command: set_copy(t.keybindings.command, keybindings.command),
            sessions: set_copy(t.keybindings.sessions, keybindings.sessions),
            power: set_copy(t.keybindings.power, keybindings.power),
        },
        power: Power {
            shutdown: overlay_string(power.shutdown, &t.power.shutdown),
            reboot: overlay_string(power.reboot, &t.power.reboot),
            no_setsid: set_copy(t.power.no_setsid, power.no_setsid),
        },
    }
}

/// The layer a read contributes, or why it contributes none: a missing or empty
/// file contributes nothing, a parsed file contributes what it sets once it validates
/// on its own (over the built-in configuration).
pub fn load_if_exists(read: &ConfigRead) -> (r: Result<Option<ConfigLayer>, ConfigError>)
    ensures
        match read@ {
            ConfigReadView::NotFound { .. } | ConfigReadView::Empty => r matches Ok(None),
            ConfigReadView::Failed(e) => r matches Err(x) && x@ == e,
            ConfigReadView::Parsed(c) => match config_check(layer_alone(c)) {
                Ok(()) => r matches Ok(Some(x)) && x@ == c,
                Err(e) => r matches Err(x) && x@ == e,
            },
        },
{
    match read {
        ConfigRead::NotFound { .. } | ConfigRead::Empty => Ok(None),
        ConfigRead::Failed(e) => Err(e.duplicate()),
        ConfigRead::Parsed(c) => {
            let alone = merge_layer(Config::default(), c);
            match alone.validate() {
                Ok(()) => Ok(Some(c.duplicate())),
                Err(e) => Err(e),
            }
        },
    }
}

/// Merges the readable, valid configuration files over the built-in configuration,
/// in order: each key a file sets replaces what the files before it (or the built-in
/// configuration) gave.
///
/// Missing, unreadable, invalid or empty files are skipped; where the merged
/// result does not validate, the built-in configuration is used. The result is
/// always valid.
pub fn load_layered(reads: &Vec<ConfigRead>) -> (r: Config)
    ensures
        r@ == layered_config(reads_view(reads@)),
{
    let ghost rv = reads_view(reads@);
    let mut value = Config::default();
    let mut i: usize = 0;
    while i < reads.len()
        invariant
            i <= reads@.len(),
            rv == reads_view(reads@),
            value@ == merged_layers(rv.take(i as int)),
        decreases reads.len() - i,
    {
        assert(rv.take(i + 1).drop_last() =~= rv.take(i as int));
        assert(rv.take(i + 1).last() == reads@[i as int]@);
        match load_if_exists(&reads[i]) {
            Ok(Some(layer)) => {
                value = merge_layer(value, &layer);
            },
            _ => {},
        }
        i = i + 1;
    }
    assert(rv.take(reads@.len() as int) =~= rv);
    match value.validate() {
        Ok(()) => value,
        Err(_) => Config::default(),
    }
}

// ---------------------------------------------------------------- laws

proof fn lemma_skipped_read_merged(reads: Seq<ConfigReadView>, i: int)
    requires
        0 <= i < reads.len(),
        accepted_layer(reads[i]) is None,
    ensures
        merged_layers(reads) == merged_layers(reads.remove(i)),
    decreases reads.len(),
{
    if i == reads.len() - 1 {
        assert(reads.remove(i) =~= reads.drop_last());
    } else {
        lemma_skipped_read_merged(reads.drop_last(), i);
        assert(reads.remove(i).drop_last() =~= reads.drop_last().remove(i));
        assert(reads.remove(i).last() == reads.last());
    }
}

/// The configuration in effect always validates.
pub proof fn lemma_config_always_valid(reads: Seq<ConfigReadView>)
    ensures
        config_valid(layered_config(reads)),
{
    assert(config_valid(default_config()));
}

/// A file that contributes no layer (missing, empty, unreadable, or invalid) is skipped:
/// the configuration in effect is the one without it.
pub proof fn lemma_skipped_config_file(reads: Seq<ConfigReadView>, i: int)
    requires
        0 <= i < reads.len(),
        accepted_layer(reads[i]) is None,
    ensures
        layered_config(reads) == layered_config(reads.remove(i)),
{
    lemma_skipped_read_merged(reads, i);
}

/// Where no file contributes a layer, the built-in configuration is in effect.
pub proof fn lemma_no_config_files(reads: Seq<ConfigReadView>)
    requires
        forall|i: int| 0 <= i < reads.len() ==> accepted_layer(#[trigger] reads[i]) is None,
    ensures
        layered_config(reads) == default_config(),
    decreases reads.len(),
{
    if reads.len() > 0 {
        lemma_no_config_files(reads.drop_last());
        assert(accepted_layer(reads[reads.len() - 1]) is None);
    }
    assert(config_valid(default_config()));
}

/// Layers merge in order, a later one over what the earlier ones give.
pub proof fn lemma_later_config_file_wins(reads: Seq<ConfigReadView>, top: ConfigLayerView)
    requires
        config_valid(layer_alone(top)),
    ensures
        merged_layers(reads.push(ConfigReadView::Parsed(top))) == merge_config(merged_layers(reads), top),
{
    assert(reads.push(ConfigReadView::Parsed(top)).drop_last() =~= reads);
}

/// The value of a key after the layers: what the last accepted layer that sets it says,
/// or `default` where none sets it.
pub open spec fn set_by_layers<T>(
    reads: Seq<ConfigReadView>,
    key: spec_fn(ConfigLayerView) -> Option<T>,
    default: T,
) -> T
    decreases reads.len(),
{
    if reads.len() == 0 {
        default
    } else {
        match accepted_layer(reads.last()) {
            Some(l) => match key(l) {
                Some(v) => v,
                None => set_by_layers(reads.drop_last(), key, default),
            },
            None => set_by_layers(reads.drop_last(), key, default),
        }
    }
}

/// Each key of the merged configuration comes from the last accepted file that sets it;
/// a key no file sets keeps its built-in value. A file that leaves a key out changes
/// nothing about it.
pub proof fn lemma_config_keys_from_last_setter(reads: Seq<ConfigReadView>)
    ensures
        ({
            let m = merged_layers(reads);
            let d = default_config();
            &&& m.level == set_by_layers(reads, |l: ConfigLayerView| l.level, d.level)
            &&& m.log_file == set_by_layers(reads, |l: ConfigLayerView| opt_set(l.log_file), d.log_file)
            &&& m.session.cmd == set_by_layers(reads, |l: ConfigLayerView| opt_set(l.cmd), d.session.cmd)
            &&& m.session.env == set_by_layers(reads, |l: ConfigLayerView| l.env, d.session.env)
            &&& m.session.wayland_dirs == set_by_layers(reads, |l: ConfigLayerView| l.wayland_dirs, d.session.wayland_dirs)
            &&& m.session.x11_dirs == set_by_layers(reads, |l: ConfigLayerView| l.x11_dirs, d.session.x11_dirs)
            &&& m.session.session_wrapper == set_by_layers(
                reads,
                |l: ConfigLayerView| opt_set(l.session_wrapper),
                d.session.session_wrapper,
            )
            &&& m.session.xsession_wrapper == set_by_layers(
                reads,
                |l: ConfigLayerView| l.xsession_wrapper,
                d.session.xsession_wrapper,
            )
            &&& m.session.no_xsession_wrapper == set_by_layers(
                reads,
                |l: ConfigLayerView| l.no_xsession_wrapper,
                d.session.no_xsession_wrapper,
            )
            &&& m.display == set_by_layers(reads, |l: ConfigLayerView| l.display, d.display)
            &&& m.mask_char == set_by_layers(reads, |l: ConfigLayerView| l.mask_char, d.mask_char)
            &&& m.kb_command == set_by_layers(reads, |l: ConfigLayerView| l.kb_command, d.kb_command)
            &&& m.kb_sessions == set_by_layers(reads, |l: ConfigLayerView| l.kb_sessions, d.kb_sessions)
            &&& m.kb_power == set_by_layers(reads, |l: ConfigLayerView| l.kb_power, d.kb_power)
            &&& m.shutdown == set_by_layers(reads, |l: ConfigLayerView| opt_set(l.shutdown), d.shutdown)
            &&& m.reboot == set_by_layers(reads, |l: ConfigLayerView| opt_set(l.reboot), d.reboot)
            &&& m.no_setsid == set_by_layers(reads, |l: ConfigLayerView| l.no_setsid, d.no_setsid)
        }),
    decreases reads.len(),
{
    if reads.len() > 0 {
        lemma_config_keys_from_last_setter(reads.drop_last());
    }
}

/// An optional key as a setting: set (to `Some`) where the file carries it.
pub open spec fn opt_set<T>(v: Option<T>) -> Option<Option<T>> {
    match v {
        Some(x) => Some(Some(x)),
        None => None,
    }
}

} // verus!
