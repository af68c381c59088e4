//! `theme.toml`: layout, banner, clock and colors; where it lives, how its layers
//! combine, and when it is valid.

use vstd::prelude::*;
use crate::color::{css_color, css_color_panics, parse_css_color};
use crate::paths::{app_config_base_dir, app_config_dir, join, join_path, Environment};
use crate::text::{
    chars_of, clone_opt, find_char, first_index, opt_chars, owned, push_char, split_on, split_str,
    string_of_range,
};

verus! {

broadcast use vstd::string::group_string_axioms;

/// How the greeting is aligned.
#[derive(Debug, Clone, Copy, PartialEq, Eq)]
pub enum GreetAlign {
    Left,
    Center,
    Right,
}

/// Layout, banner and clock.
#[derive(Debug)]
pub struct ThemeUi {
    pub width: u16,
    pub window_padding: u16,
    pub container_padding: u16,
    pub prompt_padding: u16,
    pub greet_align: GreetAlign,
    pub show_time: bool,
    pub time_format: Option<String>,
    pub issue: bool,
    pub greeting: Option<String>,
}

/// Color of each semantic role, as written in the file.
#[derive(Debug)]
pub struct ThemeColors {
    pub container: Option<String>,
    pub time: Option<String>,
    pub text: Option<String>,
    pub border: Option<String>,
    pub title: Option<String>,
    pub greet: Option<String>,
    pub prompt: Option<String>,
    pub input: Option<String>,
    pub action: Option<String>,
    pub button: Option<String>,
}

/// The contents of a `theme.toml`.
#[derive(Debug)]
pub struct ThemeFile {
    pub colors: ThemeColors,
    pub ui: ThemeUi,
}

/// Why a theme could not be used.
#[derive(Debug)]
pub enum ThemeError {
    NotFound { path: String },
    Io(String),
    TomlDeserialize(String),
    InvalidColor { name: String, value: String },
    Validation(String),
}

/// The UI theme: the semantic color roles that were set, as `role=color`
/// entries joined by `;`.
#[derive(Debug)]
pub struct Theme {
    pub spec: String,
}

pub struct ThemeUiView {
    pub width: u16,
    pub window_padding: u16,
    pub container_padding: u16,
    pub prompt_padding: u16,
    pub greet_align: GreetAlign,
    pub show_time: bool,
    pub time_format: Option<Seq<char>>,
    pub issue: bool,
    pub greeting: Option<Seq<char>>,
}

pub struct ThemeColorsView {
    pub container: Option<Seq<char>>,
    pub time: Option<Seq<char>>,
    pub text: Option<Seq<char>>,
    pub border: Option<Seq<char>>,
    pub title: Option<Seq<char>>,
    pub greet: Option<Seq<char>>,
    pub prompt: Option<Seq<char>>,
    pub input: Option<Seq<char>>,
    pub action: Option<Seq<char>>,
    pub button: Option<Seq<char>>,
}

pub struct ThemeFileView {
    pub colors: ThemeColorsView,
    pub ui: ThemeUiView,
}

pub enum ThemeErrorView {
    NotFound { path: Seq<char> },
    Io(Seq<char>),
    TomlDeserialize(Seq<char>),
    InvalidColor { name: Seq<char>, value: Seq<char> },
    Validation(Seq<char>),
}

impl View for ThemeUi {
    type V = ThemeUiView;

    open spec fn view(&self) -> ThemeUiView {
        ThemeUiView {
            width: self.width,
            window_padding: self.window_padding,
            container_padding: self.container_padding,
            prompt_padding: self.prompt_padding,
            greet_align: self.greet_align,
            show_time: self.show_time,
            time_format: self.time_format.deep_view(),
            issue: self.issue,
            greeting: self.greeting.deep_view(),
        }
    }
}

impl View for ThemeColors {
    type V = ThemeColorsView;

    open spec fn view(&self) -> ThemeColorsView {
        ThemeColorsView {
            container: self.container.deep_view(),
            time: self.time.deep_view(),
            text: self.text.deep_view(),
            border: self.border.deep_view(),
            title: self.title.deep_view(),
            greet: self.greet.deep_view(),
            prompt: self.prompt.deep_view(),
            input: self.input.deep_view(),
            action: self.action.deep_view(),
            button: self.button.deep_view(),
        }
    }
}

impl View for ThemeFile {
    type V = ThemeFileView;

    open spec fn view(&self) -> ThemeFileView {
        ThemeFileView { colors: self.colors@, ui: self.ui@ }
    }
}

impl View for ThemeError {
    type V = ThemeErrorView;

    open spec fn view(&self) -> ThemeErrorView {
        match self {
            ThemeError::NotFound { path } => ThemeErrorView::NotFound { path: path@ },
            ThemeError::Io(m) => ThemeErrorView::Io(m@),
            ThemeError::TomlDeserialize(m) => ThemeErrorView::TomlDeserialize(m@),
            ThemeError::InvalidColor { name, value } => ThemeErrorView::InvalidColor {
                name: name@,
                value: value@,
            },
            ThemeError::Validation(m) => ThemeErrorView::Validation(m@),
        }
    }
}

/// A `Result<(), ThemeError>` agrees with its stated form.
pub open spec fn unit_result_is(r: Result<(), ThemeError>, s: Result<(), ThemeErrorView>) -> bool {
    match s {
        Ok(()) => r is Ok,
        Err(e) => r matches Err(x) && x@ == e,
    }
}

// ---------------------------------------------------------------- defaults

pub fn default_width() -> (r: u16)
    ensures
        r == 80,
{
    80
}

pub fn default_container_padding() -> (r: u16)
    ensures
        r == 1,
{
    1
}

pub fn default_prompt_padding() -> (r: u16)
    ensures
        r == 1,
{
    1
}

/// The built-in layout.
pub open spec fn default_ui() -> ThemeUiView {
    ThemeUiView {
        width: 80,
        window_padding: 0,
        container_padding: 1,
        prompt_padding: 1,
        greet_align: GreetAlign::Center,
        show_time: false,
        time_format: None,
        issue: false,
        greeting: None,
    }
}

/// No role has a color of its own.
pub open spec fn no_colors() -> ThemeColorsView {
    ThemeColorsView {
        container: None,
        time: None,
        text: None,
        border: None,
        title: None,
        greet: None,
        prompt: None,
        input: None,
        action: None,
        button: None,
    }
}

/// The built-in theme.
pub open spec fn default_theme() -> ThemeFileView {
    ThemeFileView { colors: no_colors(), ui: default_ui() }
}

impl GreetAlign {
    /// Centered.
    pub fn default() -> (r: GreetAlign)
        ensures
            r == GreetAlign::Center,
    {
        GreetAlign::Center
    }
}

impl ThemeUi {
    /// The built-in layout.
    pub fn default() -> (r: ThemeUi)
        ensures
            r@ == default_ui(),
    {
        ThemeUi {
            width: default_width(),
            window_padding: 0,
            container_padding: default_container_padding(),
            prompt_padding: default_prompt_padding(),
            greet_align: GreetAlign::default(),
            show_time: false,
            time_format: None,
            issue: false,
            greeting: None,
        }
    }
}

impl ThemeColors {
    /// No role colored.
    pub fn default() -> (r: ThemeColors)
        ensures
            r@ == no_colors(),
    {
        ThemeColors {
            container: None,
            time: None,
            text: None,
            border: None,
            title: None,
            greet: None,
            prompt: None,
            input: None,
            action: None,
            button: None,
        }
    }
}

impl ThemeFile {
    /// The built-in theme.
    pub fn default() -> (r: ThemeFile)
        ensures
            r@ == default_theme(),
    {
        ThemeFile { colors: ThemeColors::default(), ui: ThemeUi::default() }
    }
}

// ---------------------------------------------------------------- paths

/// Packager path: `/etc/ratgreet/theme.toml`.
pub fn system_path() -> (r: String)
    ensures
        r@ == "/etc/ratgreet/theme.toml"@,
{
    owned("/etc/ratgreet/theme.toml")
}

/// User path: `theme.toml` in the user's configuration directory.
pub open spec fn user_theme_path(env: Environment) -> Seq<char> {
    join(app_config_dir(env), "theme.toml"@)
}

/// User path: `$XDG_CONFIG_HOME/ratgreet/theme.toml` (fallback `~/.config/...`).
pub fn user_path(env: &Environment) -> (r: String)
    ensures
        r@ == user_theme_path(*env),
{
    proof {
        reveal_strlit("theme.toml");
    }
    let base = app_config_base_dir(env);
    join_path(base.as_str(), "theme.toml")
}

/// The files to read, in order: the explicit path alone, or system then user.
pub open spec fn theme_paths(override_path: Option<Seq<char>>, env: Environment) -> Seq<Seq<char>> {
    match override_path {
        Some(p) => seq![p],
        None => seq!["/etc/ratgreet/theme.toml"@, user_theme_path(env)],
    }
}

/// Returns the explicit override path, or the standard search order (system then user).
pub fn resolved_paths(override_path: Option<&str>, env: &Environment) -> (r: Vec<String>)
    ensures
        r@.map_values(|p: String| p@) == theme_paths(opt_chars(override_path), *env),
{
    let mut r: Vec<String> = Vec::new();
    match override_path {
        Some(p) => r.push(owned(p)),
        None => {
            r.push(system_path());
            r.push(user_path(env));
        },
    }
    assert(r@.map_values(|p: String| p@) =~= theme_paths(opt_chars(override_path), *env));
    r
}

// ---------------------------------------------------------------- validation

/// What chrono's `StrftimeItems` finds in a format: `true` where one of the
/// items it yields is `Item::Error`.
pub uninterp spec fn strftime_invalid(format: Seq<char>) -> bool;

/// Runs chrono's `StrftimeItems` over `format`; claims only that the answer is
/// [`strftime_invalid`] of the format.
#[verifier::external_body]
fn strftime_has_error(format: &str) -> (r: bool)
    ensures
        r == strftime_invalid(format@),
{
    chrono::format::StrftimeItems::new(format).any(|item| matches!(item, chrono::format::Item::Error))
}

/// Whether a configured color fails to parse.
pub open spec fn color_invalid(v: Option<Seq<char>>) -> bool {
    v matches Some(x) && css_color(x) is None
}

/// Whether a configured color would make the color parser panic.
pub open spec fn color_panics(v: Option<Seq<char>>) -> bool {
    v matches Some(x) && css_color_panics(x)
}

/// No color of the theme makes the color parser panic.
pub open spec fn colors_parse_safely(c: ThemeColorsView) -> bool {
    &&& !color_panics(c.container)
    &&& !color_panics(c.time)
    &&& !color_panics(c.text)
    &&& !color_panics(c.border)
    &&& !color_panics(c.title)
    &&& !color_panics(c.greet)
    &&& !color_panics(c.prompt)
    &&& !color_panics(c.input)
    &&& !color_panics(c.action)
    &&& !color_panics(c.button)
}

/// The error for a color that does not parse.
pub open spec fn bad_color(name: Seq<char>, v: Option<Seq<char>>) -> Result<(), ThemeErrorView> {
    Err(ThemeErrorView::InvalidColor { name, value: v->0 })
}

/// The first color, in role order, that does not parse.
pub open spec fn colors_check(c: ThemeColorsView) -> Result<(), ThemeErrorView> {
    if color_invalid(c.container) {
        bad_color("container"@, c.container)
    } else if color_invalid(c.time) {
        bad_color("time"@, c.time)
    } else if color_invalid(c.text) {
        bad_color("text"@, c.text)
    } else if color_invalid(c.border) {
        bad_color("border"@, c.border)
    } else if color_invalid(c.title) {
        bad_color("title"@, c.title)
    } else if color_invalid(c.greet) {
        bad_color("greet"@, c.greet)
    } else if color_invalid(c.prompt) {
        bad_color("prompt"@, c.prompt)
    } else if color_invalid(c.input) {
        bad_color("input"@, c.input)
    } else if color_invalid(c.action) {
        bad_color("action"@, c.action)
    } else if color_invalid(c.button) {
        bad_color("button"@, c.button)
    } else {
        Ok(())
    }
}

/// Whether the configured time format is invalid, given chrono's verdict on it.
pub open spec fn format_rejected(t: ThemeFileView) -> bool {
    t.ui.time_format matches Some(f) && strftime_invalid(f)
}

/// Validation of a theme, given whether its time format (if any) is rejected.
pub open spec fn theme_check(t: ThemeFileView, time_format_rejected: bool) -> Result<(), ThemeErrorView> {
    if t.ui.issue && t.ui.greeting is Some {
        Err(ThemeErrorView::Validation("only one of [ui].issue and [ui].greeting may be set"@))
    } else if t.ui.time_format is Some && time_format_rejected {
        Err(ThemeErrorView::Validation("invalid strftime format in [ui].time_format"@))
    } else {
        colors_check(t.colors)
    }
}

/// Whether a theme is valid.
pub open spec fn theme_valid(t: ThemeFileView) -> bool {
    theme_check(t, format_rejected(t)) is Ok
}

fn check_color(name: &str, value: &Option<String>) -> (r: Result<(), ThemeError>)
    requires
        !color_panics(value.deep_view()),
    ensures
        unit_result_is(
            r,
            if color_invalid(value.deep_view()) {
                bad_color(name@, value.deep_view())
            } else {
                Ok(())
            },
        ),
{
    match value {
        Some(v) => match parse_css_color(v.as_str()) {
            Ok(_) => Ok(()),
            Err(_) => Err(ThemeError::InvalidColor { name: owned(name), value: v.clone() }),
        },
        None => Ok(()),
    }
}

impl ThemeFile {
    /// Validation, given chrono's verdict on the time format.
    pub fn validate_with(&self, time_format_rejected: bool) -> (r: Result<(), ThemeError>)
        requires
            colors_parse_safely(self@.colors),
        ensures
            unit_result_is(r, theme_check(self@, time_format_rejected)),
    {
        if self.ui.issue && self.ui.greeting.is_some() {
            return Err(
                ThemeError::Validation(owned("only one of [ui].issue and [ui].greeting may be set")),
            );
        }
        if self.ui.time_format.is_some() && time_format_rejected {
            return Err(ThemeError::Validation(owned("invalid strftime format in [ui].time_format")));
        }
        let c = &self.colors;
        check_color("container", &c.container)?;
        check_color("time", &c.time)?;
        check_color("text", &c.text)?;
        check_color("border", &c.border)?;
        check_color("title", &c.title)?;
        check_color("greet", &c.greet)?;
        check_color("prompt", &c.prompt)?;
        check_color("input", &c.input)?;
        check_color("action", &c.action)?;
        check_color("button", &c.button)?;
        Ok(())
    }

    /// Checks that issue and greeting are not both set, that the time format is
    /// valid strftime, and that every color parses.
    pub fn validate(&self) -> (r: Result<(), ThemeError>)
        requires
            colors_parse_safely(self@.colors),
        ensures
            unit_result_is(r, theme_check(self@, format_rejected(self@))),
    {
        let rejected = match &self.ui.time_format {
            Some(f) => strftime_has_error(f.as_str()),
            None => false,
        };
        self.validate_with(rejected)
    }
}


// ---------------------------------------------------------------- copies

impl ThemeUi {
    /// A copy.
    pub fn duplicate(&self) -> (r: ThemeUi)
        ensures
            r@ == self@,
    {
        ThemeUi {
            width: self.width,
            window_padding: self.window_padding,
            container_padding: self.container_padding,
            prompt_padding: self.prompt_padding,
            greet_align: self.greet_align,
            show_time: self.show_time,
            time_format: clone_opt(&self.time_format),
            issue: self.issue,
            greeting: clone_opt(&self.greeting),
        }
    }
}

impl ThemeColors {
    /// A copy.
    pub fn duplicate(&self) -> (r: ThemeColors)
        ensures
            r@ == self@,
    {
        ThemeColors {
            container: clone_opt(&self.container),
            time: clone_opt(&self.time),
            text: clone_opt(&self.text),
            border: clone_opt(&self.border),
            title: clone_opt(&self.title),
            greet: clone_opt(&self.greet),
            prompt: clone_opt(&self.prompt),
            input: clone_opt(&self.input),
            action: clone_opt(&self.action),
            button: clone_opt(&self.button),
        }
    }
}

impl ThemeFile {
    /// A copy.
    pub fn duplicate(&self) -> (r: ThemeFile)
        ensures
            r@ == self@,
    {
        ThemeFile { colors: self.colors.duplicate(), ui: self.ui.duplicate() }
    }
}

// ---------------------------------------------------------------- layers

/// `[ui]` as a file sets it: `None` for a key the file leaves out.
#[derive(Debug)]
pub struct ThemeUiLayer {
    pub width: Option<u16>,
    pub window_padding: Option<u16>,
    pub container_padding: Option<u16>,
    pub prompt_padding: Option<u16>,
    pub greet_align: Option<GreetAlign>,
    pub show_time: Option<bool>,
    pub time_format: Option<String>,
    pub issue: Option<bool>,
    pub greeting: Option<String>,
}

/// What one `theme.toml` sets: the colors it gives and the `[ui]` keys it carries.
#[derive(Debug)]
pub struct ThemeLayer {
    pub colors: ThemeColors,
    pub ui: ThemeUiLayer,
}

pub struct ThemeUiLayerView {
    pub width: Option<u16>,
    pub window_padding: Option<u16>,
    pub container_padding: Option<u16>,
    pub prompt_padding: Option<u16>,
    pub greet_align: Option<GreetAlign>,
    pub show_time: Option<bool>,
    pub time_format: Option<Seq<char>>,
    pub issue: Option<bool>,
    pub greeting: Option<Seq<char>>,
}

pub struct ThemeLayerView {
    pub colors: ThemeColorsView,
    pub ui: ThemeUiLayerView,
}

impl View for ThemeUiLayer {
    type V = ThemeUiLayerView;

    open spec fn view(&self) -> ThemeUiLayerView {
        ThemeUiLayerView {
            width: self.width,
            window_padding: self.window_padding,
            container_padding: self.container_padding,
            prompt_padding: self.prompt_padding,
            greet_align: self.greet_align,
            show_time: self.show_time,
            time_format: self.time_format.deep_view(),
            issue: self.issue,
            greeting: self.greeting.deep_view(),
        }
    }
}

impl View for ThemeLayer {
    type V = ThemeLayerView;

    open spec fn view(&self) -> ThemeLayerView {
        ThemeLayerView { colors: self.colors@, ui: self.ui@ }
    }
}

/// A file that sets nothing.
pub open spec fn empty_theme_layer() -> ThemeLayerView {
    ThemeLayerView {
        colors: no_colors(),
        ui: ThemeUiLayerView {
            width: None,
            window_padding: None,
            container_padding: None,
            prompt_padding: None,
            greet_align: None,
            show_time: None,
            time_format: None,
            issue: None,
            greeting: None,
        },
    }
}

impl ThemeLayer {
    /// A layer that sets nothing.
    pub fn default() -> (r: ThemeLayer)
        ensures
            r@ == empty_theme_layer(),
    {
        ThemeLayer {
            colors: ThemeColors::default(),
            ui: ThemeUiLayer {
                width: None,
                window_padding: None,
                container_padding: None,
                prompt_padding: None,
                greet_align: None,
                show_time: None,
                time_format: None,
                issue: None,
                greeting: None,
            },
        }
    }

    /// A copy.
    pub fn duplicate(&self) -> (r: ThemeLayer)
        ensures
            r@ == self@,
    {
        let u = &self.ui;
        ThemeLayer {
            colors: self.colors.duplicate(),
            ui: ThemeUiLayer {
                width: u.width,
                window_padding: u.window_padding,
                container_padding: u.container_padding,
                prompt_padding: u.prompt_padding,
                greet_align: u.greet_align,
                show_time: u.show_time,
                time_format: clone_opt(&u.time_format),
                issue: u.issue,
                greeting: clone_opt(&u.greeting),
            },
        }
    }
}

/// The outcome of reading one theme file.
#[derive(Debug)]
pub enum ThemeRead {
    /// No file at the path.
    NotFound { path: String },
    /// The file holds nothing but white space.
    Empty,
    /// The file could not be read or is not a theme.
    Failed(ThemeError),
    /// What the file sets.
    Parsed(ThemeLayer),
}

pub enum ThemeReadView {
    NotFound { path: Seq<char> },
    Empty,
    Failed(ThemeErrorView),
    Parsed(ThemeLayerView),
}

impl View for ThemeRead {
    type V = ThemeReadView;

    open spec fn view(&self) -> ThemeReadView {
        match self {
            ThemeRead::NotFound { path } => ThemeReadView::NotFound { path: path@ },
            ThemeRead::Empty => ThemeReadView::Empty,
            ThemeRead::Failed(e) => ThemeReadView::Failed(e@),
            ThemeRead::Parsed(t) => ThemeReadView::Parsed(t@),
        }
    }
}

/// Whether a read cannot make the color parser panic.
pub open spec fn read_parses_safely(r: ThemeReadView) -> bool {
    r matches ThemeReadView::Parsed(t) ==> colors_parse_safely(t.colors)
}

/// A value set by the upper layer wins; an unset one keeps the lower.
pub open spec fn overlay<T>(base: Option<T>, top: Option<T>) -> Option<T> {
    match top {
        Some(v) => Some(v),
        None => base,
    }
}

/// The value a layer sets, else the one below.
pub open spec fn set_or<T>(top: Option<T>, below: T) -> T {
    match top {
        Some(v) => v,
        None => below,
    }
}

/// One file's settings over the theme below: each key the file sets replaces the value
/// below; each key it leaves out keeps the value below.
pub open spec fn merge_theme(base: ThemeFileView, top: ThemeLayerView) -> ThemeFileView {
    ThemeFileView {
        colors: ThemeColorsView {
            container: overlay(base.colors.container, top.colors.container),
            time: overlay(base.colors.time, top.colors.time),
            text: overlay(base.colors.text, top.colors.text),
            border: overlay(base.colors.border, top.colors.border),
            title: overlay(base.colors.title, top.colors.title),
            greet: overlay(base.colors.greet, top.colors.greet),
            prompt: overlay(base.colors.prompt, top.colors.prompt),
            input: overlay(base.colors.input, top.colors.input),
            action: overlay(base.colors.action, top.colors.action),
            button: overlay(base.colors.button, top.colors.button),
        },
        ui: ThemeUiView {
            width: set_or(top.ui.width, base.ui.width),
            window_padding: set_or(top.ui.window_padding, base.ui.window_padding),
            container_padding: set_or(top.ui.container_padding, base.ui.container_padding),
            prompt_padding: set_or(top.ui.prompt_padding, base.ui.prompt_padding),
            greet_align: set_or(top.ui.greet_align, base.ui.greet_align),
            show_time: set_or(top.ui.show_time, base.ui.show_time),
            time_format: overlay(base.ui.time_format, top.ui.time_format),
            issue: set_or(top.ui.issue, base.ui.issue),
            greeting: overlay(base.ui.greeting, top.ui.greeting),
        },
    }
}

/// A file read on its own: the built-in theme with what the file sets.
pub open spec fn layer_alone(l: ThemeLayerView) -> ThemeFileView {
    merge_theme(default_theme(), l)
}

/// The layer a read contributes: a parsed file that validates on its own.
pub open spec fn accepted_layer(r: ThemeReadView) -> Option<ThemeLayerView> {
    match r {
        ThemeReadView::Parsed(t) => if theme_valid(layer_alone(t)) { Some(t) } else { None },
        _ => None,
    }
}

/// The built-in theme with each accepted layer merged over it, in order.
pub open spec fn merged_layers(reads: Seq<ThemeReadView>) -> ThemeFileView
    decreases reads.len(),
{
    if reads.len() == 0 {
        default_theme()
    } else {
        let below = merged_layers(reads.drop_last());
        match accepted_layer(reads.last()) {
            Some(t) => merge_theme(below, t),
            None => below,
        }
    }
}

/// The theme in effect: the merged layers where they validate, else the built-in theme.
pub open spec fn layered_theme(reads: Seq<ThemeReadView>) -> ThemeFileView {
    let m = merged_layers(reads);
    if theme_valid(m) {
        m
    } else {
        default_theme()
    }
}

/// The views of a list of reads.
pub open spec fn reads_view(reads: Seq<ThemeRead>) -> Seq<ThemeReadView> {
    reads.map_values(|r: ThemeRead| r@)
}

fn overlay_string(base: Option<String>, top: &Option<String>) -> (r: Option<String>)
    ensures
        r.deep_view() == overlay(base.deep_view(), top.deep_view()),
{
    match top {
        Some(v) => Some(v.clone()),
        None => base,
    }
}

fn set_copy<T: Copy>(top: Option<T>, below: T) -> (r: T)
    ensures
        r == set_or(top, below),
{
    match top {
        Some(v) => v,
        None => below,
    }
}

/// Merges what a file sets over `base`.
pub fn merge_layer(base: ThemeFile, top: &ThemeLayer) -> (r: ThemeFile)
    ensures
        r@ == merge_theme(base@, top@),
{
    let ThemeFile { colors: c, ui: u } = base;
    let t = &top.colors;
    let tu = &top.ui;
    ThemeFile {
        colors: ThemeColors {
            container: overlay_string(c.container, &t.container),
            time: overlay_string(c.time, &t.time),
            text: overlay_string(c.text, &t.text),
            border: overlay_string(c.border, &t.border),
            title: overlay_string(c.title, &t.title),
            greet: overlay_string(c.greet, &t.greet),
            prompt: overlay_string(c.prompt, &t.prompt),
            input: overlay_string(c.input, &t.input),
            action: overlay_string(c.action, &t.action),
            button: overlay_string(c.button, &t.button),
        },
        ui: ThemeUi {
            width: set_copy(tu.width, u.width),
            window_padding: set_copy(tu.window_padding, u.window_padding),
            container_padding: set_copy(tu.container_padding, u.container_padding),
            prompt_padding: set_copy(tu.prompt_padding, u.prompt_padding),
            greet_align: set_copy(tu.greet_align, u.greet_align),
            show_time: set_copy(tu.show_time, u.show_time),
            time_format: overlay_string(u.time_format, &tu.time_format),
            issue: set_copy(tu.issue, u.issue),
            greeting: overlay_string(u.greeting, &tu.greeting),
        },
    }
}

proof fn lemma_merge_safe(base: ThemeFileView, top: ThemeLayerView)
    requires
        colors_parse_safely(base.colors),
        colors_parse_safely(top.colors),
    ensures
        colors_parse_safely(merge_theme(base, top).colors),
{
}

/// The layer a read contributes, or why it contributes none: a missing or empty
/// file contributes nothing, a parsed file contributes what it sets once it validates
/// on its own (over the built-in theme).
pub fn load_if_exists(read: &ThemeRead) -> (r: Result<Option<ThemeLayer>, ThemeError>)
    requires
        read_parses_safely(read@),
    ensures
        match read@ {
            ThemeReadView::NotFound { .. } | ThemeReadView::Empty => r matches Ok(None),
            ThemeReadView::Failed(e) => r matches Err(x) && x@ == e,
            ThemeReadView::Parsed(t) => match theme_check(layer_alone(t), format_rejected(layer_alone(t))) {
                Ok(()) => r matches Ok(Some(x)) && x@ == t,
                Err(e) => r matches Err(x) && x@ == e,
            },
        },
{
    match read {
        ThemeRead::NotFound { .. } | ThemeRead::Empty => Ok(None),
        ThemeRead::Failed(e) => Err(e.duplicate()),
        ThemeRead::Parsed(t) => {
            let alone = merge_layer(ThemeFile::default(), t);
            proof {
                lemma_merge_safe(default_theme(), t@);
            }
            match alone.validate() {
                Ok(()) => Ok(Some(t.duplicate())),
                Err(e) => Err(e),
            }
        },
    }
}

impl ThemeError {
    /// A copy.
    pub fn duplicate(&self) -> (r: ThemeError)
        ensures
            r@ == self@,
    {
        match self {
            ThemeError::NotFound { path } => ThemeError::NotFound { path: path.clone() },
            ThemeError::Io(m) => ThemeError::Io(m.clone()),
            ThemeError::TomlDeserialize(m) => ThemeError::TomlDeserialize(m.clone()),
            ThemeError::InvalidColor { name, value } => ThemeError::InvalidColor {
                name: name.clone(),
                value: value.clone(),
            },
            ThemeError::Validation(m) => ThemeError::Validation(m.clone()),
        }
    }
}

proof fn lemma_merged_safe(reads: Seq<ThemeReadView>)
    requires
        forall|i: int| 0 <= i < reads.len() ==> read_parses_safely(#[trigger] reads[i]),
    ensures
        colors_parse_safely(merged_layers(reads).colors),
    decreases reads.len(),
{
    if reads.len() > 0 {
        lemma_merged_safe(reads.drop_last());
        if let Some(t) = accepted_layer(reads.last()) {
            assert(read_parses_safely(reads[reads.len() - 1]));
            lemma_merge_safe(merged_layers(reads.drop_last()), t);
        }
    }
}

/// Merges the readable, valid theme files over the built-in theme, in order: each key
/// a file sets replaces what the files before it (or the built-in theme) gave.
///
/// Missing, unreadable, invalid or empty files are skipped; where the merged
/// result does not validate, the built-in theme is used. The result is always valid.
pub fn load_layered(reads: &Vec<ThemeRead>) -> (r: ThemeFile)
    requires
        forall|i: int| 0 <= i < reads@.len() ==> read_parses_safely(#[trigger] reads@[i]@),
    ensures
        r@ == layered_theme(reads_view(reads@)),
{
    let ghost rv = reads_view(reads@);
    let mut value = ThemeFile::default();
    let mut i: usize = 0;
    while i < reads.len()
        invariant
            i <= reads@.len(),
            rv == reads_view(reads@),
            forall|j: int| 0 <= j < reads@.len() ==> read_parses_safely(#[trigger] reads@[j]@),
            value@ == merged_layers(rv.take(i as int)),
            colors_parse_safely(value@.colors),
        decreases reads.len() - i,
    {
        assert(rv.take(i + 1).drop_last() =~= rv.take(i as int));
        assert(rv.take(i + 1).last() == reads@[i as int]@);
        proof {
            lemma_merged_safe(rv.take(i + 1));
            assert forall|j: int| 0 <= j < rv.take(i + 1).len() implies read_parses_safely(
                #[trigger] rv.take(i + 1)[j],
            ) by {
                assert(rv.take(i + 1)[j] == reads@[j]@);
            }
        }
        match load_if_exists(&reads[i]) {
            Ok(Some(layer)) => {
                value = merge_layer(value, &layer);
            },
            _ => {},
        }
        i = i + 1;
    }
    assert(rv.take(reads@.len() as int) =~= rv);
    match value.validate() {
        Ok(()) => value,
        Err(_) => ThemeFile::default(),
    }
}

// ---------------------------------------------------------------- UI theme

/// `acc` with the entry `key=value` appended, separated by `;`, where the role has a color.
pub open spec fn add_entry(acc: Seq<char>, key: Seq<char>, v: Option<Seq<char>>) -> Seq<char> {
    match v {
        None => acc,
        Some(x) => (if acc.len() == 0 { acc } else { acc.push(';') }) + key + seq!['='] + x,
    }
}

/// The UI theme's entries for the colored roles, in role order.
pub open spec fn theme_spec(c: ThemeColorsView) -> Seq<char> {
    let s = add_entry(seq![], "container"@, c.container);
    let s = add_entry(s, "time"@, c.time);
    let s = add_entry(s, "text"@, c.text);
    let s = add_entry(s, "border"@, c.border);
    let s = add_entry(s, "title"@, c.title);
    let s = add_entry(s, "greet"@, c.greet);
    let s = add_entry(s, "prompt"@, c.prompt);
    let s = add_entry(s, "input"@, c.input);
    let s = add_entry(s, "action"@, c.action);
    add_entry(s, "button"@, c.button)
}

fn push_entry(spec: &mut String, key: &str, value: &Option<String>)
    ensures
        final(spec)@ == add_entry(old(spec)@, key@, value.deep_view()),
{
    if let Some(v) = value {
        if spec.as_str().unicode_len() > 0 {
            push_char(spec, ';');
        }
        spec.append(key);
        push_char(spec, '=');
        spec.append(v.as_str());
    }
}

impl ThemeFile {
    /// Builds the UI theme from the semantic color roles.
    pub fn to_ui_theme(&self) -> (r: Result<Theme, ThemeError>)
        ensures
            r matches Ok(t) && t.spec@ == theme_spec(self@.colors),
    {
        let mut spec = String::new();
        let c = &self.colors;
        push_entry(&mut spec, "container", &c.container);
        push_entry(&mut spec, "time", &c.time);
        push_entry(&mut spec, "text", &c.text);
        push_entry(&mut spec, "border", &c.border);
        push_entry(&mut spec, "title", &c.title);
        push_entry(&mut spec, "greet", &c.greet);
        push_entry(&mut spec, "prompt", &c.prompt);
        push_entry(&mut spec, "input", &c.input);
        push_entry(&mut spec, "action", &c.action);
        push_entry(&mut spec, "button", &c.button);
        Ok(Theme { spec })
    }
}



/// A `role=color` entry of a UI theme, split at its first `=`; `None` for a piece
/// without one.
pub open spec fn theme_entry(piece: Seq<char>) -> Option<(Seq<char>, Seq<char>)> {
    match first_index(piece, '=') {
        Some(i) => Some((piece.take(i), piece.skip(i + 1))),
        None => None,
    }
}

/// The entries of the pieces of a UI theme, in order.
pub open spec fn theme_entries_of(pieces: Seq<Seq<char>>) -> Seq<(Seq<char>, Seq<char>)>
    decreases pieces.len(),
{
    if pieces.len() == 0 {
        Seq::empty()
    } else {
        theme_entries_of(pieces.drop_last()) + match theme_entry(pieces.last()) {
            Some(e) => seq![e],
            None => Seq::empty(),
        }
    }
}

/// The view of a list of entries.
pub open spec fn entries_view(v: Seq<(String, String)>) -> Seq<(Seq<char>, Seq<char>)> {
    v.map_values(|e: (String, String)| (e.0@, e.1@))
}

impl Theme {
    /// The `role=color` entries of the theme, in order.
    pub fn entries(&self) -> (r: Vec<(String, String)>)
        ensures
            entries_view(r@) == theme_entries_of(split_on(self.spec@, ';')),
    {
        let pieces = split_str(self.spec.as_str(), ';');
        let ghost pv = pieces.deep_view();
        let mut r: Vec<(String, String)> = Vec::new();
        let mut i: usize = 0;
        assert(pv.take(0) =~= Seq::<Seq<char>>::empty());
        while i < pieces.len()
            invariant
                i <= pieces@.len(),
                pv == pieces.deep_view(),
                entries_view(r@) == theme_entries_of(pv.take(i as int)),
            decreases pieces.len() - i,
        {
            let chars = chars_of(pieces[i].as_str());
            assert(chars@ == pv[i as int]);
            assert(pv.take(i + 1).drop_last() =~= pv.take(i as int));
            assert(pv.take(i + 1).last() == pv[i as int]);
            let ghost before = entries_view(r@);
            match find_char(&chars, '=') {
                Some(k) => {
                    let role = string_of_range(&chars, 0, k);
                    let value = string_of_range(&chars, k + 1, chars.len());
                    assert(chars@.take(k as int) =~= chars@.subrange(0, k as int));
                    assert(chars@.skip(k + 1) =~= chars@.subrange(k + 1, chars@.len() as int));
                    r.push((role, value));
                    assert(entries_view(r@) =~= before.push((chars@.take(k as int), chars@.skip(k + 1))));
                    assert(entries_view(r@) =~= theme_entries_of(pv.take(i + 1)));
                },
                None => {
                    assert(entries_view(r@) =~= theme_entries_of(pv.take(i + 1)));
                },
            }
            i = i + 1;
        }
        assert(pv.take(i as int) =~= pv);
        r
    }
}

// ---------------------------------------------------------------- laws

proof fn lemma_skipped_read_merged(reads: Seq<ThemeReadView>, i: int)
    requires
        0 <= i < reads.len(),
        accepted_layer(reads[i]) is None,
    ensures
        merged_layers(reads) == merged_layers(reads.remove(i)),
    decreases reads.len(),
{
    if i == reads.len() - 1 {
        assert(reads.remove(i) =~= reads.drop_last());
    } else {
        lemma_skipped_read_merged(reads.drop_last(), i);
        assert(reads.remove(i).drop_last() =~= reads.drop_last().remove(i));
        assert(reads.remove(i).last() == reads.last());
    }
}

/// The theme in effect always validates.
pub proof fn lemma_theme_always_valid(reads: Seq<ThemeReadView>)
    ensures
        theme_valid(layered_theme(reads)),
{
    assert(theme_valid(default_theme()));
}

/// A file that contributes no layer (missing, empty, unreadable, or invalid) is skipped:
/// the theme in effect is the one without it.
pub proof fn lemma_skipped_theme_file(reads: Seq<ThemeReadView>, i: int)
    requires
        0 <= i < reads.len(),
        accepted_layer(reads[i]) is None,
    ensures
        layered_theme(reads) == layered_theme(reads.remove(i)),
{
    lemma_skipped_read_merged(reads, i);
}

/// Where no file contributes a layer, the built-in theme is in effect.
pub proof fn lemma_no_theme_files(reads: Seq<ThemeReadView>)
    requires
        forall|i: int| 0 <= i < reads.len() ==> accepted_layer(#[trigger] reads[i]) is None,
    ensures
        layered_theme(reads) == default_theme(),
    decreases reads.len(),
{
    if reads.len() > 0 {
        lemma_no_theme_files(reads.drop_last());
        assert(accepted_layer(reads[reads.len() - 1]) is None);
    }
    assert(theme_valid(default_theme()));
}

/// Layers merge in order, a later one over what the earlier ones give.
pub proof fn lemma_later_theme_file_wins(reads: Seq<ThemeReadView>, top: ThemeLayerView)
    requires
        theme_valid(layer_alone(top)),
    ensures
        merged_layers(reads.push(ThemeReadView::Parsed(top))) == merge_theme(merged_layers(reads), top),
{
    assert(reads.push(ThemeReadView::Parsed(top)).drop_last() =~= reads);
}

/// The value of a key after the layers: what the last accepted layer that sets it says,
/// or `default` where none sets it.
pub open spec fn set_by_layers<T>(
    reads: Seq<ThemeReadView>,
    key: spec_fn(ThemeLayerView) -> Option<T>,
    default: T,
) -> T
    decreases reads.len(),
{
    if reads.len() == 0 {
        default
    } else {
        match accepted_layer(reads.last()) {
            Some(l) => match key(l) {
                Some(v) => v,
                None => set_by_layers(reads.drop_last(), key, default),
            },
            None => set_by_layers(reads.drop_last(), key, default),
        }
    }
}

/// An optional key as a setting: set (to `Some`) where the file carries it.
pub open spec fn opt_set<T>(v: Option<T>) -> Option<Option<T>> {
    match v {
        Some(x) => Some(Some(x)),
        None => None,
    }
}

/// Each key of the merged theme comes from the last accepted file that sets it; a key
/// no file sets keeps its built-in value. A file that leaves a key out changes nothing
/// about it.
pub proof fn lemma_theme_keys_from_last_setter(reads: Seq<ThemeReadView>)
    ensures
        ({
            let m = merged_layers(reads);
            let d = default_theme();
            &&& m.ui.width == set_by_layers(reads, |l: ThemeLayerView| l.ui.width, d.ui.width)
            &&& m.ui.window_padding == set_by_layers(
                reads,
                |l: ThemeLayerView| l.ui.window_padding,
                d.ui.window_padding,
            )
            &&& m.ui.container_padding == set_by_layers(
                reads,
                |l: ThemeLayerView| l.ui.container_padding,
                d.ui.container_padding,
            )
            &&& m.ui.prompt_padding == set_by_layers(
                reads,
                |l: ThemeLayerView| l.ui.prompt_padding,
                d.ui.prompt_padding,
            )
            &&& m.ui.greet_align == set_by_layers(reads, |l: ThemeLayerView| l.ui.greet_align, d.ui.greet_align)
            &&& m.ui.show_time == set_by_layers(reads, |l: ThemeLayerView| l.ui.show_time, d.ui.show_time)
            &&& m.ui.time_format == set_by_layers(
                reads,
                |l: ThemeLayerView| opt_set(l.ui.time_format),
                d.ui.time_format,
            )
            &&& m.ui.issue == set_by_layers(reads, |l: ThemeLayerView| l.ui.issue, d.ui.issue)
            &&& m.ui.greeting == set_by_layers(reads, |l: ThemeLayerView| opt_set(l.ui.greeting), d.ui.greeting)
            &&& m.colors.container == set_by_layers(
                reads,
                |l: ThemeLayerView| opt_set(l.colors.container),
                d.colors.container,
            )
            &&& m.colors.time == set_by_layers(reads, |l: ThemeLayerView| opt_set(l.colors.time), d.colors.time)
            &&& m.colors.text == set_by_layers(reads, |l: ThemeLayerView| opt_set(l.colors.text), d.colors.text)
            &&& m.colors.border == set_by_layers(reads, |l: ThemeLayerView| opt_set(l.colors.border), d.colors.border)
            &&& m.colors.title == set_by_layers(reads, |l: ThemeLayerView| opt_set(l.colors.title), d.colors.title)
            &&& m.colors.greet == set_by_layers(reads, |l: ThemeLayerView| opt_set(l.colors.greet), d.colors.greet)
            &&& m.colors.prompt == set_by_layers(reads, |l: ThemeLayerView| opt_set(l.colors.prompt), d.colors.prompt)
            &&& m.colors.input == set_by_layers(reads, |l: ThemeLayerView| opt_set(l.colors.input), d.colors.input)
            &&& m.colors.action == set_by_layers(reads, |l: ThemeLayerView| opt_set(l.colors.action), d.colors.action)
            &&& m.colors.button == set_by_layers(reads, |l: ThemeLayerView| opt_set(l.colors.button), d.colors.button)
        }),
    decreases reads.len(),
{
    if reads.len() > 0 {
        lemma_theme_keys_from_last_setter(reads.drop_last());
    }
}

} // verus!
