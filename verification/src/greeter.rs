//! The greeter's state: what is being asked, what has been typed, and how it is shown.

use vstd::prelude::*;
use crate::masked::{zeroize_opt_string, zeroize_string, MaskedString, MaskedStringView};
use crate::menu::{Menu, MenuView};
use crate::power::{lemma_power_runs_configured_command, power_argv, Power, PowerOption, PowerView};
use crate::sessions::{Session, SessionSource, SessionSourceView, SessionType, SessionView};
use crate::text::{clone_opt, clone_strings, concat, owned};
use crate::config::SecretDisplayMode;
use crate::settings::{SessionKind, Settings, SettingsView, paths_view};
pub use crate::theme::GreetAlign;

verus! {

broadcast use vstd::string::group_string_axioms;

/// How the greeter ended.
#[derive(Debug, Copy, Clone, PartialEq, Eq)]
pub enum AuthStatus {
    Success,
    Failure,
    Cancel,
}

impl AuthStatus {
    /// The status's name.
    pub fn name(&self) -> (r: &'static str)
        ensures
            r@ == match *self {
                AuthStatus::Success => "Success"@,
                AuthStatus::Failure => "Failure"@,
                AuthStatus::Cancel => "Cancel"@,
            },
    {
        match self {
            AuthStatus::Success => "Success",
            AuthStatus::Failure => "Failure",
            AuthStatus::Cancel => "Cancel",
        }
    }
}

/// The screen shown, which decides what keys do.
#[derive(Debug, Copy, Clone, PartialEq, Eq)]
pub enum Mode {
    Username,
    Password,
    Action,
    Users,
    Command,
    Sessions,
    Power,
    Processing,
}

impl Mode {
    /// Asking for the username.
    pub fn default() -> (r: Mode)
        ensures
            r == Mode::Username,
    {
        Mode::Username
    }
}

/// How a secret answer is shown while the user types it.
#[derive(Debug, Clone, Copy, PartialEq, Eq)]
pub enum SecretDisplay {
    /// Nothing is shown.
    Hidden,
    /// The answer is shown as typed.
    Plain,
    /// Each character is replaced by this one.
    Masked(char),
}

impl SecretDisplay {
    /// Masked with `*`.
    pub fn default() -> (r: SecretDisplay)
        ensures
            r == SecretDisplay::Masked('*'),
    {
        SecretDisplay::Masked('*')
    }

    /// Whether anything is shown while typing.
    pub fn shows_input(&self) -> (r: bool)
        ensures
            r == !(*self is Hidden),
    {
        !matches!(self, SecretDisplay::Hidden)
    }

    /// Whether anything is shown while typing.
    pub fn show(&self) -> (r: bool)
        ensures
            r == !(*self is Hidden),
    {
        self.shows_input()
    }
}

/// The greeter's state.
#[derive(Debug)]
pub struct Greeter {
    pub debug: bool,
    pub logfile: String,
    pub width: u16,
    pub window_padding: u16,
    pub container_padding: u16,
    pub prompt_padding: u16,
    pub greet_align: GreetAlign,
    /// Path of greetd's socket.
    pub socket: String,
    /// Current mode, which decides what actions are permitted.
    pub mode: Mode,
    /// Mode to return to when leaving the current one.
    pub previous_mode: Mode,
    /// Offset of the cursor from the end of the edited value.
    pub cursor_offset: i16,
    /// Buffer saved while a transient screen uses `buffer`.
    pub previous_buffer: Option<String>,
    /// Editing buffer of the current mode.
    pub buffer: String,
    /// How the session to start is decided.
    pub session_source: SessionSource,
    /// Directories searched for session files.
    pub session_paths: Vec<(String, SessionType)>,
    /// Menu for session selection.
    pub sessions: Menu<Session>,
    /// Command prepended to non-X11 sessions.
    pub session_wrapper: Option<String>,
    /// Command prepended to X11 sessions.
    pub xsession_wrapper: Option<String>,
    /// Current username, shown as the full name where known.
    pub username: MaskedString,
    /// Question greetd asked.
    pub prompt: Option<String>,
    /// Whether the answer being typed is secret.
    pub asking_for_secret: bool,
    /// How secrets are shown.
    pub secret_display: SecretDisplay,
    /// Whether the clock is shown.
    pub time: bool,
    pub time_format: Option<String>,
    /// Greeting shown above the prompt.
    pub greeting: Option<String>,
    /// Message of the current transaction.
    pub message: Option<String>,
    /// Menu for power options.
    pub powers: Menu<Power>,
    /// Whether power commands run under `setsid`.
    pub power_setsid: bool,
    pub kb_command: u8,
    pub kb_sessions: u8,
    pub kb_power: u8,
    /// Waiting for greetd.
    pub working: bool,
    pub done: bool,
    /// How the greeter is to exit, once it should.
    pub exit: Option<AuthStatus>,
}

pub struct GreeterView {
    pub debug: bool,
    pub logfile: Seq<char>,
    pub width: u16,
    pub window_padding: u16,
    pub container_padding: u16,
    pub prompt_padding: u16,
    pub greet_align: GreetAlign,
    pub socket: Seq<char>,
    pub mode: Mode,
    pub previous_mode: Mode,
    pub cursor_offset: i16,
    pub previous_buffer: Option<Seq<char>>,
    pub buffer: Seq<char>,
    pub session_source: SessionSourceView,
    pub session_paths: Seq<(Seq<char>, SessionType)>,
    pub sessions: MenuView<SessionView>,
    pub session_wrapper: Option<Seq<char>>,
    pub xsession_wrapper: Option<Seq<char>>,
    pub username: MaskedStringView,
    pub prompt: Option<Seq<char>>,
    pub asking_for_secret: bool,
    pub secret_display: SecretDisplay,
    pub time: bool,
    pub time_format: Option<Seq<char>>,
    pub greeting: Option<Seq<char>>,
    pub message: Option<Seq<char>>,
    pub powers: MenuView<PowerView>,
    pub power_setsid: bool,
    pub kb_command: u8,
    pub kb_sessions: u8,
    pub kb_power: u8,
    pub working: bool,
    pub done: bool,
    pub exit: Option<AuthStatus>,
}

/// The view of a list of session directories.
pub open spec fn session_paths_view(v: Seq<(String, SessionType)>) -> Seq<(Seq<char>, SessionType)> {
    v.map_values(|p: (String, SessionType)| (p.0@, p.1))
}

impl View for Greeter {
    type V = GreeterView;

    open spec fn view(&self) -> GreeterView {
        GreeterView {
            debug: self.debug,
            logfile: self.logfile@,
            width: self.width,
            window_padding: self.window_padding,
            container_padding: self.container_padding,
            prompt_padding: self.prompt_padding,
            greet_align: self.greet_align,
            socket: self.socket@,
            mode: self.mode,
            previous_mode: self.previous_mode,
            cursor_offset: self.cursor_offset,
            previous_buffer: self.previous_buffer.deep_view(),
            buffer: self.buffer@,
            session_source: self.session_source@,
            session_paths: session_paths_view(self.session_paths@),
            sessions: self.sessions@,
            session_wrapper: self.session_wrapper.deep_view(),
            xsession_wrapper: self.xsession_wrapper.deep_view(),
            username: self.username@,
            prompt: self.prompt.deep_view(),
            asking_for_secret: self.asking_for_secret,
            secret_display: self.secret_display,
            time: self.time,
            time_format: self.time_format.deep_view(),
            greeting: self.greeting.deep_view(),
            message: self.message.deep_view(),
            powers: self.powers@,
            power_setsid: self.power_setsid,
            kb_command: self.kb_command,
            kb_sessions: self.kb_sessions,
            kb_power: self.kb_power,
            working: self.working,
            done: self.done,
            exit: self.exit,
        }
    }
}

/// The state a greeter starts in.
pub open spec fn initial_greeter() -> GreeterView {
    GreeterView {
        debug: false,
        logfile: Seq::empty(),
        width: 80,
        window_padding: 0,
        container_padding: 2,
        prompt_padding: 1,
        greet_align: GreetAlign::Center,
        socket: Seq::empty(),
        mode: Mode::Username,
        previous_mode: Mode::Username,
        cursor_offset: 0,
        previous_buffer: None,
        buffer: Seq::empty(),
        session_source: SessionSourceView::Unset,
        session_paths: Seq::empty(),
        sessions: MenuView { title: Seq::empty(), options: Seq::empty(), selected: 0 },
        session_wrapper: None,
        xsession_wrapper: None,
        username: MaskedStringView { value: Seq::empty(), mask: None },
        prompt: None,
        asking_for_secret: false,
        secret_display: SecretDisplay::Masked('*'),
        time: false,
        time_format: None,
        greeting: None,
        message: None,
        powers: MenuView { title: Seq::empty(), options: Seq::empty(), selected: 0 },
        power_setsid: false,
        kb_command: 2,
        kb_sessions: 3,
        kb_power: 12,
        working: false,
        done: false,
        exit: None,
    }
}

/// The prompt as stored: with a trailing space added where it has none.
pub open spec fn prompt_text(p: Seq<char>) -> Seq<char> {
    if p.len() > 0 && p.last() == ' ' {
        p
    } else {
        p.push(' ')
    }
}

/// The state after scrubbing: the edit buffer and prompt go, the username too
/// unless `soft`, the message too where asked.
pub open spec fn scrubbed(g: GreeterView, scrub_message: bool, soft: bool) -> GreeterView {
    GreeterView {
        buffer: Seq::empty(),
        prompt: None,
        username: if soft { g.username } else { MaskedStringView { value: Seq::empty(), mask: None } },
        message: if scrub_message { None } else { g.message },
        ..g
    }
}

/// The state after a reset: back to asking for the password (`soft`, after a
/// failed attempt) or the username, no longer waiting, with the transient data scrubbed.
pub open spec fn reset_state(g: GreeterView, soft: bool) -> GreeterView {
    let m = if soft { Mode::Password } else { Mode::Username };
    scrubbed(GreeterView { mode: m, previous_mode: m, working: false, done: false, ..g }, false, soft)
}

impl Greeter {
    /// The state a greeter starts in.
    pub fn default() -> (r: Greeter)
        ensures
            r@ == initial_greeter(),
    {
        let r = Greeter {
            debug: false,
            logfile: String::new(),
            width: 80,
            window_padding: 0,
            container_padding: 2,
            prompt_padding: 1,
            greet_align: GreetAlign::default(),
            socket: String::new(),
            mode: Mode::default(),
            previous_mode: Mode::default(),
            cursor_offset: 0,
            previous_buffer: None,
            buffer: String::new(),
            session_source: SessionSource::Unset,
            session_paths: Vec::new(),
            sessions: Menu::default(),
            session_wrapper: None,
            xsession_wrapper: None,
            username: MaskedString::default(),
            prompt: None,
            asking_for_secret: false,
            secret_display: SecretDisplay::default(),
            time: false,
            time_format: None,
            greeting: None,
            message: None,
            powers: Menu::default(),
            power_setsid: false,
            kb_command: 2,
            kb_sessions: 3,
            kb_power: 12,
            working: false,
            done: false,
            exit: None,
        };
        assert(r@.session_paths =~= Seq::empty());
        r
    }

    pub fn width(&self) -> (r: u16)
        ensures
            r == self.width,
    {
        self.width
    }

    pub fn window_padding(&self) -> (r: u16)
        ensures
            r == self.window_padding,
    {
        self.window_padding
    }

    pub fn container_padding(&self) -> (r: u16)
        ensures
            r == self.container_padding,
    {
        self.container_padding
    }

    pub fn prompt_padding(&self) -> (r: u16)
        ensures
            r == self.prompt_padding,
    {
        self.prompt_padding
    }

    pub fn greet_align(&self) -> (r: GreetAlign)
        ensures
            r == self.greet_align,
    {
        self.greet_align
    }

    /// Sets the prompt, ending it with a space.
    pub fn set_prompt(&mut self, prompt: &str)
        ensures
            final(self)@ == (GreeterView { prompt: Some(prompt_text(prompt@)), ..old(self)@ }),
    {
        let n = prompt.unicode_len();
        self.prompt = if n > 0 && prompt.get_char(n - 1) == ' ' {
            Some(owned(prompt))
        } else {
            Some(concat(prompt, " "))
        };
        proof {
            reveal_strlit(" ");
            assert(prompt_text(prompt@) =~= if n > 0 && prompt@.last() == ' ' { prompt@ } else { prompt@ + " "@ });
        }
    }

    /// Removes the prompt.
    pub fn remove_prompt(&mut self)
        ensures
            final(self)@ == (GreeterView { prompt: None, ..old(self)@ }),
    {
        self.prompt = None;
    }

    /// The width of the prompt, in characters, where input starts after it.
    pub fn prompt_width(&self) -> (r: usize)
        ensures
            r == match self@.prompt {
                None => 0,
                Some(p) => p.len(),
            },
    {
        match &self.prompt {
            None => 0,
            Some(prompt) => prompt.as_str().unicode_len(),
        }
    }

    /// Wipes what was typed and asked; keeps the username where `soft` (a wrong
    /// password gets another try), and keeps the message unless `scrub_message`.
    pub fn scrub(&mut self, scrub_message: bool, soft: bool)
        ensures
            final(self)@ == scrubbed(old(self)@, scrub_message, soft),
    {
        zeroize_string(&mut self.buffer);
        zeroize_opt_string(&mut self.prompt);
        if !soft {
            self.username.zeroize();
        }
        if scrub_message {
            zeroize_opt_string(&mut self.message);
        }
    }

    /// Resets the state to ask again: for the password where `soft`, else from
    /// the username. Reconnecting to greetd is left to the caller.
    pub fn reset(&mut self, soft: bool)
        ensures
            final(self)@ == reset_state(old(self)@, soft),
    {
        if soft {
            self.mode = Mode::Password;
            self.previous_mode = Mode::Password;
        } else {
            self.mode = Mode::Username;
            self.previous_mode = Mode::Username;
        }
        self.working = false;
        self.done = false;
        self.scrub(false, soft);
    }

    /// Records how the greeter is to exit; tells whether greetd's session must be
    /// cancelled first (for every status but success).
    pub fn record_exit(&mut self, status: AuthStatus) -> (cancel: bool)
        ensures
            final(self)@ == (GreeterView { exit: Some(status), ..old(self)@ }),
            cancel == (status != AuthStatus::Success),
    {
        self.exit = Some(status);
        !matches!(status, AuthStatus::Success)
    }
}

// ---------------------------------------------------------------- settings

/// The session type of a configured session directory.
pub open spec fn kind_type(k: SessionKind) -> SessionType {
    match k {
        SessionKind::Wayland => SessionType::Wayland,
        SessionKind::X11 => SessionType::X11,
    }
}

/// How secrets are shown under the settings: `[secrets].display`, masked with
/// `[secrets].mask_char`.
pub open spec fn secret_display_of(s: SettingsView) -> SecretDisplay {
    match s.display {
        SecretDisplayMode::Hidden => SecretDisplay::Hidden,
        SecretDisplayMode::Plain => SecretDisplay::Plain,
        SecretDisplayMode::Masked => SecretDisplay::Masked(s.mask_char),
    }
}

/// The session source the settings impose: the configured command, with the
/// configured environment where it is not empty; else the source stays.
pub open spec fn configured_source(s: SettingsView, current: SessionSourceView) -> SessionSourceView {
    match s.cmd {
        Some(c) => SessionSourceView::DefaultCommand(
            c,
            if s.env.len() == 0 { None } else { Some(s.env) },
        ),
        None => current,
    }
}

/// The entries of the power menu under the settings.
pub open spec fn power_entries(s: SettingsView) -> Seq<PowerView> {
    seq![
        PowerView { action: PowerOption::Shutdown, label: "Shut down"@, command: s.shutdown },
        PowerView { action: PowerOption::Reboot, label: "Reboot"@, command: s.reboot },
    ]
}

/// The greeter with the settings applied; `issue` is the expanded `/etc/issue`,
/// used as the greeting where the settings ask for it.
pub open spec fn applied(g: GreeterView, s: SettingsView, issue: Option<Seq<char>>) -> GreeterView {
    GreeterView {
        debug: s.debug,
        logfile: s.log_file,
        time: s.ui.show_time,
        time_format: s.ui.time_format,
        width: s.ui.width,
        window_padding: s.ui.window_padding,
        container_padding: if s.ui.container_padding == u16::MAX {
            u16::MAX
        } else {
            (s.ui.container_padding + 1) as u16
        },
        prompt_padding: s.ui.prompt_padding,
        greet_align: s.ui.greet_align,
        secret_display: secret_display_of(s),
        greeting: if s.ui.issue { issue } else { s.ui.greeting },
        session_paths: s.session_paths.map_values(
            |p: (Seq<char>, SessionKind)| (p.0, kind_type(p.1)),
        ),
        session_wrapper: s.session_wrapper,
        xsession_wrapper: s.xsession_wrapper,
        session_source: configured_source(s, g.session_source),
        powers: MenuView { options: power_entries(s), ..g.powers },
        power_setsid: s.setsid,
        kb_command: s.kb_command,
        kb_sessions: s.kb_sessions,
        kb_power: s.kb_power,
        ..g
    }
}

/// The greeter with the sessions found installed in its menu: the first is
/// selected when nothing else chose the session to start.
pub open spec fn with_sessions(g: GreeterView, sessions: Seq<SessionView>) -> GreeterView {
    GreeterView {
        session_source: if g.session_source is Unset && sessions.len() > 0 {
            SessionSourceView::Session(0)
        } else {
            g.session_source
        },
        sessions: MenuView { title: "Change session"@, options: sessions, selected: 0 },
        ..g
    }
}

/// A greeter built from settings, before sessions are installed.
pub open spec fn greeter_from(s: SettingsView, issue: Option<Seq<char>>) -> GreeterView {
    let g = initial_greeter();
    applied(GreeterView { powers: MenuView { title: "Power options"@, ..g.powers }, ..g }, s, issue)
}

impl Greeter {
    /// A greeter with the settings applied.
    pub fn new(settings: &Settings, issue: Option<String>) -> (r: Greeter)
        ensures
            r@ == greeter_from(settings@, issue.deep_view()),
    {
        let mut g = Greeter::default();
        g.powers.title = owned("Power options");
        g.apply_settings(settings, issue);
        g
    }

    /// Applies the settings; `issue` is the expanded `/etc/issue`, the greeting
    /// where the settings ask for it.
    pub fn apply_settings(&mut self, settings: &Settings, issue: Option<String>)
        ensures
            final(self)@ == applied(old(self)@, settings@, issue.deep_view()),
    {
        let ghost g0 = self@;
        self.debug = settings.logging.debug;
        self.logfile = settings.logging.file.clone();
        self.time = settings.ui.show_time;
        self.time_format = clone_opt(&settings.ui.time_format);
        self.width = settings.ui.width;
        self.window_padding = settings.ui.window_padding;
        self.container_padding = settings.ui.container_padding.saturating_add(1);
        self.prompt_padding = settings.ui.prompt_padding;
        self.greet_align = settings.ui.greet_align;
        self.secret_display = match settings.secrets.display {
            SecretDisplayMode::Hidden => SecretDisplay::Hidden,
            SecretDisplayMode::Plain => SecretDisplay::Plain,
            SecretDisplayMode::Masked => SecretDisplay::Masked(settings.secrets.mask_char),
        };
        self.greeting = if settings.ui.issue {
            issue
        } else {
            clone_opt(&settings.ui.greeting)
        };
        let mut paths: Vec<(String, SessionType)> = Vec::new();
        let mut i: usize = 0;
        while i < settings.session.session_paths.len()
            invariant
                i <= settings.session.session_paths@.len(),
                paths@.len() == i,
                forall|k: int| #![trigger paths@[k]] 0 <= k < i ==> paths@[k].0@
                    == settings.session.session_paths@[k].0@ && paths@[k].1 == kind_type(
                    settings.session.session_paths@[k].1,
                ),
            decreases settings.session.session_paths.len() - i,
        {
            let (path, kind) = &settings.session.session_paths[i];
            let t = match kind {
                SessionKind::Wayland => SessionType::Wayland,
                SessionKind::X11 => SessionType::X11,
            };
            let ghost prev = paths@;
            paths.push((path.clone(), t));
            assert(forall|k: int| 0 <= k < i ==> paths@[k] == prev[k]);
            i = i + 1;
        }
        assert(session_paths_view(paths@) =~= settings@.session_paths.map_values(
            |p: (Seq<char>, SessionKind)| (p.0, kind_type(p.1)),
        ));
        self.session_paths = paths;
        self.session_wrapper = clone_opt(&settings.session.session_wrapper);
        self.xsession_wrapper = clone_opt(&settings.session.xsession_wrapper);
        if let Some(command) = &settings.session.cmd {
            let envs = if settings.session.env.len() == 0 {
                None
            } else {
                Some(clone_strings(&settings.session.env))
            };
            self.session_source = SessionSource::DefaultCommand(command.clone(), envs);
        }
        let mut options: Vec<Power> = Vec::new();
        options.push(
            Power {
                action: PowerOption::Shutdown,
                label: owned("Shut down"),
                command: clone_opt(&settings.power.shutdown),
            },
        );
        options.push(
            Power {
                action: PowerOption::Reboot,
                label: owned("Reboot"),
                command: clone_opt(&settings.power.reboot),
            },
        );
        self.powers.options = options;
        assert(self@.powers.options =~= power_entries(settings@));
        self.power_setsid = settings.power.setsid;
        self.kb_command = settings.keybindings.command;
        self.kb_sessions = settings.keybindings.sessions;
        self.kb_power = settings.keybindings.power;
    }

    /// Installs the sessions found in the session menu.
    pub fn install_sessions(&mut self, sessions: Vec<Session>)
        ensures
            final(self)@ == with_sessions(old(self)@, sessions@.map_values(|s: Session| s@)),
    {
        if matches!(self.session_source, SessionSource::Unset) && sessions.len() > 0 {
            self.session_source = SessionSource::Session(0);
        }
        self.sessions = Menu { title: owned("Change session"), options: sessions, selected: 0 };
    }
}


// ---------------------------------------------------------------- display

/// What the answer field shows: the typed answer, except for a secret, which shows as
/// one mask character per typed character, as typed, or not at all, by the display mode.
pub open spec fn shown_answer(g: GreeterView) -> Option<Seq<char>> {
    if g.asking_for_secret {
        match g.secret_display {
            SecretDisplay::Hidden => None,
            SecretDisplay::Plain => Some(g.buffer),
            SecretDisplay::Masked(c) => Some(Seq::new(g.buffer.len(), |i: int| c)),
        }
    } else {
        Some(g.buffer)
    }
}

impl Greeter {
    /// What the answer field shows (see [`shown_answer`]); `None` where nothing is drawn.
    pub fn answer_text(&self) -> (r: Option<String>)
        ensures
            r.deep_view() == shown_answer(self@),
    {
        if !self.asking_for_secret {
            return Some(self.buffer.clone());
        }
        match self.secret_display {
            SecretDisplay::Hidden => None,
            SecretDisplay::Plain => Some(self.buffer.clone()),
            SecretDisplay::Masked(c) => {
                let n = self.buffer.as_str().unicode_len();
                let mut v: Vec<char> = Vec::new();
                let mut i: usize = 0;
                while i < n
                    invariant
                        i <= n,
                        v@ == Seq::new(i as nat, |k: int| c),
                    decreases n - i,
                {
                    v.push(c);
                    i = i + 1;
                    assert(v@ =~= Seq::new(i as nat, |k: int| c));
                }
                Some(crate::text::string_of(&v))
            },
        }
    }
}

// ---------------------------------------------------------------- laws

/// A stored prompt always ends with a space, and setting it again to what is stored
/// changes nothing.
pub proof fn lemma_prompt_text(p: Seq<char>)
    ensures
        prompt_text(p).len() > 0,
        prompt_text(p).last() == ' ',
        prompt_text(prompt_text(p)) == prompt_text(p),
{
}

/// After a reset nothing typed is left and greetd is no longer awaited; a soft reset
/// keeps the username and asks for the password again, a full one starts from the
/// username. Resetting twice is resetting once.
pub proof fn lemma_reset(g: GreeterView, soft: bool)
    ensures
        reset_state(g, soft).buffer.len() == 0,
        reset_state(g, soft).prompt is None,
        !reset_state(g, soft).working,
        soft ==> reset_state(g, soft).username == g.username && reset_state(g, soft).mode == Mode::Password,
        !soft ==> reset_state(g, soft).username.value.len() == 0 && reset_state(g, soft).mode == Mode::Username,
        reset_state(reset_state(g, soft), soft) == reset_state(g, soft),
{
}


/// A secret being typed never shows in clear unless the display mode is plain: hidden
/// shows nothing, masked shows as many mask characters as were typed and nothing else.
pub proof fn lemma_secret_not_shown(g: GreeterView)
    requires
        g.asking_for_secret,
    ensures
        g.secret_display is Hidden ==> shown_answer(g) is None,
        g.secret_display matches SecretDisplay::Masked(c) ==> (shown_answer(g) matches Some(t)
            && t.len() == g.buffer.len() && forall|i: int| 0 <= i < t.len() ==> t[i] == c),
{
}

/// The greeting comes from the settings: the issue banner passed in where they ask for it,
/// the configured greeting otherwise; for a fresh greeter as for one the settings are
/// applied to again.
pub proof fn lemma_greeting_from_settings(g: GreeterView, s: SettingsView, issue: Option<Seq<char>>)
    ensures
        s.ui.issue ==> applied(g, s, issue).greeting == issue,
        !s.ui.issue ==> applied(g, s, issue).greeting == s.ui.greeting,
        s.ui.issue ==> greeter_from(s, issue).greeting == issue,
        !s.ui.issue ==> greeter_from(s, issue).greeting == s.ui.greeting,
{
}

/// A configured command split at its spaces, behind `setsid` where asked.
pub open spec fn setsid_argv(setsid: bool, c: Seq<char>) -> Seq<Seq<char>> {
    if setsid {
        seq!["setsid"@] + crate::text::split_on(c, ' ')
    } else {
        crate::text::split_on(c, ' ')
    }
}

/// Once the settings are applied, shutting down and rebooting run the commands the
/// settings configure for them (split at spaces, behind `setsid` where the settings ask),
/// and `shutdown -h now` / `shutdown -r now` only where none is configured.
pub proof fn lemma_settings_power_commands(g: GreeterView, s: SettingsView, issue: Option<Seq<char>>)
    ensures
        ({
            let a = applied(g, s, issue);
            &&& s.reboot matches Some(c) ==> power_argv(a.powers.options, a.power_setsid, PowerOption::Reboot)
                == Some(setsid_argv(s.setsid, c))
            &&& s.reboot is None ==> power_argv(a.powers.options, a.power_setsid, PowerOption::Reboot) == Some(
                seq!["shutdown"@, "-r"@, "now"@],
            )
            &&& s.shutdown matches Some(c) ==> power_argv(a.powers.options, a.power_setsid, PowerOption::Shutdown)
                == Some(setsid_argv(s.setsid, c))
            &&& s.shutdown is None ==> power_argv(a.powers.options, a.power_setsid, PowerOption::Shutdown)
                == Some(seq!["shutdown"@, "-h"@, "now"@])
        }),
{
    let a = applied(g, s, issue);
    let o = a.powers.options;
    assert(o == power_entries(s));
    assert(o[0].action == PowerOption::Shutdown);
    assert(o[1].action == PowerOption::Reboot);
    lemma_power_runs_configured_command(o, a.power_setsid, PowerOption::Shutdown, 0);
    lemma_power_runs_configured_command(o, a.power_setsid, PowerOption::Reboot, 1);
}

} // verus!
