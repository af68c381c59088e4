//! What is handed to greetd when a session starts: the command line and its environment.

use vstd::prelude::*;
use crate::greeter::{prompt_text, reset_state, AuthStatus, Greeter, GreeterView, Mode};
use crate::sessions::{
    source_text, xdg_type_name, Session, SessionSourceView, SessionType, SessionView,
};
use crate::text::{chars_of, clone_strings, concat, owned, string_of_range, trim_end, trim_end_str};

verus! {

broadcast use vstd::string::group_string_axioms;

/// The command configured for the greeter, with the environment configured beside it.
pub struct DefaultCommand<'a>(pub &'a str, pub Option<Vec<String>>);

/// `s` with every `;` turned into `:`.
pub open spec fn semicolons_to_colons(s: Seq<char>) -> Seq<char> {
    s.map_values(|c: char| if c == ';' { ':' } else { c })
}

/// `s` without the run of `c` at its end.
pub open spec fn trim_end_char(s: Seq<char>, c: char) -> Seq<char>
    decreases s.len(),
{
    if s.len() > 0 && s.last() == c {
        trim_end_char(s.drop_last(), c)
    } else {
        s
    }
}

/// A `DesktopNames` list (`;`-separated) as `XDG_CURRENT_DESKTOP` wants it (`:`-separated,
/// no trailing separator).
pub open spec fn xdg_desktop_list(names: Seq<char>) -> Seq<char> {
    trim_end_char(semicolons_to_colons(names), ':')
}

/// Converts a `DesktopNames` list into the value of `XDG_CURRENT_DESKTOP`.
pub fn desktop_names_to_xdg(names: &str) -> (r: String)
    ensures
        r@ == xdg_desktop_list(names@),
{
    let v = chars_of(names);
    let mut mapped: Vec<char> = Vec::new();
    let mut i: usize = 0;
    while i < v.len()
        invariant
            i <= v.len(),
            v@ == names@,
            mapped@ == semicolons_to_colons(v@.take(i as int)),
        decreases v.len() - i,
    {
        let c = if v[i] == ';' {
            ':'
        } else {
            v[i]
        };
        mapped.push(c);
        i = i + 1;
        assert(mapped@ =~= semicolons_to_colons(v@.take(i as int)));
    }
    assert(v@.take(v@.len() as int) =~= v@);
    let ghost full = mapped@;
    let mut end: usize = mapped.len();
    assert(full.take(end as int) =~= full);
    while end > 0 && mapped[end - 1] == ':'
        invariant
            end <= mapped@.len(),
            mapped@ == full,
            trim_end_char(full.take(end as int), ':') == trim_end_char(full, ':'),
        decreases end,
    {
        assert(full.take(end as int).drop_last() =~= full.take(end - 1));
        end = end - 1;
    }
    string_of_range(&mapped, 0, end)
}

/// `cmd` run through `wrapper`, where there is one.
pub open spec fn wrapped(wrapper: Option<Seq<char>>, cmd: Seq<char>) -> Seq<char> {
    match wrapper {
        Some(w) => w + " "@ + cmd,
        None => cmd,
    }
}

/// The environment a session from the menu starts with.
pub open spec fn session_env(s: SessionView) -> Seq<Seq<char>> {
    (match s.slug {
        Some(slug) => seq!["XDG_SESSION_DESKTOP="@ + slug, "DESKTOP_SESSION="@ + slug],
        None => Seq::empty(),
    }) + (if s.session_type != SessionType::Unspecified {
        seq!["XDG_SESSION_TYPE="@ + xdg_type_name(s.session_type)]
    } else {
        Seq::empty()
    }) + (match s.xdg_desktop_names {
        Some(n) => seq!["XDG_CURRENT_DESKTOP="@ + xdg_desktop_list(n)],
        None => Seq::empty(),
    })
}

/// The command line and environment handed to greetd: a session from the menu runs through
/// the X11 wrapper or the session wrapper by its type, with the environment that describes it;
/// any other command runs through the session wrapper with no environment or, where there is
/// no wrapper, as it is with its configured environment.
pub open spec fn session_command(
    g: GreeterView,
    session: Option<SessionView>,
    cmd: Seq<char>,
    env: Option<Seq<Seq<char>>>,
) -> (Seq<char>, Seq<Seq<char>>) {
    match session {
        Some(s) => (
            wrapped(
                if s.session_type == SessionType::X11 { g.xsession_wrapper } else { g.session_wrapper },
                cmd,
            ),
            session_env(s),
        ),
        None => match g.session_wrapper {
            Some(w) => (wrapped(Some(w), cmd), Seq::empty()),
            None => (
                cmd,
                match env {
                    Some(e) => e,
                    None => Seq::empty(),
                },
            ),
        },
    }
}

/// The view of an optional session.
pub open spec fn opt_session_view(s: Option<&Session>) -> Option<SessionView> {
    match s {
        Some(s) => Some(s@),
        None => None,
    }
}

fn push_entry(env: &mut Vec<String>, key: &str, value: &str)
    ensures
        final(env).deep_view() == old(env).deep_view().push(key@ + value@),
{
    let ghost before = env.deep_view();
    env.push(concat(key, value));
    assert(env.deep_view() =~= before.push(key@ + value@));
}

fn run_through(wrapper: &str, cmd: &str) -> (r: String)
    ensures
        r@ == wrapped(Some(wrapper@), cmd@),
{
    let w = concat(wrapper, " ");
    concat(w.as_str(), cmd)
}

fn environment_of(s: &Session) -> (env: Vec<String>)
    ensures
        env.deep_view() == session_env(s@),
{
    let mut env: Vec<String> = Vec::new();
    if let Some(slug) = &s.slug {
        push_entry(&mut env, "XDG_SESSION_DESKTOP=", slug.as_str());
        push_entry(&mut env, "DESKTOP_SESSION=", slug.as_str());
    }
    if !matches!(s.session_type, SessionType::Unspecified) {
        push_entry(&mut env, "XDG_SESSION_TYPE=", s.session_type.as_xdg_session_type());
    }
    if let Some(names) = &s.xdg_desktop_names {
        let list = desktop_names_to_xdg(names.as_str());
        push_entry(&mut env, "XDG_CURRENT_DESKTOP=", list.as_str());
    }
    assert(env.deep_view() =~= session_env(s@));
    env
}

/// The command line and environment greetd starts: see [`session_command`].
pub fn wrap_session_command(
    greeter: &Greeter,
    session: Option<&Session>,
    default: &DefaultCommand,
) -> (r: (String, Vec<String>))
    ensures
        (r.0@, r.1.deep_view()) == session_command(
            greeter@,
            opt_session_view(session),
            default.0@,
            default.1.deep_view(),
        ),
{
    match session {
        Some(s) => {
            let env = environment_of(s);
            let wrapper = if matches!(s.session_type, SessionType::X11) {
                &greeter.xsession_wrapper
            } else {
                &greeter.session_wrapper
            };
            match wrapper {
                Some(w) => (run_through(w.as_str(), default.0), env),
                None => (crate::text::owned(default.0), env),
            }
        },
        None => match &greeter.session_wrapper {
            Some(w) => (run_through(w.as_str(), default.0), Vec::new()),
            None => (
                crate::text::owned(default.0),
                match &default.1 {
                    Some(e) => clone_strings(e),
                    None => Vec::new(),
                },
            ),
        },
    }
}


// ---------------------------------------------------------------- replies

/// The kind of a question or notice greetd sends during authentication.
#[derive(Debug, Clone, Copy, PartialEq, Eq, Structural)]
pub enum AuthMessageKind {
    /// A question whose answer may be shown.
    Visible,
    /// A question whose answer is a secret.
    Secret,
    /// A notice.
    Info,
    /// An error notice.
    Error,
}

/// What greetd answered.
#[derive(Debug)]
pub enum Reply {
    Success,
    /// Authentication failed.
    AuthError,
    /// Another failure, with greetd's description.
    Error(String),
    /// A question or notice for the user.
    AuthMessage(AuthMessageKind, String),
}

pub enum ReplyView {
    Success,
    AuthError,
    Error(Seq<char>),
    AuthMessage(AuthMessageKind, Seq<char>),
}

impl View for Reply {
    type V = ReplyView;

    open spec fn view(&self) -> ReplyView {
        match self {
            Reply::Success => ReplyView::Success,
            Reply::AuthError => ReplyView::AuthError,
            Reply::Error(d) => ReplyView::Error(d@),
            Reply::AuthMessage(k, m) => ReplyView::AuthMessage(*k, m@),
        }
    }
}

/// What to do after a reply from greetd.
#[derive(Debug, PartialEq, Eq)]
pub enum IpcAction {
    Nothing,
    /// Answer greetd's notice with no response.
    Acknowledge,
    /// Ask greetd to start this command line with this environment.
    StartSession(Vec<String>, Vec<String>),
    /// Cancel greetd's session.
    CancelSession,
    /// Exit the greeter.
    Exit(AuthStatus),
}

pub enum IpcActionView {
    Nothing,
    Acknowledge,
    StartSession(Seq<Seq<char>>, Seq<Seq<char>>),
    CancelSession,
    Exit(AuthStatus),
}

impl View for IpcAction {
    type V = IpcActionView;

    open spec fn view(&self) -> IpcActionView {
        match self {
            IpcAction::Nothing => IpcActionView::Nothing,
            IpcAction::Acknowledge => IpcActionView::Acknowledge,
            IpcAction::StartSession(c, e) => IpcActionView::StartSession(c.deep_view(), e.deep_view()),
            IpcAction::CancelSession => IpcActionView::CancelSession,
            IpcAction::Exit(s) => IpcActionView::Exit(*s),
        }
    }
}

/// The menu entry the session source selects, where it selects one that exists.
pub open spec fn selected_session(g: GreeterView) -> Option<SessionView> {
    match g.session_source {
        SessionSourceView::Session(i) => if i < g.sessions.options.len() {
            Some(g.sessions.options[i as int])
        } else {
            None
        },
        _ => None,
    }
}

/// The environment the session source carries: only the configured command has one.
pub open spec fn source_env(g: GreeterView) -> Option<Seq<Seq<char>>> {
    match g.session_source {
        SessionSourceView::DefaultCommand(_, e) => e,
        _ => None,
    }
}

/// The message shown after a notice: appended on a line of its own to the message
/// shown, without trailing white space.
pub open spec fn with_notice(message: Option<Seq<char>>, notice: Seq<char>) -> Seq<char> {
    match message {
        Some(m) => m + "\n"@ + trim_end(notice),
        None => trim_end(notice),
    }
}

/// What a reply from greetd does to the greeter and asks next. A question moves to the
/// answer screen with its prompt; a notice is shown and acknowledged; the first success
/// starts the chosen session (in debug builds, `true` with no environment), the next one
/// exits; a failure cancels greetd's session and starts over from the username, its reason
/// shown.
pub open spec fn reply_effect(g: GreeterView, r: ReplyView, debug_build: bool) -> (GreeterView, IpcActionView) {
    match r {
        ReplyView::AuthMessage(kind, m) => match kind {
            AuthMessageKind::Secret | AuthMessageKind::Visible => (
                GreeterView {
                    mode: Mode::Password,
                    working: false,
                    asking_for_secret: kind == AuthMessageKind::Secret,
                    prompt: Some(prompt_text(m)),
                    ..g
                },
                IpcActionView::Nothing,
            ),
            AuthMessageKind::Error => (GreeterView { message: Some(m), ..g }, IpcActionView::Acknowledge),
            AuthMessageKind::Info => (
                GreeterView { prompt: None, message: Some(with_notice(g.message, m)), ..g },
                IpcActionView::Acknowledge,
            ),
        },
        ReplyView::Success => if g.done {
            (g, IpcActionView::Exit(AuthStatus::Success))
        } else {
            match source_text(g.session_source, g.sessions.options, false) {
                Some(cmd) => {
                    let (line, env) = session_command(g, selected_session(g), cmd, source_env(g));
                    (
                        GreeterView { done: true, mode: Mode::Processing, ..g },
                        if debug_build {
                            IpcActionView::StartSession(seq!["true"@], Seq::empty())
                        } else {
                            IpcActionView::StartSession(seq![line], env)
                        },
                    )
                },
                None => (
                    reset_state(GreeterView { message: Some("No command configured"@), ..g }, false),
                    IpcActionView::CancelSession,
                ),
            }
        },
        ReplyView::AuthError => (
            reset_state(GreeterView { message: Some("Authentication failed, please try again."@), ..g }, false),
            IpcActionView::CancelSession,
        ),
        ReplyView::Error(d) => (reset_state(GreeterView { message: Some(d), ..g }, false), IpcActionView::CancelSession),
    }
}

fn start_session(g: &mut Greeter, debug_build: bool) -> (r: IpcAction)
    requires
        source_text(old(g)@.session_source, old(g)@.sessions.options, false) is Some,
        !old(g)@.done,
    ensures
        (final(g)@, r@) == reply_effect(old(g)@, ReplyView::Success, debug_build),
{
    let ghost g0 = g@;
    let cmd = match g.session_source.command(g) {
        Some(c) => owned(c),
        None => String::new(),
    };
    let env = g.session_source.env();
    let default = DefaultCommand(cmd.as_str(), env);
    let selected = Session::get_selected(g);
    assert(opt_session_view(selected) == selected_session(g0));
    let (line, env) = wrap_session_command(g, selected, &default);
    let ghost expected = session_command(
        g0,
        selected_session(g0),
        source_text(g0.session_source, g0.sessions.options, false)->0,
        source_env(g0),
    );
    assert(line@ == expected.0 && env.deep_view() == expected.1);
    g.done = true;
    g.mode = Mode::Processing;
    if debug_build {
        let t = owned("true");
        let cmd_line = vec![t];
        assert(cmd_line.deep_view() =~= seq!["true"@]);
        let none: Vec<String> = Vec::new();
        assert(none.deep_view() =~= Seq::<Seq<char>>::empty());
        IpcAction::StartSession(cmd_line, none)
    } else {
        let ghost lv = line@;
        let cmd_line = vec![line];
        assert(cmd_line.deep_view() =~= seq![lv]);
        IpcAction::StartSession(cmd_line, env)
    }
}

fn on_question(g: &mut Greeter, kind: AuthMessageKind, message: String)
    requires
        kind == AuthMessageKind::Secret || kind == AuthMessageKind::Visible,
    ensures
        (final(g)@, IpcActionView::Nothing) == reply_effect(old(g)@, ReplyView::AuthMessage(kind, message@), false),
{
    g.mode = Mode::Password;
    g.working = false;
    g.asking_for_secret = matches!(kind, AuthMessageKind::Secret);
    g.set_prompt(message.as_str());
}

fn on_notice(g: &mut Greeter, message: String)
    ensures
        (final(g)@, IpcActionView::Acknowledge) == reply_effect(
            old(g)@,
            ReplyView::AuthMessage(AuthMessageKind::Info, message@),
            false,
        ),
{
    g.remove_prompt();
    let notice = trim_end_str(message.as_str());
    let shown = match &g.message {
        Some(m) => {
            let with_break = concat(m.as_str(), "\n");
            concat(with_break.as_str(), notice.as_str())
        },
        None => notice,
    };
    g.message = Some(shown);
}

fn on_failure(g: &mut Greeter, message: String)
    ensures
        final(g)@ == reset_state(GreeterView { message: Some(message@), ..old(g)@ }, false),
{
    g.message = Some(message);
    g.reset(false);
}

impl Greeter {
    /// Handles a reply from greetd (see [`reply_effect`]); `debug_build` starts `true` in
    /// place of the session.
    pub fn handle_reply(&mut self, reply: Reply, debug_build: bool) -> (r: IpcAction)
        ensures
            (final(self)@, r@) == reply_effect(old(self)@, reply@, debug_build),
    {
        proof {
            reveal_strlit("No command configured");
            reveal_strlit("Authentication failed, please try again.");
        }
        match reply {
            Reply::AuthMessage(kind, message) => match kind {
                AuthMessageKind::Secret | AuthMessageKind::Visible => {
                    on_question(self, kind, message);
                    IpcAction::Nothing
                },
                AuthMessageKind::Error => {
                    self.message = Some(message);
                    IpcAction::Acknowledge
                },
                AuthMessageKind::Info => {
                    on_notice(self, message);
                    IpcAction::Acknowledge
                },
            },
            Reply::Success => {
                if self.done {
                    return IpcAction::Exit(AuthStatus::Success);
                }
                if self.session_source.command(self).is_some() {
                    start_session(self, debug_build)
                } else {
                    on_failure(self, owned("No command configured"));
                    IpcAction::CancelSession
                }
            },
            Reply::AuthError => {
                on_failure(self, owned("Authentication failed, please try again."));
                IpcAction::CancelSession
            },
            Reply::Error(description) => {
                on_failure(self, description);
                IpcAction::CancelSession
            },
        }
    }
}


// ---------------------------------------------------------------- laws

proof fn lemma_trim_end_char(s: Seq<char>, c: char)
    ensures
        trim_end_char(s, c).len() <= s.len(),
        trim_end_char(s, c) == s.take(trim_end_char(s, c).len() as int),
        trim_end_char(s, c).len() > 0 ==> trim_end_char(s, c).last() != c,
    decreases s.len(),
{
    if s.len() > 0 && s.last() == c {
        lemma_trim_end_char(s.drop_last(), c);
        let t = trim_end_char(s.drop_last(), c);
        assert(s.take(t.len() as int) =~= s.drop_last().take(t.len() as int));
    } else {
        assert(s.take(s.len() as int) =~= s);
    }
}

/// The value of `XDG_CURRENT_DESKTOP` holds no `;` and never ends with a `:`.
pub proof fn lemma_xdg_desktop_list(names: Seq<char>)
    ensures
        forall|i: int| 0 <= i < xdg_desktop_list(names).len() ==> xdg_desktop_list(names)[i] != ';',
        xdg_desktop_list(names).len() > 0 ==> xdg_desktop_list(names).last() != ':',
{
    let m = semicolons_to_colons(names);
    lemma_trim_end_char(m, ':');
    let t = xdg_desktop_list(names);
    assert forall|i: int| 0 <= i < t.len() implies t[i] != ';' by {
        assert(t[i] == m[i]);
    }
}

/// A failure reported by greetd cancels its session and starts over from the username,
/// no longer waiting and with nothing typed left, its reason shown.
pub proof fn lemma_failure_starts_over(g: GreeterView, r: ReplyView, debug_build: bool)
    requires
        r is AuthError || r is Error,
    ensures
        reply_effect(g, r, debug_build).1 == IpcActionView::CancelSession,
        reply_effect(g, r, debug_build).0.mode == Mode::Username,
        !reply_effect(g, r, debug_build).0.working,
        reply_effect(g, r, debug_build).0.buffer.len() == 0,
        reply_effect(g, r, debug_build).0.username.value.len() == 0,
        reply_effect(g, r, debug_build).0.message is Some,
{
}

/// Once a session was asked for, the next success exits the greeter.
pub proof fn lemma_success_then_exit(g: GreeterView, debug_build: bool)
    requires
        !g.done,
        source_text(g.session_source, g.sessions.options, false) is Some,
    ensures
        reply_effect(g, ReplyView::Success, debug_build).1 is StartSession,
        reply_effect(reply_effect(g, ReplyView::Success, debug_build).0, ReplyView::Success, debug_build).1
            == IpcActionView::Exit(AuthStatus::Success),
{
}

/// The first success with a menu session as the source starts that session itself: its
/// command, run through the X11 wrapper for an X11 session and through the session wrapper
/// otherwise, with the environment that describes it (its desktop name, its session type
/// and its desktop list), whatever environment a configured command carries.
pub proof fn lemma_menu_session_starts(g: GreeterView, i: usize)
    requires
        !g.done,
        g.session_source == SessionSourceView::Session(i),
        i < g.sessions.options.len(),
    ensures
        ({
            let s = g.sessions.options[i as int];
            let wrapper = if s.session_type == SessionType::X11 {
                g.xsession_wrapper
            } else {
                g.session_wrapper
            };
            let line = match wrapper {
                Some(w) => w + " "@ + s.command,
                None => s.command,
            };
            &&& reply_effect(g, ReplyView::Success, false).1 == IpcActionView::StartSession(
                seq![line],
                session_env(s),
            )
            &&& s.slug matches Some(slug) ==> session_env(s).contains("XDG_SESSION_DESKTOP="@ + slug)
                && session_env(s).contains("DESKTOP_SESSION="@ + slug)
            &&& s.session_type != SessionType::Unspecified ==> session_env(s).contains(
                "XDG_SESSION_TYPE="@ + xdg_type_name(s.session_type),
            )
            &&& s.xdg_desktop_names matches Some(n) ==> session_env(s).contains(
                "XDG_CURRENT_DESKTOP="@ + xdg_desktop_list(n),
            )
            &&& s.slug is None && s.session_type == SessionType::Unspecified && s.xdg_desktop_names is None
                ==> session_env(s).len() == 0
        }),
{
    let s = g.sessions.options[i as int];
    let e = session_env(s);
    let a: Seq<Seq<char>> = match s.slug {
        Some(slug) => seq!["XDG_SESSION_DESKTOP="@ + slug, "DESKTOP_SESSION="@ + slug],
        None => Seq::empty(),
    };
    let b: Seq<Seq<char>> = if s.session_type != SessionType::Unspecified {
        seq!["XDG_SESSION_TYPE="@ + xdg_type_name(s.session_type)]
    } else {
        Seq::empty()
    };
    let c: Seq<Seq<char>> = match s.xdg_desktop_names {
        Some(n) => seq!["XDG_CURRENT_DESKTOP="@ + xdg_desktop_list(n)],
        None => Seq::empty(),
    };
    assert(e == a + b + c);
    if s.slug is Some {
        assert(e[0] == a[0]);
        assert(e[1] == a[1]);
    }
    if s.session_type != SessionType::Unspecified {
        assert(e[a.len() as int] == b[0]);
    }
    if s.xdg_desktop_names is Some {
        assert(e[(a.len() + b.len()) as int] == c[0]);
    }
}

} // verus!
