//! Sessions the user can start, and how the one to start is chosen.

use vstd::prelude::*;
use crate::greeter::Greeter;
use crate::menu::MenuItem;
use crate::text::{clone_opt, clone_strings, str_eq};

verus! {

broadcast use vstd::string::group_string_axioms;

/// How the session to start is decided.
#[derive(Debug)]
pub enum SessionSource {
    /// Nothing chosen.
    Unset,
    /// The configured command, with the configured environment if any.
    DefaultCommand(String, Option<Vec<String>>),
    /// A command typed by the user.
    Command(String),
    /// The session at this index of the session menu.
    Session(usize),
}

pub enum SessionSourceView {
    Unset,
    DefaultCommand(Seq<char>, Option<Seq<Seq<char>>>),
    Command(Seq<char>),
    Session(usize),
}

impl View for SessionSource {
    type V = SessionSourceView;

    open spec fn view(&self) -> SessionSourceView {
        match self {
            SessionSource::Unset => SessionSourceView::Unset,
            SessionSource::DefaultCommand(c, e) => SessionSourceView::DefaultCommand(c@, e.deep_view()),
            SessionSource::Command(c) => SessionSourceView::Command(c@),
            SessionSource::Session(i) => SessionSourceView::Session(*i),
        }
    }
}

/// The display server protocol of a session.
#[derive(Debug, Clone, Copy, PartialEq, Eq)]
pub enum SessionType {
    X11,
    Wayland,
    Tty,
    Unspecified,
}

/// A session found on disk.
#[derive(Debug)]
pub struct Session {
    pub slug: Option<String>,
    pub name: String,
    pub command: String,
    pub session_type: SessionType,
    pub path: Option<String>,
    pub xdg_desktop_names: Option<String>,
}

pub struct SessionView {
    pub slug: Option<Seq<char>>,
    pub name: Seq<char>,
    pub command: Seq<char>,
    pub session_type: SessionType,
    pub path: Option<Seq<char>>,
    pub xdg_desktop_names: Option<Seq<char>>,
}

impl View for Session {
    type V = SessionView;

    open spec fn view(&self) -> SessionView {
        SessionView {
            slug: self.slug.deep_view(),
            name: self.name@,
            command: self.command@,
            session_type: self.session_type,
            path: self.path.deep_view(),
            xdg_desktop_names: self.xdg_desktop_names.deep_view(),
        }
    }
}

impl MenuItem for Session {
    fn format(&self) -> (r: String)
        ensures
            r@ == self.name@,
    {
        self.name.clone()
    }
}

/// The value of `XDG_SESSION_TYPE` for a session type.
pub open spec fn xdg_type_name(t: SessionType) -> Seq<char> {
    match t {
        SessionType::X11 => "x11"@,
        SessionType::Wayland => "wayland"@,
        SessionType::Tty => "tty"@,
        SessionType::Unspecified => "unspecified"@,
    }
}

impl SessionType {
    /// The value of `XDG_SESSION_TYPE` for this type.
    pub fn as_xdg_session_type(&self) -> (r: &'static str)
        ensures
            r@ == xdg_type_name(*self),
    {
        match self {
            SessionType::X11 => "x11",
            SessionType::Wayland => "wayland",
            SessionType::Tty => "tty",
            SessionType::Unspecified => "unspecified",
        }
    }
}

impl Session {
    /// A session with only a name and a command.
    pub fn default() -> (r: Session)
        ensures
            r@ == (SessionView {
                slug: None,
                name: Seq::empty(),
                command: Seq::empty(),
                session_type: SessionType::Unspecified,
                path: None,
                xdg_desktop_names: None,
            }),
    {
        Session {
            slug: None,
            name: String::new(),
            command: String::new(),
            session_type: SessionType::Unspecified,
            path: None,
            xdg_desktop_names: None,
        }
    }

    /// A copy.
    pub fn duplicate(&self) -> (r: Session)
        ensures
            r@ == self@,
    {
        Session {
            slug: clone_opt(&self.slug),
            name: self.name.clone(),
            command: self.command.clone(),
            session_type: self.session_type,
            path: clone_opt(&self.path),
            xdg_desktop_names: clone_opt(&self.xdg_desktop_names),
        }
    }
}

/// The position of the first of `options` read from `path`.
pub fn position_of_path(options: &Vec<Session>, path: &str) -> (r: Option<usize>)
    ensures
        match r {
            Some(i) => i < options@.len() && options@[i as int]@.path == Some(path@) && forall|j: int|
                0 <= j < i ==> options@[j]@.path != Some(path@),
            None => forall|j: int| 0 <= j < options@.len() ==> options@[j]@.path != Some(path@),
        },
{
    let mut i: usize = 0;
    while i < options.len()
        invariant
            i <= options@.len(),
            forall|j: int| 0 <= j < i ==> options@[j]@.path != Some(path@),
        decreases options.len() - i,
    {
        if let Some(p) = &options[i].path {
            if str_eq(p.as_str(), path) {
                return Some(i);
            }
        }
        i = i + 1;
    }
    None
}

/// What a session source names, given the session menu: the command it runs, or
/// for a menu entry `field` of that entry (`None` past the end of the menu).
pub open spec fn source_text(
    src: SessionSourceView,
    options: Seq<SessionView>,
    names: bool,
) -> Option<Seq<char>> {
    match src {
        SessionSourceView::Unset => None,
        SessionSourceView::DefaultCommand(c, _) => Some(c),
        SessionSourceView::Command(c) => Some(c),
        SessionSourceView::Session(i) => if i < options.len() {
            Some(if names { options[i as int].name } else { options[i as int].command })
        } else {
            None
        },
    }
}

/// The menu options of a greeter, as views.
pub open spec fn options_of(g: &Greeter) -> Seq<SessionView> {
    g.sessions@.options
}

impl SessionSource {
    /// The label shown for the source: the command, or the menu entry's name.
    pub fn label<'g>(&'g self, greeter: &'g Greeter) -> (r: Option<&'g str>)
        ensures
            opt_str_view(r) == source_text(self@, options_of(greeter), true),
    {
        match self {
            SessionSource::Unset => None,
            SessionSource::DefaultCommand(command, _) => Some(command.as_str()),
            SessionSource::Command(command) => Some(command.as_str()),
            SessionSource::Session(index) => {
                if *index < greeter.sessions.options.len() {
                    Some(greeter.sessions.options[*index].name.as_str())
                } else {
                    None
                }
            },
        }
    }

    /// The command the source runs.
    pub fn command<'g>(&'g self, greeter: &'g Greeter) -> (r: Option<&'g str>)
        ensures
            opt_str_view(r) == source_text(self@, options_of(greeter), false),
    {
        match self {
            SessionSource::Unset => None,
            SessionSource::DefaultCommand(command, _) => Some(command.as_str()),
            SessionSource::Command(command) => Some(command.as_str()),
            SessionSource::Session(index) => {
                if *index < greeter.sessions.options.len() {
                    Some(greeter.sessions.options[*index].command.as_str())
                } else {
                    None
                }
            },
        }
    }

    /// The environment the source adds: only the configured command has one.
    pub fn env(&self) -> (r: Option<Vec<String>>)
        ensures
            r.deep_view() == match self@ {
                SessionSourceView::DefaultCommand(_, e) => e,
                _ => None,
            },
    {
        match self {
            SessionSource::DefaultCommand(_, Some(env)) => Some(clone_strings(env)),
            _ => None,
        }
    }

    /// A copy.
    pub fn duplicate(&self) -> (r: SessionSource)
        ensures
            r@ == self@,
    {
        match self {
            SessionSource::Unset => SessionSource::Unset,
            SessionSource::DefaultCommand(c, e) => SessionSource::DefaultCommand(
                c.clone(),
                match e {
                    Some(v) => Some(clone_strings(v)),
                    None => None,
                },
            ),
            SessionSource::Command(c) => SessionSource::Command(c.clone()),
            SessionSource::Session(i) => SessionSource::Session(*i),
        }
    }
}

/// The characters of an optional string slice.
pub open spec fn opt_str_view(o: Option<&str>) -> Option<Seq<char>> {
    match o {
        Some(s) => Some(s@),
        None => None,
    }
}

impl Session {
    /// The first session of the menu read from `path`.
    pub fn from_path<'g>(greeter: &'g Greeter, path: &str) -> (r: Option<&'g Session>)
        ensures
            match r {
                Some(s) => exists|i: int|
                    0 <= i < options_of(greeter).len() && s@ == options_of(greeter)[i]
                        && options_of(greeter)[i].path == Some(path@) && forall|j: int|
                        0 <= j < i ==> options_of(greeter)[j].path != Some(path@),
                None => forall|j: int|
                    0 <= j < options_of(greeter).len() ==> options_of(greeter)[j].path != Some(path@),
            },
    {
        match position_of_path(&greeter.sessions.options, path) {
            Some(i) => {
                assert(options_of(greeter)[i as int] == greeter.sessions.options@[i as int]@);
                Some(&greeter.sessions.options[i])
            },
            None => {
                assert(forall|j: int| 0 <= j < options_of(greeter).len() ==> options_of(greeter)[j] == greeter.sessions.options@[j]@);
                None
            },
        }
    }

    /// The menu entry the session source selects, if it selects one that exists.
    pub fn get_selected<'g>(greeter: &'g Greeter) -> (r: Option<&'g Session>)
        ensures
            match greeter.session_source@ {
                SessionSourceView::Session(i) => if i < options_of(greeter).len() {
                    r matches Some(s) && s@ == options_of(greeter)[i as int]
                } else {
                    r is None
                },
                _ => r is None,
            },
    {
        match greeter.session_source {
            SessionSource::Session(index) => {
                if index < greeter.sessions.options.len() {
                    Some(&greeter.sessions.options[index])
                } else {
                    None
                }
            },
            _ => None,
        }
    }
}

} // verus!
