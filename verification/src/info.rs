//! Facts about the system the greeter shows or reads: the issue banner, where session
//! files live, and what a session file describes.

use vstd::prelude::*;
use crate::greeter::Greeter;
use crate::paths::{join, join_path, Environment};
use crate::sessions::{Session, SessionType, SessionView};
use crate::text::{chars_of, decimal, decimal_string, owned, replace, replace_all, split_on, split_str, string_of};

verus! {

broadcast use vstd::string::group_string_axioms;

/// Whether a path is absolute.
pub open spec fn is_absolute(p: Seq<char>) -> bool {
    p.len() > 0 && p[0] == '/'
}

/// The data directories used when `XDG_DATA_DIRS` is not set.
pub open spec fn default_data_dirs() -> Seq<char> {
    "/usr/local/share:/usr/share"@
}

/// The directories searched for session files: the absolute entries of `XDG_DATA_DIRS`.
pub open spec fn data_dirs(xdg_data_dirs: Option<Seq<char>>) -> Seq<Seq<char>> {
    split_on(
        match xdg_data_dirs {
            Some(v) => v,
            None => default_data_dirs(),
        },
        ':',
    ).filter(absolute())
}

/// [`is_absolute`] as a predicate.
pub open spec fn absolute() -> spec_fn(Seq<char>) -> bool {
    |p: Seq<char>| is_absolute(p)
}

/// Splits a `PATH`-style list at its `:` separators (`std::env::split_paths` on Unix).
pub fn split_paths(value: &str) -> (r: Vec<String>)
    ensures
        r.deep_view() == split_on(value@, ':'),
{
    split_str(value, ':')
}

/// The data directories searched for session files.
pub fn data_directories(env: &Environment) -> (r: Vec<String>)
    ensures
        r.deep_view() == data_dirs(env.xdg_data_dirs.deep_view()),
{
    let value = match &env.xdg_data_dirs {
        Some(v) => owned(v.as_str()),
        None => owned("/usr/local/share:/usr/share"),
    };
    let all = split_paths(value.as_str());
    let mut r: Vec<String> = Vec::new();
    let mut i: usize = 0;
    assert(all.deep_view().take(0).filter(absolute()) =~= Seq::<Seq<char>>::empty());
    while i < all.len()
        invariant
            i <= all.len(),
            r.deep_view() == all.deep_view().take(i as int).filter(absolute()),
        decreases all.len() - i,
    {
        let ghost prefix = all.deep_view().take(i as int);
        let ghost t = all.deep_view().take(i + 1);
        let ghost x = all@[i as int]@;
        let ghost before = r.deep_view();
        assert(t.drop_last() =~= prefix);
        assert(t.last() == x);
        proof {
            reveal(Seq::filter);
        }
        assert(absolute()(x) == is_absolute(x));
        assert(t.filter(absolute()) == if absolute()(x) { prefix.filter(absolute()).push(x) } else { prefix.filter(absolute()) });
        let n = all[i].as_str().unicode_len();
        if n > 0 && all[i].as_str().get_char(0) == '/' {
            assert(is_absolute(x));
            r.push(owned(all[i].as_str()));
            assert(r.deep_view() =~= before.push(x));
            assert(r.deep_view() == t.filter(absolute()));
        } else {
            assert(!is_absolute(x));
            assert(r.deep_view() == t.filter(absolute()));
        }
        i = i + 1;
    }
    assert(all.deep_view().take(all.len() as int) =~= all.deep_view());
    r
}

/// The session directories searched when none are configured: each data directory's
/// `wayland-sessions`, then each one's `xsessions`.
pub open spec fn default_session_dirs(dirs: Seq<Seq<char>>) -> Seq<(Seq<char>, SessionType)> {
    dirs.map_values(|d: Seq<char>| (join(d, "wayland-sessions"@), SessionType::Wayland)) + dirs.map_values(
        |d: Seq<char>| (join(d, "xsessions"@), SessionType::X11),
    )
}

/// The view of a list of session directories.
pub open spec fn dirs_view(v: Seq<(String, SessionType)>) -> Seq<(Seq<char>, SessionType)> {
    v.map_values(|e: (String, SessionType)| (e.0@, e.1))
}

/// The session directories searched when none are configured.
pub fn default_session_paths(env: &Environment) -> (r: Vec<(String, SessionType)>)
    ensures
        dirs_view(r@) == default_session_dirs(data_dirs(env.xdg_data_dirs.deep_view())),
{
    proof {
        reveal_strlit("wayland-sessions");
        reveal_strlit("xsessions");
    }
    let dirs = data_directories(env);
    let ghost d = dirs.deep_view();
    let mut r: Vec<(String, SessionType)> = Vec::new();
    let mut i: usize = 0;
    while i < dirs.len()
        invariant
            i <= dirs.len(),
            d == dirs.deep_view(),
            dirs_view(r@) == d.take(i as int).map_values(
                |p: Seq<char>| (join(p, "wayland-sessions"@), SessionType::Wayland),
            ),
        decreases dirs.len() - i,
    {
        proof {
            reveal_strlit("wayland-sessions");
        }
        assert(dirs[i as int]@ == d[i as int]);
        let p = join_path(dirs[i].as_str(), "wayland-sessions");
        let ghost before = r@;
        r.push((p, SessionType::Wayland));
        assert(dirs_view(r@) =~= dirs_view(before).push((join(d[i as int], "wayland-sessions"@), SessionType::Wayland)));
        assert(d.take(i + 1).map_values(|p: Seq<char>| (join(p, "wayland-sessions"@), SessionType::Wayland))
            =~= d.take(i as int).map_values(|p: Seq<char>| (join(p, "wayland-sessions"@), SessionType::Wayland)).push(
            (join(d[i as int], "wayland-sessions"@), SessionType::Wayland)));
        i = i + 1;
        assert(dirs_view(r@) =~= d.take(i as int).map_values(
            |p: Seq<char>| (join(p, "wayland-sessions"@), SessionType::Wayland),
        ));
    }
    let ghost first = dirs_view(r@);
    let mut j: usize = 0;
    while j < dirs.len()
        invariant
            j <= dirs.len(),
            d == dirs.deep_view(),
            i == dirs.len(),
            first == d.map_values(|p: Seq<char>| (join(p, "wayland-sessions"@), SessionType::Wayland)),
            dirs_view(r@) == first + d.take(j as int).map_values(
                |p: Seq<char>| (join(p, "xsessions"@), SessionType::X11),
            ),
        decreases dirs.len() - j,
    {
        proof {
            reveal_strlit("xsessions");
        }
        assert(dirs[j as int]@ == d[j as int]);
        let p = join_path(dirs[j].as_str(), "xsessions");
        let ghost before = r@;
        r.push((p, SessionType::X11));
        assert(dirs_view(r@) =~= dirs_view(before).push((join(d[j as int], "xsessions"@), SessionType::X11)));
        assert(d.take(j + 1).map_values(|p: Seq<char>| (join(p, "xsessions"@), SessionType::X11))
            =~= d.take(j as int).map_values(|p: Seq<char>| (join(p, "xsessions"@), SessionType::X11)).push(
            (join(d[j as int], "xsessions"@), SessionType::X11)));
        j = j + 1;
        assert(dirs_view(r@) =~= first + d.take(j as int).map_values(
            |p: Seq<char>| (join(p, "xsessions"@), SessionType::X11),
        ));
    }
    assert(d.take(d.len() as int) =~= d);
    r
}

/// The directories read for sessions: the greeter's configured ones, or the defaults
/// where none are configured.
pub fn session_dirs(greeter: &Greeter, env: &Environment) -> (r: Vec<(String, SessionType)>)
    ensures
        dirs_view(r@) == if greeter@.session_paths.len() > 0 {
            greeter@.session_paths
        } else {
            default_session_dirs(data_dirs(env.xdg_data_dirs.deep_view()))
        },
{
    if greeter.session_paths.len() > 0 {
        let mut r: Vec<(String, SessionType)> = Vec::new();
        let mut i: usize = 0;
        while i < greeter.session_paths.len()
            invariant
                i <= greeter.session_paths@.len(),
                dirs_view(r@) == dirs_view(greeter.session_paths@.take(i as int)),
            decreases greeter.session_paths.len() - i,
        {
            let entry = &greeter.session_paths[i];
            let copy = (owned(entry.0.as_str()), entry.1);
            let ghost before = r@;
            r.push(copy);
            assert(dirs_view(r@) =~= dirs_view(before).push((entry.0@, entry.1)));
            assert(greeter.session_paths@.take(i + 1).drop_last() =~= greeter.session_paths@.take(i as int));
            i = i + 1;
            assert(dirs_view(r@) =~= dirs_view(greeter.session_paths@.take(i as int)));
        }
        assert(greeter.session_paths@.take(i as int) =~= greeter.session_paths@);
        assert(dirs_view(greeter.session_paths@) =~= greeter@.session_paths);
        r
    } else {
        default_session_paths(env)
    }
}


/// What the issue banner's escapes stand for on this system.
#[derive(Debug)]
pub struct IssueInfo {
    /// The date, as `%a %b %_d %Y`.
    pub date: String,
    /// The time, as `%H:%M:%S`.
    pub time: String,
    /// The virtual terminal number.
    pub vtnr: usize,
    pub sysname: String,
    pub release: String,
    pub version: String,
    pub nodename: String,
    pub machine: String,
    pub domainname: String,
}

/// The issue banner with its escapes expanded, each escape in turn over the whole text:
/// `\S`, `\l`, `\d`, `\t`, `\U` (no login count is kept: `0 user`), `\s`, `\r`, `\v`,
/// `\n`, `\m`, `\o`, then the three spellings of the escape character, then `\\`.
pub open spec fn issue_text(issue: Seq<char>, i: IssueInfo) -> Seq<char> {
    let s = replace(issue, "\\S"@, "Linux"@);
    let s = replace(s, "\\l"@, "tty"@ + decimal(i.vtnr as nat));
    let s = replace(s, "\\d"@, i.date@);
    let s = replace(s, "\\t"@, i.time@);
    let s = replace(s, "\\U"@, "0 user"@);
    let s = replace(s, "\\s"@, i.sysname@);
    let s = replace(s, "\\r"@, i.release@);
    let s = replace(s, "\\v"@, i.version@);
    let s = replace(s, "\\n"@, i.nodename@);
    let s = replace(s, "\\m"@, i.machine@);
    let s = replace(s, "\\o"@, i.domainname@);
    let s = replace(s, "\\x1b"@, "\x1b"@);
    let s = replace(s, "\\033"@, "\x1b"@);
    let s = replace(s, "\\e"@, "\x1b"@);
    replace(s, "\\\\"@, "\\"@)
}

/// Expands the escapes of an issue banner.
pub fn expand_issue(issue: &str, info: &IssueInfo) -> (r: String)
    ensures
        r@ == issue_text(issue@, *info),
{
    proof {
        reveal_strlit("\\S");
        reveal_strlit("\\l");
        reveal_strlit("\\d");
        reveal_strlit("\\t");
        reveal_strlit("\\U");
        reveal_strlit("\\s");
        reveal_strlit("\\r");
        reveal_strlit("\\v");
        reveal_strlit("\\n");
        reveal_strlit("\\m");
        reveal_strlit("\\o");
        reveal_strlit("\\x1b");
        reveal_strlit("\\033");
        reveal_strlit("\\e");
        reveal_strlit("\\\\");
    }
    let tty = crate::text::concat("tty", decimal_string(info.vtnr as u64).as_str());
    let s = replace_all(issue, "\\S", "Linux");
    let s = replace_all(s.as_str(), "\\l", tty.as_str());
    let s = replace_all(s.as_str(), "\\d", info.date.as_str());
    let s = replace_all(s.as_str(), "\\t", info.time.as_str());
    let s = replace_all(s.as_str(), "\\U", "0 user");
    let s = replace_all(s.as_str(), "\\s", info.sysname.as_str());
    let s = replace_all(s.as_str(), "\\r", info.release.as_str());
    let s = replace_all(s.as_str(), "\\v", info.version.as_str());
    let s = replace_all(s.as_str(), "\\n", info.nodename.as_str());
    let s = replace_all(s.as_str(), "\\m", info.machine.as_str());
    let s = replace_all(s.as_str(), "\\o", info.domainname.as_str());
    let s = replace_all(s.as_str(), "\\x1b", "\x1b");
    let s = replace_all(s.as_str(), "\\033", "\x1b");
    let s = replace_all(s.as_str(), "\\e", "\x1b");
    replace_all(s.as_str(), "\\\\", "\\")
}

/// The value of a run of ASCII digits.
pub open spec fn digits_value(s: Seq<char>) -> nat
    decreases s.len(),
{
    if s.len() == 0 {
        0
    } else {
        digits_value(s.drop_last()) * 10 + ((s.last() as u32) - ('0' as u32)) as nat
    }
}

/// Whether every character of `s` is an ASCII digit.
pub open spec fn all_digits(s: Seq<char>) -> bool {
    forall|i: int| 0 <= i < s.len() ==> '0' <= #[trigger] s[i] <= '9'
}

/// What `str::parse::<usize>` gives: an optional `+`, then one or more ASCII digits whose
/// value fits a `usize`.
pub open spec fn parsed_usize(s: Seq<char>) -> Option<nat> {
    let d = if s.len() > 0 && s[0] == '+' {
        s.drop_first()
    } else {
        s
    };
    if d.len() > 0 && all_digits(d) && digits_value(d) <= usize::MAX {
        Some(digits_value(d))
    } else {
        None
    }
}

proof fn lemma_digits_value_grows(s: Seq<char>, k: int)
    requires
        0 <= k <= s.len(),
    ensures
        digits_value(s.take(k)) <= digits_value(s),
    decreases s.len() - k,
{
    if k < s.len() {
        lemma_digits_value_grows(s, k + 1);
        assert(s.take(k + 1).drop_last() =~= s.take(k));
    } else {
        assert(s.take(k) =~= s);
    }
}

/// Parses a decimal `usize` as `str::parse` does.
pub fn parse_usize(s: &str) -> (r: Option<usize>)
    ensures
        match r {
            Some(v) => parsed_usize(s@) == Some(v as nat),
            None => parsed_usize(s@) is None,
        },
{
    let v = chars_of(s);
    let start: usize = if v.len() > 0 && v[0] == '+' {
        1
    } else {
        0
    };
    let ghost d = if s@.len() > 0 && s@[0] == '+' {
        s@.drop_first()
    } else {
        s@
    };
    assert(d =~= v@.skip(start as int));
    if start >= v.len() {
        return None;
    }
    let mut value: usize = 0;
    let mut k: usize = start;
    assert(d.take(0) =~= Seq::<char>::empty());
    while k < v.len()
        invariant
            start <= k <= v.len(),
            v@ == s@,
            d == (if s@.len() > 0 && s@[0] == '+' { s@.drop_first() } else { s@ }),
            d == v@.skip(start as int),
            all_digits(d.take(k - start)),
            value as nat == digits_value(d.take(k - start)),
        decreases v.len() - k,
    {
        let c = v[k];
        assert(d[k - start] == c);
        if !('0' <= c && c <= '9') {
            assert(!all_digits(d));
            return None;
        }
        let digit = (c as u32 - '0' as u32) as usize;
        assert(d.take(k + 1 - start).drop_last() =~= d.take(k - start));
        assert(d.take(k + 1 - start).last() == c);
        match value.checked_mul(10) {
            Some(t) => match t.checked_add(digit) {
                Some(n) => {
                    value = n;
                },
                None => {
                    proof {
                        lemma_digits_value_grows(d, k + 1 - start);
                    }
                    return None;
                },
            },
            None => {
                proof {
                    lemma_digits_value_grows(d, k + 1 - start);
                }
                return None;
            },
        }
        k = k + 1;
        assert(all_digits(d.take(k - start)));
    }
    assert(d.take(k - start) =~= d);
    Some(value)
}

/// The virtual terminal number from `XDG_VTNR`: 0 where it is unset or not a number.
pub fn vt_number(xdg_vtnr: Option<&str>) -> (r: usize)
    ensures
        r as nat == match xdg_vtnr {
            Some(v) => match parsed_usize(v@) {
                Some(n) => n,
                None => 0,
            },
            None => 0,
        },
{
    match xdg_vtnr {
        Some(v) => match parse_usize(v) {
            Some(n) => n,
            None => 0,
        },
        None => 0,
    }
}


/// What looking a key up in INI text gives.
#[derive(Debug)]
pub enum IniLookup {
    /// The text is not INI.
    Unparsable,
    /// There is no such section.
    NoSection,
    /// The section has no such key.
    Missing,
    /// The key's first value.
    Value(String),
}

pub enum IniLookupView {
    Unparsable,
    NoSection,
    Missing,
    Value(Seq<char>),
}

impl View for IniLookup {
    type V = IniLookupView;

    open spec fn view(&self) -> IniLookupView {
        match self {
            IniLookup::Unparsable => IniLookupView::Unparsable,
            IniLookup::NoSection => IniLookupView::NoSection,
            IniLookup::Missing => IniLookupView::Missing,
            IniLookup::Value(v) => IniLookupView::Value(v@),
        }
    }
}

/// What the `ini` crate reads for `key` in section `section` of `text`.
pub uninterp spec fn ini_entry(text: Seq<char>, section: Seq<char>, key: Seq<char>) -> IniLookupView;

/// Parses `text` with `ini::Ini::load_from_str` and looks `key` up in `section` (`section`,
/// then `Properties::get`, which gives a key's first value). Parsing depends on the text alone,
/// so the result is named by [`ini_entry`]; the INI grammar itself is left unstated.
#[verifier::external_body]
fn ini_lookup(text: &str, section: &str, key: &str) -> (r: IniLookup)
    ensures
        r@ == ini_entry(text@, section@, key@),
{
    match ini::Ini::load_from_str(text) {
        Err(_) => IniLookup::Unparsable,
        Ok(ini) => match ini.section(Some(section)) {
            None => IniLookup::NoSection,
            Some(props) => match props.get(key) {
                None => IniLookup::Missing,
                Some(v) => IniLookup::Value(v.to_string()),
            },
        },
    }
}

/// What `Path::file_stem` gives for a path: its final component without its extension.
pub uninterp spec fn file_stem_of(path: Seq<char>) -> Option<Seq<char>>;

/// `std::path::Path::file_stem`, lossily converted to a `String`. The stem depends on the
/// path alone, so the result is named by [`file_stem_of`]; std's rules for components and
/// extensions are left unstated.
#[verifier::external_body]
fn path_file_stem(path: &str) -> (r: Option<String>)
    ensures
        r.deep_view() == file_stem_of(path@),
{
    match std::path::Path::new(path).file_stem() {
        Some(stem) => Some(stem.to_string_lossy().to_string()),
        None => None,
    }
}

/// Why a session file was refused.
#[derive(Debug, Clone, Copy, PartialEq, Eq, Structural)]
pub enum DesktopError {
    /// The file is not INI.
    Unparsable,
    /// The file has no `[Desktop Entry]` section.
    NoEntrySection,
    /// The entry has no `Name`.
    NoName,
    /// The entry has no `Exec`.
    NoExec,
}

/// Whether a looked-up value is `true`.
pub open spec fn is_true(l: IniLookupView) -> bool {
    l == IniLookupView::Value("true"@)
}

/// The value found, if one was.
pub open spec fn found(l: IniLookupView) -> Option<Seq<char>> {
    match l {
        IniLookupView::Value(v) => Some(v),
        _ => None,
    }
}

/// The session a session file describes, from what its `[Desktop Entry]` section holds:
/// refused where the file does not parse or has no such section; skipped (`None`) where it is
/// `Hidden` or `NoDisplay`; refused where it lacks a `Name` or an `Exec`.
pub open spec fn desktop_session(
    hidden: IniLookupView,
    no_display: IniLookupView,
    name: IniLookupView,
    exec: IniLookupView,
    desktop_names: IniLookupView,
    slug: Option<Seq<char>>,
    path: Seq<char>,
    session_type: SessionType,
) -> Result<Option<SessionView>, DesktopError> {
    if hidden is Unparsable {
        Err(DesktopError::Unparsable)
    } else if hidden is NoSection {
        Err(DesktopError::NoEntrySection)
    } else if is_true(hidden) || is_true(no_display) {
        Ok(None)
    } else {
        match found(name) {
            None => Err(DesktopError::NoName),
            Some(n) => match found(exec) {
                None => Err(DesktopError::NoExec),
                Some(e) => Ok(
                    Some(
                        SessionView {
                            slug,
                            name: n,
                            command: e,
                            session_type,
                            path: Some(path),
                            xdg_desktop_names: found(desktop_names),
                        },
                    ),
                ),
            },
        }
    }
}

/// The view of what reading a session file gives.
pub open spec fn desktop_result_view(r: Result<Option<Session>, DesktopError>) -> Result<
    Option<SessionView>,
    DesktopError,
> {
    match r {
        Ok(Some(s)) => Ok(Some(s@)),
        Ok(None) => Ok(None),
        Err(e) => Err(e),
    }
}

fn is_true_value(l: &IniLookup) -> (r: bool)
    ensures
        r == is_true(l@),
{
    proof {
        reveal_strlit("true");
    }
    match l {
        IniLookup::Value(v) => crate::text::str_eq(v.as_str(), "true"),
        _ => false,
    }
}

fn found_value(l: IniLookup) -> (r: Option<String>)
    ensures
        r.deep_view() == found(l@),
{
    match l {
        IniLookup::Value(v) => Some(v),
        _ => None,
    }
}

/// The session a session file describes, from what its `[Desktop Entry]` section holds
/// (see [`desktop_session`]).
pub fn session_from_entry(
    hidden: IniLookup,
    no_display: IniLookup,
    name: IniLookup,
    exec: IniLookup,
    desktop_names: IniLookup,
    slug: Option<String>,
    path: &str,
    session_type: SessionType,
) -> (r: Result<Option<Session>, DesktopError>)
    ensures
        desktop_result_view(r) == desktop_session(
            hidden@,
            no_display@,
            name@,
            exec@,
            desktop_names@,
            slug.deep_view(),
            path@,
            session_type,
        ),
{
    match hidden {
        IniLookup::Unparsable => return Err(DesktopError::Unparsable),
        IniLookup::NoSection => return Err(DesktopError::NoEntrySection),
        _ => {},
    }
    if is_true_value(&hidden) || is_true_value(&no_display) {
        return Ok(None);
    }
    let name = match found_value(name) {
        Some(n) => n,
        None => return Err(DesktopError::NoName),
    };
    let command = match found_value(exec) {
        Some(e) => e,
        None => return Err(DesktopError::NoExec),
    };
    Ok(
        Some(
            Session {
                slug,
                name,
                command,
                session_type,
                path: Some(owned(path)),
                xdg_desktop_names: found_value(desktop_names),
            },
        ),
    )
}

/// The section of a session file that describes the session.
pub open spec fn entry_section() -> Seq<char> {
    "Desktop Entry"@
}

/// Reads the session a session file describes, given its path and its text.
pub fn load_desktop_file(path: &str, text: &str, session_type: SessionType) -> (r: Result<
    Option<Session>,
    DesktopError,
>)
    ensures
        desktop_result_view(r) == desktop_session(
            ini_entry(text@, entry_section(), "Hidden"@),
            ini_entry(text@, entry_section(), "NoDisplay"@),
            ini_entry(text@, entry_section(), "Name"@),
            ini_entry(text@, entry_section(), "Exec"@),
            ini_entry(text@, entry_section(), "DesktopNames"@),
            file_stem_of(path@),
            path@,
            session_type,
        ),
{
    let section = "Desktop Entry";
    let hidden = ini_lookup(text, section, "Hidden");
    let no_display = ini_lookup(text, section, "NoDisplay");
    let name = ini_lookup(text, section, "Name");
    let exec = ini_lookup(text, section, "Exec");
    let names = ini_lookup(text, section, "DesktopNames");
    let slug = path_file_stem(path);
    session_from_entry(hidden, no_display, name, exec, names, slug, path, session_type)
}


/// Whether name `a` sorts strictly before name `b`: lexicographic order on the characters'
/// code points, which is the byte order of their UTF-8 encodings that `String` sorts by.
pub open spec fn name_lt(a: Seq<char>, b: Seq<char>) -> bool
    decreases a.len(),
{
    if a.len() == 0 {
        b.len() > 0
    } else if b.len() == 0 {
        false
    } else if a[0] != b[0] {
        a[0] < b[0]
    } else {
        name_lt(a.drop_first(), b.drop_first())
    }
}

/// `x` put into `r` just before the first session whose name sorts after its own.
pub open spec fn insert_by_name(r: Seq<SessionView>, x: SessionView) -> Seq<SessionView>
    decreases r.len(),
{
    if r.len() == 0 {
        seq![x]
    } else if name_lt(x.name, r[0].name) {
        seq![x] + r
    } else {
        seq![r[0]] + insert_by_name(r.drop_first(), x)
    }
}

/// The sessions sorted by name, those with equal names kept in their order.
pub open spec fn sorted_by_name(s: Seq<SessionView>) -> Seq<SessionView>
    decreases s.len(),
{
    if s.len() == 0 {
        s
    } else {
        insert_by_name(sorted_by_name(s.drop_last()), s.last())
    }
}

proof fn lemma_name_lt_skip(a: Seq<char>, b: Seq<char>, i: int)
    requires
        0 <= i <= a.len(),
        i <= b.len(),
        a.take(i) == b.take(i),
    ensures
        name_lt(a, b) == name_lt(a.skip(i), b.skip(i)),
    decreases i,
{
    if i > 0 {
        assert(a[0] == a.take(i)[0]);
        assert(b[0] == b.take(i)[0]);
        assert(a.drop_first().take(i - 1) =~= a.take(i).drop_first());
        assert(b.drop_first().take(i - 1) =~= b.take(i).drop_first());
        lemma_name_lt_skip(a.drop_first(), b.drop_first(), i - 1);
        assert(a.drop_first().skip(i - 1) =~= a.skip(i));
        assert(b.drop_first().skip(i - 1) =~= b.skip(i));
    } else {
        assert(a.skip(0) =~= a);
        assert(b.skip(0) =~= b);
    }
}

/// Whether name `a` sorts strictly before name `b`.
pub fn name_before(a: &str, b: &str) -> (r: bool)
    ensures
        r == name_lt(a@, b@),
{
    let av = chars_of(a);
    let bv = chars_of(b);
    let mut i: usize = 0;
    while i < av.len() && i < bv.len() && av[i] == bv[i]
        invariant
            i <= av@.len(),
            i <= bv@.len(),
            av@ == a@,
            bv@ == b@,
            av@.take(i as int) == bv@.take(i as int),
        decreases av.len() - i,
    {
        assert(av@.take(i + 1) =~= av@.take(i as int).push(av@[i as int]));
        assert(bv@.take(i + 1) =~= bv@.take(i as int).push(bv@[i as int]));
        i = i + 1;
    }
    proof {
        lemma_name_lt_skip(av@, bv@, i as int);
    }
    if i == av.len() {
        i < bv.len()
    } else if i == bv.len() {
        false
    } else {
        av[i] < bv[i]
    }
}

proof fn lemma_insert_at(r: Seq<SessionView>, x: SessionView, p: int)
    requires
        0 <= p <= r.len(),
        forall|k: int| 0 <= k < p ==> !name_lt(x.name, #[trigger] r[k].name),
        p < r.len() ==> name_lt(x.name, r[p].name),
    ensures
        insert_by_name(r, x) == r.take(p) + seq![x] + r.skip(p),
    decreases r.len(),
{
    if r.len() == 0 {
        assert(r.take(p) + seq![x] + r.skip(p) =~= seq![x]);
    } else if p == 0 {
        assert(r.take(p) + seq![x] + r.skip(p) =~= seq![x] + r);
    } else {
        assert forall|k: int| 0 <= k < p - 1 implies !name_lt(x.name, #[trigger] r.drop_first()[k].name) by {
            assert(r.drop_first()[k] == r[k + 1]);
        }
        lemma_insert_at(r.drop_first(), x, p - 1);
        assert(r.take(p) + seq![x] + r.skip(p) =~= seq![r[0]] + (r.drop_first().take(p - 1) + seq![x]
            + r.drop_first().skip(p - 1)));
    }
}

/// The view of a list of sessions.
pub open spec fn sessions_view(v: Seq<Session>) -> Seq<SessionView> {
    v.map_values(|s: Session| s@)
}

/// Sorts sessions by name, keeping those with equal names in their order.
pub fn sort_by_name(sessions: Vec<Session>) -> (r: Vec<Session>)
    ensures
        sessions_view(r@) == sorted_by_name(sessions_view(sessions@)),
{
    let ghost orig = sessions_view(sessions@);
    let mut rest = sessions;
    let mut r: Vec<Session> = Vec::new();
    let mut k: usize = 0;
    let n = rest.len();
    assert(orig.take(0) =~= Seq::<SessionView>::empty());
    assert(orig.skip(0) =~= orig);
    while rest.len() > 0
        invariant
            k + rest@.len() == n,
            n == orig.len(),
            sessions_view(rest@) == orig.skip(k as int),
            sessions_view(r@) == sorted_by_name(orig.take(k as int)),
        decreases rest.len(),
    {
        let ghost old_rest = rest@;
        let x = rest.remove(0);
        assert(rest@ =~= old_rest.drop_first());
        assert(sessions_view(old_rest)[0] == orig.skip(k as int)[0]);
        assert forall|j: int| 0 <= j < rest@.len() implies #[trigger] sessions_view(rest@)[j] == orig.skip(
            k + 1,
        )[j] by {
            assert(sessions_view(old_rest)[j + 1] == orig.skip(k as int)[j + 1]);
        }
        assert(sessions_view(rest@) =~= orig.skip(k + 1));
        assert(x@ == orig[k as int]);
        let ghost rv = sessions_view(r@);
        let mut p: usize = 0;
        while p < r.len() && !name_before(x.name.as_str(), r[p].name.as_str())
            invariant
                p <= r@.len(),
                rv == sessions_view(r@),
                forall|j: int| 0 <= j < p ==> !name_lt(x@.name, #[trigger] rv[j].name),
            decreases r.len() - p,
        {
            p = p + 1;
        }
        proof {
            lemma_insert_at(rv, x@, p as int);
            assert(orig.take(k + 1).drop_last() =~= orig.take(k as int));
        }
        r.insert(p, x);
        assert(sessions_view(r@) =~= rv.take(p as int) + seq![orig[k as int]] + rv.skip(p as int));
        k = k + 1;
    }
    assert(orig.take(k as int) =~= orig);
    r
}

/// The sessions read from session files, sorted by name: files that were refused or skipped
/// give none.
pub open spec fn found_sessions(loaded: Seq<Result<Option<SessionView>, DesktopError>>) -> Seq<
    SessionView,
>
    decreases loaded.len(),
{
    if loaded.len() == 0 {
        Seq::empty()
    } else {
        found_sessions(loaded.drop_last()) + match loaded.last() {
            Ok(Some(s)) => seq![s],
            _ => Seq::empty(),
        }
    }
}

/// The views of what reading each session file gave.
pub open spec fn loaded_view(v: Seq<Result<Option<Session>, DesktopError>>) -> Seq<
    Result<Option<SessionView>, DesktopError>,
> {
    v.map_values(|r: Result<Option<Session>, DesktopError>| desktop_result_view(r))
}

/// The sessions of the menu, from what reading each session file gave, in the order the
/// files were read: the sessions found, sorted by name.
pub fn collect_sessions(loaded: Vec<Result<Option<Session>, DesktopError>>) -> (r: Vec<Session>)
    ensures
        sessions_view(r@) == sorted_by_name(found_sessions(loaded_view(loaded@))),
{
    let ghost lv = loaded_view(loaded@);
    let mut rest = loaded;
    let mut found: Vec<Session> = Vec::new();
    let mut k: usize = 0;
    let n = rest.len();
    assert(lv.skip(0) =~= lv);
    assert(lv.take(0) =~= Seq::<Result<Option<SessionView>, DesktopError>>::empty());
    while rest.len() > 0
        invariant
            k + rest@.len() == n,
            n == lv.len(),
            loaded_view(rest@) == lv.skip(k as int),
            sessions_view(found@) == found_sessions(lv.take(k as int)),
        decreases rest.len(),
    {
        let ghost old_rest = rest@;
        let item = rest.remove(0);
        assert(rest@ =~= old_rest.drop_first());
        assert(loaded_view(old_rest)[0] == lv.skip(k as int)[0]);
        assert forall|j: int| 0 <= j < rest@.len() implies #[trigger] loaded_view(rest@)[j] == lv.skip(
            k + 1,
        )[j] by {
            assert(loaded_view(old_rest)[j + 1] == lv.skip(k as int)[j + 1]);
        }
        assert(loaded_view(rest@) =~= lv.skip(k + 1));
        assert(desktop_result_view(item) == lv[k as int]);
        assert(lv.take(k + 1).drop_last() =~= lv.take(k as int));
        let ghost before = sessions_view(found@);
        if let Ok(Some(s)) = item {
            found.push(s);
        }
        assert(sessions_view(found@) =~= found_sessions(lv.take(k + 1)));
        k = k + 1;
    }
    assert(lv.take(k as int) =~= lv);
    sort_by_name(found)
}


// ---------------------------------------------------------------- laws

/// Whether sessions are in order of their names.
pub open spec fn name_sorted(s: Seq<SessionView>) -> bool {
    forall|i: int, j: int| 0 <= i < j < s.len() ==> !name_lt(#[trigger] s[j].name, #[trigger] s[i].name)
}

proof fn lemma_name_lt_asymmetric(a: Seq<char>, b: Seq<char>)
    requires
        name_lt(a, b),
    ensures
        !name_lt(b, a),
    decreases a.len(),
{
    if a.len() > 0 && b.len() > 0 && a[0] == b[0] {
        lemma_name_lt_asymmetric(a.drop_first(), b.drop_first());
    }
}

proof fn lemma_name_lt_transitive(a: Seq<char>, b: Seq<char>, c: Seq<char>)
    requires
        name_lt(a, b),
        name_lt(b, c),
    ensures
        name_lt(a, c),
    decreases a.len(),
{
    if a.len() > 0 && b.len() > 0 && c.len() > 0 && a[0] == b[0] && b[0] == c[0] {
        lemma_name_lt_transitive(a.drop_first(), b.drop_first(), c.drop_first());
    }
}

proof fn lemma_insert_by_name(r: Seq<SessionView>, x: SessionView)
    ensures
        insert_by_name(r, x).to_multiset() == r.to_multiset().insert(x),
        name_sorted(r) ==> name_sorted(insert_by_name(r, x)),
    decreases r.len(),
{
    broadcast use vstd::seq_lib::group_to_multiset_ensures;
    broadcast use vstd::multiset::group_multiset_axioms;

    let ins = insert_by_name(r, x);
    if r.len() == 0 {
        assert(ins =~= Seq::<SessionView>::empty().push(x));
        assert(ins.to_multiset() =~= r.to_multiset().insert(x));
    } else if name_lt(x.name, r[0].name) {
        assert(ins =~= r.insert(0, x));
        if name_sorted(r) {
            assert forall|i: int, j: int| 0 <= i < j < ins.len() implies !name_lt(
                #[trigger] ins[j].name,
                #[trigger] ins[i].name,
            ) by {
                if i == 0 {
                    assert(ins[j] == r[j - 1]);
                    if name_lt(r[j - 1].name, x.name) {
                        if j - 1 == 0 {
                            lemma_name_lt_asymmetric(x.name, r[0].name);
                        } else {
                            lemma_name_lt_transitive(r[j - 1].name, x.name, r[0].name);
                        }
                    }
                } else {
                    assert(ins[i] == r[i - 1] && ins[j] == r[j - 1]);
                }
            }
        }
    } else {
        let rest = r.drop_first();
        let sub = insert_by_name(rest, x);
        lemma_insert_by_name(rest, x);
        assert(ins =~= sub.insert(0, r[0]));
        assert(r =~= rest.insert(0, r[0]));
        assert(ins.to_multiset() =~= r.to_multiset().insert(x));
        if name_sorted(r) {
            assert(name_sorted(rest)) by {
                assert forall|i: int, j: int| 0 <= i < j < rest.len() implies !name_lt(
                    #[trigger] rest[j].name,
                    #[trigger] rest[i].name,
                ) by {
                    assert(rest[i] == r[i + 1] && rest[j] == r[j + 1]);
                }
            }
            assert forall|i: int, j: int| 0 <= i < j < ins.len() implies !name_lt(
                #[trigger] ins[j].name,
                #[trigger] ins[i].name,
            ) by {
                if i == 0 {
                    let e = sub[j - 1];
                    assert(ins[j] == e);
                    assert(sub.to_multiset().count(e) > 0);
                    if e != x {
                        assert(rest.to_multiset().count(e) > 0);
                        assert(rest.contains(e));
                        let k = choose|k: int| 0 <= k < rest.len() && rest[k] == e;
                        assert(r[k + 1] == e);
                    }
                } else {
                    assert(ins[i] == sub[i - 1] && ins[j] == sub[j - 1]);
                }
            }
        }
    }
}

/// Sorting sessions by name puts them in order of their names and keeps every
/// session, each as often as it came.
pub proof fn lemma_sorted_by_name(s: Seq<SessionView>)
    ensures
        name_sorted(sorted_by_name(s)),
        sorted_by_name(s).to_multiset() == s.to_multiset(),
    decreases s.len(),
{
    broadcast use vstd::seq_lib::group_to_multiset_ensures;

    if s.len() > 0 {
        lemma_sorted_by_name(s.drop_last());
        lemma_insert_by_name(sorted_by_name(s.drop_last()), s.last());
        assert(s =~= s.drop_last().push(s.last()));
    } else {
        assert(sorted_by_name(s) =~= s);
    }
}


/// The sessions called `n`, as a predicate.
pub open spec fn named(n: Seq<char>) -> spec_fn(SessionView) -> bool {
    |v: SessionView| v.name == n
}

proof fn lemma_filter_single(x: SessionView, p: spec_fn(SessionView) -> bool)
    ensures
        seq![x].filter(p) == if p(x) { seq![x] } else { Seq::<SessionView>::empty() },
{
    reveal(Seq::filter);
    assert(seq![x].drop_last() =~= Seq::<SessionView>::empty());
    assert(Seq::<SessionView>::empty().filter(p) =~= Seq::<SessionView>::empty());
}

proof fn lemma_filter_none(r: Seq<SessionView>, p: spec_fn(SessionView) -> bool)
    requires
        forall|i: int| 0 <= i < r.len() ==> !p(#[trigger] r[i]),
    ensures
        r.filter(p) == Seq::<SessionView>::empty(),
    decreases r.len(),
{
    reveal(Seq::filter);
    if r.len() > 0 {
        assert forall|i: int| 0 <= i < r.drop_last().len() implies !p(#[trigger] r.drop_last()[i]) by {
            assert(r.drop_last()[i] == r[i]);
        }
        lemma_filter_none(r.drop_last(), p);
        assert(!p(r[r.len() - 1]));
    }
}

proof fn lemma_insert_keeps_order(r: Seq<SessionView>, x: SessionView, n: Seq<char>)
    requires
        name_sorted(r),
    ensures
        insert_by_name(r, x).filter(named(n)) == if x.name == n {
            r.filter(named(n)).push(x)
        } else {
            r.filter(named(n))
        },
    decreases r.len(),
{
    let p = named(n);
    lemma_filter_single(x, p);
    if r.len() == 0 {
        reveal(Seq::filter);
        assert(r.filter(p) =~= Seq::<SessionView>::empty());
    } else if name_lt(x.name, r[0].name) {
        Seq::filter_distributes_over_add(seq![x], r, p);
        if x.name == n {
            assert forall|i: int| 0 <= i < r.len() implies !p(#[trigger] r[i]) by {
                lemma_name_lt_irreflexive(n);
                if r[i].name == n && i > 0 {
                    lemma_name_lt_total(r[0].name, r[i].name);
                    if name_lt(r[0].name, r[i].name) {
                        lemma_name_lt_transitive(x.name, r[0].name, r[i].name);
                    }
                }
            }
            lemma_filter_none(r, p);
            assert(seq![x] + Seq::<SessionView>::empty() =~= Seq::<SessionView>::empty().push(x));
        } else {
            assert(Seq::<SessionView>::empty() + r.filter(p) =~= r.filter(p));
        }
    } else {
        let rest = r.drop_first();
        assert(name_sorted(rest)) by {
            assert forall|i: int, j: int| 0 <= i < j < rest.len() implies !name_lt(
                #[trigger] rest[j].name,
                #[trigger] rest[i].name,
            ) by {
                assert(rest[i] == r[i + 1] && rest[j] == r[j + 1]);
            }
        }
        lemma_insert_keeps_order(rest, x, n);
        assert(r =~= seq![r[0]] + rest);
        Seq::filter_distributes_over_add(seq![r[0]], insert_by_name(rest, x), p);
        Seq::filter_distributes_over_add(seq![r[0]], rest, p);
        lemma_filter_single(r[0], p);
        if x.name == n {
            assert(seq![r[0]].filter(p) + rest.filter(p).push(x) =~= (seq![r[0]].filter(p)
                + rest.filter(p)).push(x));
        }
    }
}

proof fn lemma_name_lt_irreflexive(a: Seq<char>)
    ensures
        !name_lt(a, a),
    decreases a.len(),
{
    if a.len() > 0 {
        lemma_name_lt_irreflexive(a.drop_first());
    }
}

proof fn lemma_name_lt_total(a: Seq<char>, b: Seq<char>)
    ensures
        name_lt(a, b) || name_lt(b, a) || a == b,
    decreases a.len(),
{
    if a.len() > 0 && b.len() > 0 && a[0] == b[0] {
        lemma_name_lt_total(a.drop_first(), b.drop_first());
        if a.drop_first() == b.drop_first() {
            assert(a.len() == b.len());
            assert forall|i: int| 0 <= i < a.len() implies a[i] == b[i] by {
                if i > 0 {
                    assert(a[i] == a.drop_first()[i - 1]);
                    assert(b[i] == b.drop_first()[i - 1]);
                }
            }
            assert(a =~= b);
        }
    } else if a.len() == 0 && b.len() == 0 {
        assert(a =~= b);
    } else if a.len() > 0 && b.len() > 0 {
        assert(a[0] < b[0] || b[0] < a[0]);
    }
}

/// Sorting keeps sessions with the same name in the order they came in.
pub proof fn lemma_sort_is_stable(s: Seq<SessionView>, n: Seq<char>)
    ensures
        sorted_by_name(s).filter(named(n)) == s.filter(named(n)),
    decreases s.len(),
{
    reveal(Seq::filter);
    if s.len() > 0 {
        lemma_sort_is_stable(s.drop_last(), n);
        lemma_sorted_by_name(s.drop_last());
        lemma_insert_keeps_order(sorted_by_name(s.drop_last()), s.last(), n);
    } else {
        assert(sorted_by_name(s) =~= s);
    }
}

/// Whether `s` holds no backslash.
pub open spec fn no_backslash(s: Seq<char>) -> bool {
    forall|k: int| 0 <= k < s.len() ==> s[k] != '\\'
}

/// A pattern that starts with a backslash finds nothing in text without one.
proof fn lemma_replace_no_backslash(s: Seq<char>, pat: Seq<char>, rep: Seq<char>)
    requires
        no_backslash(s),
        pat.len() > 0,
        pat[0] == '\\',
    ensures
        replace(s, pat, rep) == s,
    decreases s.len(),
{
    if s.len() >= pat.len() {
        assert(s.take(pat.len() as int)[0] != pat[0]);
        let t = s.drop_first();
        assert forall|k: int| 0 <= k < t.len() implies t[k] != '\\' by {
            assert(t[k] == s[k + 1]);
        }
        lemma_replace_no_backslash(t, pat, rep);
        assert(seq![s[0]] + t =~= s);
    }
}

/// Text without a backslash in front of the rest passes through untouched.
proof fn lemma_replace_after_plain(a: Seq<char>, t: Seq<char>, pat: Seq<char>, rep: Seq<char>)
    requires
        no_backslash(a),
        pat.len() > 0,
        pat[0] == '\\',
    ensures
        replace(a + t, pat, rep) == a + replace(t, pat, rep),
    decreases a.len(),
{
    if a.len() == 0 {
        assert(a + t =~= t);
        assert(a + replace(t, pat, rep) =~= replace(t, pat, rep));
    } else {
        let s = a + t;
        if s.len() < pat.len() {
            assert(t.len() < pat.len());
        } else {
            assert(s.take(pat.len() as int)[0] == a[0]);
            let r = a.drop_first();
            assert forall|k: int| 0 <= k < r.len() implies r[k] != '\\' by {
                assert(r[k] == a[k + 1]);
            }
            assert(s.drop_first() =~= r + t);
            lemma_replace_after_plain(r, t, pat, rep);
            assert(seq![s[0]] + (r + replace(t, pat, rep)) =~= a + replace(t, pat, rep));
        }
    }
}

/// One replacement over text holding a single escape `\c`: the escape's own pattern
/// puts its value in place, any other pattern leaves the text as it is.
proof fn lemma_replace_one_escape(a: Seq<char>, c: char, b: Seq<char>, pat: Seq<char>, rep: Seq<char>)
    requires
        no_backslash(a),
        no_backslash(b),
        c != '\\',
        pat.len() >= 2,
        pat[0] == '\\',
        pat.len() == 2 || pat[1] != c,
    ensures
        pat.len() == 2 && pat[1] == c ==> replace(a + seq!['\\', c] + b, pat, rep) == a + rep + b,
        pat[1] != c ==> replace(a + seq!['\\', c] + b, pat, rep) == a + seq!['\\', c] + b,
{
    let e = seq!['\\', c];
    let t = e + b;
    assert(a + e + b =~= a + t);
    lemma_replace_after_plain(a, t, pat, rep);
    let cb = seq![c] + b;
    assert forall|k: int| 0 <= k < cb.len() implies cb[k] != '\\' by {
        if k > 0 {
            assert(cb[k] == b[k - 1]);
        }
    }
    assert(t.drop_first() =~= cb);
    if pat.len() == 2 && pat[1] == c {
        assert(pat =~= e);
        assert(t.take(2) =~= e);
        assert(t.skip(2) =~= b);
        lemma_replace_no_backslash(b, pat, rep);
        assert(a + (rep + b) =~= a + rep + b);
    } else if pat[1] != c {
        if t.len() >= pat.len() {
            assert(t.take(pat.len() as int)[1] == c);
            assert(t.take(pat.len() as int) != pat);
            lemma_replace_no_backslash(cb, pat, rep);
            assert(seq![t[0]] + cb =~= t);
        }
        assert(a + t =~= a + e + b);
    }
}

proof fn lemma_issue_escape_v(a: Seq<char>, b: Seq<char>, i: IssueInfo)
    requires
        no_backslash(a),
        no_backslash(b),
        no_backslash(i.version@),
    ensures
        issue_text(a + "\\v"@ + b, i) == a + i.version@ + b,
{
    reveal_strlit("\\S");
    reveal_strlit("\\l");
    reveal_strlit("\\d");
    reveal_strlit("\\t");
    reveal_strlit("\\U");
    reveal_strlit("\\s");
    reveal_strlit("\\r");
    reveal_strlit("\\v");
    reveal_strlit("\\n");
    reveal_strlit("\\m");
    reveal_strlit("\\o");
    reveal_strlit("\\x1b");
    reveal_strlit("\\033");
    reveal_strlit("\\e");
    reveal_strlit("\\\\");
    let s0 = a + seq!['\\', 'v'] + b;
    assert(a + "\\v"@ + b == s0);
    let s1 = a + i.version@ + b;
    assert forall|k: int| 0 <= k < s1.len() implies s1[k] != '\\' by {
        if k < a.len() {
            assert(s1[k] == a[k]);
        } else if k < a.len() + i.version@.len() {
            assert(s1[k] == i.version@[k - a.len()]);
        } else {
            assert(s1[k] == b[k - a.len() - i.version@.len()]);
        }
    }
    lemma_replace_one_escape(a, 'v', b, "\\S"@, "Linux"@);
    lemma_replace_one_escape(a, 'v', b, "\\l"@, "tty"@ + decimal(i.vtnr as nat));
    lemma_replace_one_escape(a, 'v', b, "\\d"@, i.date@);
    lemma_replace_one_escape(a, 'v', b, "\\t"@, i.time@);
    lemma_replace_one_escape(a, 'v', b, "\\U"@, "0 user"@);
    lemma_replace_one_escape(a, 'v', b, "\\s"@, i.sysname@);
    lemma_replace_one_escape(a, 'v', b, "\\r"@, i.release@);
    lemma_replace_one_escape(a, 'v', b, "\\v"@, i.version@);
    lemma_replace_no_backslash(s1, "\\n"@, i.nodename@);
    lemma_replace_no_backslash(s1, "\\m"@, i.machine@);
    lemma_replace_no_backslash(s1, "\\o"@, i.domainname@);
    lemma_replace_no_backslash(s1, "\\x1b"@, "\x1b"@);
    lemma_replace_no_backslash(s1, "\\033"@, "\x1b"@);
    lemma_replace_no_backslash(s1, "\\e"@, "\x1b"@);
    lemma_replace_no_backslash(s1, "\\\\"@, "\\"@);
}

proof fn lemma_issue_escape_r(a: Seq<char>, b: Seq<char>, i: IssueInfo)
    requires
        no_backslash(a),
        no_backslash(b),
        no_backslash(i.release@),
    ensures
        issue_text(a + "\\r"@ + b, i) == a + i.release@ + b,
{
    reveal_strlit("\\S");
    reveal_strlit("\\l");
    reveal_strlit("\\d");
    reveal_strlit("\\t");
    reveal_strlit("\\U");
    reveal_strlit("\\s");
    reveal_strlit("\\r");
    reveal_strlit("\\v");
    reveal_strlit("\\n");
    reveal_strlit("\\m");
    reveal_strlit("\\o");
    reveal_strlit("\\x1b");
    reveal_strlit("\\033");
    reveal_strlit("\\e");
    reveal_strlit("\\\\");
    let s0 = a + seq!['\\', 'r'] + b;
    assert(a + "\\r"@ + b == s0);
    let s1 = a + i.release@ + b;
    assert forall|k: int| 0 <= k < s1.len() implies s1[k] != '\\' by {
        if k < a.len() {
            assert(s1[k] == a[k]);
        } else if k < a.len() + i.release@.len() {
            assert(s1[k] == i.release@[k - a.len()]);
        } else {
            assert(s1[k] == b[k - a.len() - i.release@.len()]);
        }
    }
    lemma_replace_one_escape(a, 'r', b, "\\S"@, "Linux"@);
    lemma_replace_one_escape(a, 'r', b, "\\l"@, "tty"@ + decimal(i.vtnr as nat));
    lemma_replace_one_escape(a, 'r', b, "\\d"@, i.date@);
    lemma_replace_one_escape(a, 'r', b, "\\t"@, i.time@);
    lemma_replace_one_escape(a, 'r', b, "\\U"@, "0 user"@);
    lemma_replace_one_escape(a, 'r', b, "\\s"@, i.sysname@);
    lemma_replace_one_escape(a, 'r', b, "\\r"@, i.release@);
    lemma_replace_no_backslash(s1, "\\v"@, i.version@);
    lemma_replace_no_backslash(s1, "\\n"@, i.nodename@);
    lemma_replace_no_backslash(s1, "\\m"@, i.machine@);
    lemma_replace_no_backslash(s1, "\\o"@, i.domainname@);
    lemma_replace_no_backslash(s1, "\\x1b"@, "\x1b"@);
    lemma_replace_no_backslash(s1, "\\033"@, "\x1b"@);
    lemma_replace_no_backslash(s1, "\\e"@, "\x1b"@);
    lemma_replace_no_backslash(s1, "\\\\"@, "\\"@);
}

proof fn lemma_issue_escape_s(a: Seq<char>, b: Seq<char>, i: IssueInfo)
    requires
        no_backslash(a),
        no_backslash(b),
        no_backslash(i.sysname@),
    ensures
        issue_text(a + "\\s"@ + b, i) == a + i.sysname@ + b,
{
    reveal_strlit("\\S");
    reveal_strlit("\\l");
    reveal_strlit("\\d");
    reveal_strlit("\\t");
    reveal_strlit("\\U");
    reveal_strlit("\\s");
    reveal_strlit("\\r");
    reveal_strlit("\\v");
    reveal_strlit("\\n");
    reveal_strlit("\\m");
    reveal_strlit("\\o");
    reveal_strlit("\\x1b");
    reveal_strlit("\\033");
    reveal_strlit("\\e");
    reveal_strlit("\\\\");
    let s0 = a + seq!['\\', 's'] + b;
    assert(a + "\\s"@ + b == s0);
    let s1 = a + i.sysname@ + b;
    assert forall|k: int| 0 <= k < s1.len() implies s1[k] != '\\' by {
        if k < a.len() {
            assert(s1[k] == a[k]);
        } else if k < a.len() + i.sysname@.len() {
            assert(s1[k] == i.sysname@[k - a.len()]);
        } else {
            assert(s1[k] == b[k - a.len() - i.sysname@.len()]);
        }
    }
    lemma_replace_one_escape(a, 's', b, "\\S"@, "Linux"@);
    lemma_replace_one_escape(a, 's', b, "\\l"@, "tty"@ + decimal(i.vtnr as nat));
    lemma_replace_one_escape(a, 's', b, "\\d"@, i.date@);
    lemma_replace_one_escape(a, 's', b, "\\t"@, i.time@);
    lemma_replace_one_escape(a, 's', b, "\\U"@, "0 user"@);
    lemma_replace_one_escape(a, 's', b, "\\s"@, i.sysname@);
    lemma_replace_no_backslash(s1, "\\r"@, i.release@);
    lemma_replace_no_backslash(s1, "\\v"@, i.version@);
    lemma_replace_no_backslash(s1, "\\n"@, i.nodename@);
    lemma_replace_no_backslash(s1, "\\m"@, i.machine@);
    lemma_replace_no_backslash(s1, "\\o"@, i.domainname@);
    lemma_replace_no_backslash(s1, "\\x1b"@, "\x1b"@);
    lemma_replace_no_backslash(s1, "\\033"@, "\x1b"@);
    lemma_replace_no_backslash(s1, "\\e"@, "\x1b"@);
    lemma_replace_no_backslash(s1, "\\\\"@, "\\"@);
}

proof fn lemma_issue_escape_n(a: Seq<char>, b: Seq<char>, i: IssueInfo)
    requires
        no_backslash(a),
        no_backslash(b),
        no_backslash(i.nodename@),
    ensures
        issue_text(a + "\\n"@ + b, i) == a + i.nodename@ + b,
{
    reveal_strlit("\\S");
    reveal_strlit("\\l");
    reveal_strlit("\\d");
    reveal_strlit("\\t");
    reveal_strlit("\\U");
    reveal_strlit("\\s");
    reveal_strlit("\\r");
    reveal_strlit("\\v");
    reveal_strlit("\\n");
    reveal_strlit("\\m");
    reveal_strlit("\\o");
    reveal_strlit("\\x1b");
    reveal_strlit("\\033");
    reveal_strlit("\\e");
    reveal_strlit("\\\\");
    let s0 = a + seq!['\\', 'n'] + b;
    assert(a + "\\n"@ + b == s0);
    let s1 = a + i.nodename@ + b;
    assert forall|k: int| 0 <= k < s1.len() implies s1[k] != '\\' by {
        if k < a.len() {
            assert(s1[k] == a[k]);
        } else if k < a.len() + i.nodename@.len() {
            assert(s1[k] == i.nodename@[k - a.len()]);
        } else {
            assert(s1[k] == b[k - a.len() - i.nodename@.len()]);
        }
    }
    lemma_replace_one_escape(a, 'n', b, "\\S"@, "Linux"@);
    lemma_replace_one_escape(a, 'n', b, "\\l"@, "tty"@ + decimal(i.vtnr as nat));
    lemma_replace_one_escape(a, 'n', b, "\\d"@, i.date@);
    lemma_replace_one_escape(a, 'n', b, "\\t"@, i.time@);
    lemma_replace_one_escape(a, 'n', b, "\\U"@, "0 user"@);
    lemma_replace_one_escape(a, 'n', b, "\\s"@, i.sysname@);
    lemma_replace_one_escape(a, 'n', b, "\\r"@, i.release@);
    lemma_replace_one_escape(a, 'n', b, "\\v"@, i.version@);
    lemma_replace_one_escape(a, 'n', b, "\\n"@, i.nodename@);
    lemma_replace_no_backslash(s1, "\\m"@, i.machine@);
    lemma_replace_no_backslash(s1, "\\o"@, i.domainname@);
    lemma_replace_no_backslash(s1, "\\x1b"@, "\x1b"@);
    lemma_replace_no_backslash(s1, "\\033"@, "\x1b"@);
    lemma_replace_no_backslash(s1, "\\e"@, "\x1b"@);
    lemma_replace_no_backslash(s1, "\\\\"@, "\\"@);
}

proof fn lemma_issue_escape_m(a: Seq<char>, b: Seq<char>, i: IssueInfo)
    requires
        no_backslash(a),
        no_backslash(b),
        no_backslash(i.machine@),
    ensures
        issue_text(a + "\\m"@ + b, i) == a + i.machine@ + b,
{
    reveal_strlit("\\S");
    reveal_strlit("\\l");
    reveal_strlit("\\d");
    reveal_strlit("\\t");
    reveal_strlit("\\U");
    reveal_strlit("\\s");
    reveal_strlit("\\r");
    reveal_strlit("\\v");
    reveal_strlit("\\n");
    reveal_strlit("\\m");
    reveal_strlit("\\o");
    reveal_strlit("\\x1b");
    reveal_strlit("\\033");
    reveal_strlit("\\e");
    reveal_strlit("\\\\");
    let s0 = a + seq!['\\', 'm'] + b;
    assert(a + "\\m"@ + b == s0);
    let s1 = a + i.machine@ + b;
    assert forall|k: int| 0 <= k < s1.len() implies s1[k] != '\\' by {
        if k < a.len() {
            assert(s1[k] == a[k]);
        } else if k < a.len() + i.machine@.len() {
            assert(s1[k] == i.machine@[k - a.len()]);
        } else {
            assert(s1[k] == b[k - a.len() - i.machine@.len()]);
        }
    }
    lemma_replace_one_escape(a, 'm', b, "\\S"@, "Linux"@);
    lemma_replace_one_escape(a, 'm', b, "\\l"@, "tty"@ + decimal(i.vtnr as nat));
    lemma_replace_one_escape(a, 'm', b, "\\d"@, i.date@);
    lemma_replace_one_escape(a, 'm', b, "\\t"@, i.time@);
    lemma_replace_one_escape(a, 'm', b, "\\U"@, "0 user"@);
    lemma_replace_one_escape(a, 'm', b, "\\s"@, i.sysname@);
    lemma_replace_one_escape(a, 'm', b, "\\r"@, i.release@);
    lemma_replace_one_escape(a, 'm', b, "\\v"@, i.version@);
    lemma_replace_one_escape(a, 'm', b, "\\n"@, i.nodename@);
    lemma_replace_one_escape(a, 'm', b, "\\m"@, i.machine@);
    lemma_replace_no_backslash(s1, "\\o"@, i.domainname@);
    lemma_replace_no_backslash(s1, "\\x1b"@, "\x1b"@);
    lemma_replace_no_backslash(s1, "\\033"@, "\x1b"@);
    lemma_replace_no_backslash(s1, "\\e"@, "\x1b"@);
    lemma_replace_no_backslash(s1, "\\\\"@, "\\"@);
}

proof fn lemma_issue_escape_o(a: Seq<char>, b: Seq<char>, i: IssueInfo)
    requires
        no_backslash(a),
        no_backslash(b),
        no_backslash(i.domainname@),
    ensures
        issue_text(a + "\\o"@ + b, i) == a + i.domainname@ + b,
{
    reveal_strlit("\\S");
    reveal_strlit("\\l");
    reveal_strlit("\\d");
    reveal_strlit("\\t");
    reveal_strlit("\\U");
    reveal_strlit("\\s");
    reveal_strlit("\\r");
    reveal_strlit("\\v");
    reveal_strlit("\\n");
    reveal_strlit("\\m");
    reveal_strlit("\\o");
    reveal_strlit("\\x1b");
    reveal_strlit("\\033");
    reveal_strlit("\\e");
    reveal_strlit("\\\\");
    let s0 = a + seq!['\\', 'o'] + b;
    assert(a + "\\o"@ + b == s0);
    let s1 = a + i.domainname@ + b;
    assert forall|k: int| 0 <= k < s1.len() implies s1[k] != '\\' by {
        if k < a.len() {
            assert(s1[k] == a[k]);
        } else if k < a.len() + i.domainname@.len() {
            assert(s1[k] == i.domainname@[k - a.len()]);
        } else {
            assert(s1[k] == b[k - a.len() - i.domainname@.len()]);
        }
    }
    lemma_replace_one_escape(a, 'o', b, "\\S"@, "Linux"@);
    lemma_replace_one_escape(a, 'o', b, "\\l"@, "tty"@ + decimal(i.vtnr as nat));
    lemma_replace_one_escape(a, 'o', b, "\\d"@, i.date@);
    lemma_replace_one_escape(a, 'o', b, "\\t"@, i.time@);
    lemma_replace_one_escape(a, 'o', b, "\\U"@, "0 user"@);
    lemma_replace_one_escape(a, 'o', b, "\\s"@, i.sysname@);
    lemma_replace_one_escape(a, 'o', b, "\\r"@, i.release@);
    lemma_replace_one_escape(a, 'o', b, "\\v"@, i.version@);
    lemma_replace_one_escape(a, 'o', b, "\\n"@, i.nodename@);
    lemma_replace_one_escape(a, 'o', b, "\\m"@, i.machine@);
    lemma_replace_one_escape(a, 'o', b, "\\o"@, i.domainname@);
    lemma_replace_no_backslash(s1, "\\x1b"@, "\x1b"@);
    lemma_replace_no_backslash(s1, "\\033"@, "\x1b"@);
    lemma_replace_no_backslash(s1, "\\e"@, "\x1b"@);
    lemma_replace_no_backslash(s1, "\\\\"@, "\\"@);
}

proof fn lemma_issue_escape_d(a: Seq<char>, b: Seq<char>, i: IssueInfo)
    requires
        no_backslash(a),
        no_backslash(b),
        no_backslash(i.date@),
    ensures
        issue_text(a + "\\d"@ + b, i) == a + i.date@ + b,
{
    reveal_strlit("\\S");
    reveal_strlit("\\l");
    reveal_strlit("\\d");
    reveal_strlit("\\t");
    reveal_strlit("\\U");
    reveal_strlit("\\s");
    reveal_strlit("\\r");
    reveal_strlit("\\v");
    reveal_strlit("\\n");
    reveal_strlit("\\m");
    reveal_strlit("\\o");
    reveal_strlit("\\x1b");
    reveal_strlit("\\033");
    reveal_strlit("\\e");
    reveal_strlit("\\\\");
    let s0 = a + seq!['\\', 'd'] + b;
    assert(a + "\\d"@ + b == s0);
    let s1 = a + i.date@ + b;
    assert forall|k: int| 0 <= k < s1.len() implies s1[k] != '\\' by {
        if k < a.len() {
            assert(s1[k] == a[k]);
        } else if k < a.len() + i.date@.len() {
            assert(s1[k] == i.date@[k - a.len()]);
        } else {
            assert(s1[k] == b[k - a.len() - i.date@.len()]);
        }
    }
    lemma_replace_one_escape(a, 'd', b, "\\S"@, "Linux"@);
    lemma_replace_one_escape(a, 'd', b, "\\l"@, "tty"@ + decimal(i.vtnr as nat));
    lemma_replace_one_escape(a, 'd', b, "\\d"@, i.date@);
    lemma_replace_no_backslash(s1, "\\t"@, i.time@);
    lemma_replace_no_backslash(s1, "\\U"@, "0 user"@);
    lemma_replace_no_backslash(s1, "\\s"@, i.sysname@);
    lemma_replace_no_backslash(s1, "\\r"@, i.release@);
    lemma_replace_no_backslash(s1, "\\v"@, i.version@);
    lemma_replace_no_backslash(s1, "\\n"@, i.nodename@);
    lemma_replace_no_backslash(s1, "\\m"@, i.machine@);
    lemma_replace_no_backslash(s1, "\\o"@, i.domainname@);
    lemma_replace_no_backslash(s1, "\\x1b"@, "\x1b"@);
    lemma_replace_no_backslash(s1, "\\033"@, "\x1b"@);
    lemma_replace_no_backslash(s1, "\\e"@, "\x1b"@);
    lemma_replace_no_backslash(s1, "\\\\"@, "\\"@);
}

proof fn lemma_issue_escape_t(a: Seq<char>, b: Seq<char>, i: IssueInfo)
    requires
        no_backslash(a),
        no_backslash(b),
        no_backslash(i.time@),
    ensures
        issue_text(a + "\\t"@ + b, i) == a + i.time@ + b,
{
    reveal_strlit("\\S");
    reveal_strlit("\\l");
    reveal_strlit("\\d");
    reveal_strlit("\\t");
    reveal_strlit("\\U");
    reveal_strlit("\\s");
    reveal_strlit("\\r");
    reveal_strlit("\\v");
    reveal_strlit("\\n");
    reveal_strlit("\\m");
    reveal_strlit("\\o");
    reveal_strlit("\\x1b");
    reveal_strlit("\\033");
    reveal_strlit("\\e");
    reveal_strlit("\\\\");
    let s0 = a + seq!['\\', 't'] + b;
    assert(a + "\\t"@ + b == s0);
    let s1 = a + i.time@ + b;
    assert forall|k: int| 0 <= k < s1.len() implies s1[k] != '\\' by {
        if k < a.len() {
            assert(s1[k] == a[k]);
        } else if k < a.len() + i.time@.len() {
            assert(s1[k] == i.time@[k - a.len()]);
        } else {
            assert(s1[k] == b[k - a.len() - i.time@.len()]);
        }
    }
    lemma_replace_one_escape(a, 't', b, "\\S"@, "Linux"@);
    lemma_replace_one_escape(a, 't', b, "\\l"@, "tty"@ + decimal(i.vtnr as nat));
    lemma_replace_one_escape(a, 't', b, "\\d"@, i.date@);
    lemma_replace_one_escape(a, 't', b, "\\t"@, i.time@);
    lemma_replace_no_backslash(s1, "\\U"@, "0 user"@);
    lemma_replace_no_backslash(s1, "\\s"@, i.sysname@);
    lemma_replace_no_backslash(s1, "\\r"@, i.release@);
    lemma_replace_no_backslash(s1, "\\v"@, i.version@);
    lemma_replace_no_backslash(s1, "\\n"@, i.nodename@);
    lemma_replace_no_backslash(s1, "\\m"@, i.machine@);
    lemma_replace_no_backslash(s1, "\\o"@, i.domainname@);
    lemma_replace_no_backslash(s1, "\\x1b"@, "\x1b"@);
    lemma_replace_no_backslash(s1, "\\033"@, "\x1b"@);
    lemma_replace_no_backslash(s1, "\\e"@, "\x1b"@);
    lemma_replace_no_backslash(s1, "\\\\"@, "\\"@);
}

/// Expanding the issue banner: text without a backslash comes out as it is, and a
/// single escape in such text is replaced by what it stands for: `\\v` by the kernel
/// version, `\\r` by the kernel release, `\\s` by the system name, `\\n` by the node
/// name, `\\m` by the machine, `\\o` by the domain name, `\\d` by the date and `\\t`
/// by the time (where that value holds no backslash itself).
pub proof fn lemma_issue_escapes(a: Seq<char>, b: Seq<char>, i: IssueInfo)
    requires
        no_backslash(a),
        no_backslash(b),
    ensures
        issue_text(a + b, i) == a + b,
        no_backslash(i.version@) ==> issue_text(a + "\\v"@ + b, i) == a + i.version@ + b,
        no_backslash(i.release@) ==> issue_text(a + "\\r"@ + b, i) == a + i.release@ + b,
        no_backslash(i.sysname@) ==> issue_text(a + "\\s"@ + b, i) == a + i.sysname@ + b,
        no_backslash(i.nodename@) ==> issue_text(a + "\\n"@ + b, i) == a + i.nodename@ + b,
        no_backslash(i.machine@) ==> issue_text(a + "\\m"@ + b, i) == a + i.machine@ + b,
        no_backslash(i.domainname@) ==> issue_text(a + "\\o"@ + b, i) == a + i.domainname@ + b,
        no_backslash(i.date@) ==> issue_text(a + "\\d"@ + b, i) == a + i.date@ + b,
        no_backslash(i.time@) ==> issue_text(a + "\\t"@ + b, i) == a + i.time@ + b,
{
    let s = a + b;
    assert forall|k: int| 0 <= k < s.len() implies s[k] != '\\' by {
        if k < a.len() {
            assert(s[k] == a[k]);
        } else {
            assert(s[k] == b[k - a.len()]);
        }
    }
    reveal_strlit("\\S");
    reveal_strlit("\\l");
    reveal_strlit("\\d");
    reveal_strlit("\\t");
    reveal_strlit("\\U");
    reveal_strlit("\\s");
    reveal_strlit("\\r");
    reveal_strlit("\\v");
    reveal_strlit("\\n");
    reveal_strlit("\\m");
    reveal_strlit("\\o");
    reveal_strlit("\\x1b");
    reveal_strlit("\\033");
    reveal_strlit("\\e");
    reveal_strlit("\\\\");
    lemma_replace_no_backslash(s, "\\S"@, "Linux"@);
    lemma_replace_no_backslash(s, "\\l"@, "tty"@ + decimal(i.vtnr as nat));
    lemma_replace_no_backslash(s, "\\d"@, i.date@);
    lemma_replace_no_backslash(s, "\\t"@, i.time@);
    lemma_replace_no_backslash(s, "\\U"@, "0 user"@);
    lemma_replace_no_backslash(s, "\\s"@, i.sysname@);
    lemma_replace_no_backslash(s, "\\r"@, i.release@);
    lemma_replace_no_backslash(s, "\\v"@, i.version@);
    lemma_replace_no_backslash(s, "\\n"@, i.nodename@);
    lemma_replace_no_backslash(s, "\\m"@, i.machine@);
    lemma_replace_no_backslash(s, "\\o"@, i.domainname@);
    lemma_replace_no_backslash(s, "\\x1b"@, "\x1b"@);
    lemma_replace_no_backslash(s, "\\033"@, "\x1b"@);
    lemma_replace_no_backslash(s, "\\e"@, "\x1b"@);
    lemma_replace_no_backslash(s, "\\\\"@, "\\"@);
    if no_backslash(i.version@) {
        lemma_issue_escape_v(a, b, i);
    }
    if no_backslash(i.release@) {
        lemma_issue_escape_r(a, b, i);
    }
    if no_backslash(i.sysname@) {
        lemma_issue_escape_s(a, b, i);
    }
    if no_backslash(i.nodename@) {
        lemma_issue_escape_n(a, b, i);
    }
    if no_backslash(i.machine@) {
        lemma_issue_escape_m(a, b, i);
    }
    if no_backslash(i.domainname@) {
        lemma_issue_escape_o(a, b, i);
    }
    if no_backslash(i.date@) {
        lemma_issue_escape_d(a, b, i);
    }
    if no_backslash(i.time@) {
        lemma_issue_escape_t(a, b, i);
    }
}

} // verus!
