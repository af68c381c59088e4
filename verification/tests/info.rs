use ratgreet::greeter::Greeter;
use ratgreet::info::{
    collect_sessions, data_directories, default_session_paths, expand_issue, load_desktop_file,
    name_before, parse_usize, session_dirs, session_from_entry, sort_by_name, split_paths, vt_number,
    DesktopError, IniLookup, IssueInfo,
};
use ratgreet::paths::Environment;
use ratgreet::sessions::{Session, SessionType};

fn env(dirs: Option<&str>) -> Environment {
    Environment { xdg_config_home: None, home: None, xdg_data_dirs: dirs.map(|d| d.to_string()) }
}

#[test]
fn split_paths_keeps_empty_pieces() {
    assert_eq!(split_paths("a:b"), vec!["a", "b"]);
    assert_eq!(split_paths(""), vec![""]);
    assert_eq!(split_paths(":x:"), vec!["", "x", ""]);
}

#[test]
fn data_directories_keep_absolute_ones() {
    assert_eq!(data_directories(&env(None)), vec!["/usr/local/share", "/usr/share"]);
    assert_eq!(data_directories(&env(Some("rel:/opt/share::/srv/"))), vec!["/opt/share", "/srv/"]);
}

#[test]
fn default_session_paths_wayland_first() {
    let paths = default_session_paths(&env(Some("/a:/b/")));
    assert_eq!(
        paths,
        vec![
            ("/a/wayland-sessions".to_string(), SessionType::Wayland),
            ("/b/wayland-sessions".to_string(), SessionType::Wayland),
            ("/a/xsessions".to_string(), SessionType::X11),
            ("/b/xsessions".to_string(), SessionType::X11),
        ]
    );
}

#[test]
fn configured_session_paths_win() {
    let mut greeter = Greeter::default();
    assert_eq!(session_dirs(&greeter, &env(Some("/d"))).len(), 2);
    greeter.session_paths = vec![("/mine".to_string(), SessionType::Tty)];
    assert_eq!(session_dirs(&greeter, &env(Some("/d"))), vec![("/mine".to_string(), SessionType::Tty)]);
}

fn info() -> IssueInfo {
    IssueInfo {
        date: "Mon Jan  1 2024".into(),
        time: "12:00:00".into(),
        vtnr: 7,
        sysname: "Linux".into(),
        release: "6.1".into(),
        version: "#1 SMP".into(),
        nodename: "host".into(),
        machine: "x86_64".into(),
        domainname: "(none)".into(),
    }
}

#[test]
fn issue_escapes_are_expanded() {
    assert_eq!(
        expand_issue("\\S \\r (\\l) on \\n \\m \\d \\t \\U \\o", &info()),
        "Linux 6.1 (tty7) on host x86_64 Mon Jan  1 2024 12:00:00 0 user (none)"
    );
    assert_eq!(expand_issue("\\e[1m\\033\\x1b\\\\", &info()), "\x1b[1m\x1b\x1b\\");
    assert_eq!(expand_issue("plain", &info()), "plain");
}

#[test]
fn usize_parsing() {
    assert_eq!(parse_usize("42"), Some(42));
    assert_eq!(parse_usize("+7"), Some(7));
    assert_eq!(parse_usize(""), None);
    assert_eq!(parse_usize("+"), None);
    assert_eq!(parse_usize("-1"), None);
    assert_eq!(parse_usize("4a"), None);
    assert_eq!(parse_usize("99999999999999999999999"), None);
    assert_eq!(parse_usize(&usize::MAX.to_string()), Some(usize::MAX));
    assert_eq!(vt_number(None), 0);
    assert_eq!(vt_number(Some("x")), 0);
    assert_eq!(vt_number(Some("3")), 3);
}

const SWAY: &str = "[Desktop Entry]\nName=Sway\nExec=sway\nDesktopNames=sway;wlroots\n";

#[test]
fn desktop_file_describes_a_session() {
    let s = load_desktop_file("/usr/share/wayland-sessions/sway.desktop", SWAY, SessionType::Wayland)
        .unwrap()
        .unwrap();
    assert_eq!(s.name, "Sway");
    assert_eq!(s.command, "sway");
    assert_eq!(s.slug, Some("sway".into()));
    assert_eq!(s.path, Some("/usr/share/wayland-sessions/sway.desktop".into()));
    assert_eq!(s.xdg_desktop_names, Some("sway;wlroots".into()));
    assert_eq!(s.session_type, SessionType::Wayland);
}

#[test]
fn desktop_file_refusals() {
    let p = "/x/a.desktop";
    assert_eq!(
        load_desktop_file(p, "[Other]\nName=A\n", SessionType::X11).unwrap_err(),
        DesktopError::NoEntrySection
    );
    assert_eq!(
        load_desktop_file(p, "[Desktop Entry]\nExec=a\n", SessionType::X11).unwrap_err(),
        DesktopError::NoName
    );
    assert_eq!(
        load_desktop_file(p, "[Desktop Entry]\nName=A\n", SessionType::X11).unwrap_err(),
        DesktopError::NoExec
    );
    assert!(load_desktop_file(p, "[Desktop Entry]\nName=A\nExec=a\nHidden=true\n", SessionType::X11)
        .unwrap()
        .is_none());
    assert!(load_desktop_file(p, "[Desktop Entry]\nNoDisplay=true\n", SessionType::X11).unwrap().is_none());
}

#[test]
fn entry_values_decide_the_session() {
    let s = session_from_entry(
        IniLookup::Value("false".into()),
        IniLookup::Missing,
        IniLookup::Value("N".into()),
        IniLookup::Value("e".into()),
        IniLookup::Missing,
        None,
        "/p",
        SessionType::Tty,
    )
    .unwrap()
    .unwrap();
    assert_eq!(s.name, "N");
    assert!(s.slug.is_none());
    assert!(s.xdg_desktop_names.is_none());
    let r = session_from_entry(
        IniLookup::Unparsable,
        IniLookup::Missing,
        IniLookup::Missing,
        IniLookup::Missing,
        IniLookup::Missing,
        None,
        "/p",
        SessionType::Tty,
    );
    assert_eq!(r.unwrap_err(), DesktopError::Unparsable);
}

fn named(name: &str, command: &str) -> Session {
    Session { name: name.into(), command: command.into(), ..Session::default() }
}

#[test]
fn sessions_sort_by_name_stably() {
    let sorted = sort_by_name(vec![named("b", "1"), named("a", "2"), named("b", "3"), named("A", "4")]);
    let got: Vec<(String, String)> = sorted.into_iter().map(|s| (s.name, s.command)).collect();
    assert_eq!(
        got,
        vec![
            ("A".to_string(), "4".to_string()),
            ("a".to_string(), "2".to_string()),
            ("b".to_string(), "1".to_string()),
            ("b".to_string(), "3".to_string()),
        ]
    );
}

#[test]
fn name_order_is_string_order() {
    for (a, b) in [("a", "b"), ("", "a"), ("ab", "a"), ("é", "z"), ("Z", "a"), ("same", "same")] {
        assert_eq!(name_before(a, b), a < b, "{a} {b}");
    }
}

#[test]
fn collected_sessions_skip_refused_files() {
    let found = collect_sessions(vec![
        Ok(Some(named("zed", "z"))),
        Err(DesktopError::NoName),
        Ok(None),
        Ok(Some(named("alpha", "a"))),
    ]);
    let names: Vec<String> = found.into_iter().map(|s| s.name).collect();
    assert_eq!(names, vec!["alpha", "zed"]);
}
