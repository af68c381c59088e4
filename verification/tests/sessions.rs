use ratgreet::greeter::Greeter;
use ratgreet::menu::Menu;
use ratgreet::sessions::{Session, SessionSource, SessionType};

fn two_sessions(first: &str, second: &str) -> Menu<Session> {
    Menu::<Session> {
        title: "Sessions".into(),
        selected: 1,
        options: vec![
            Session {
                name: first.into(),
                command: "Session1Cmd".into(),
                session_type: SessionType::Wayland,
                path: Some("/Session1Path".into()),
                ..Session::default()
            },
            Session {
                name: second.into(),
                command: "Session2Cmd".into(),
                session_type: SessionType::X11,
                path: Some("/Session2Path".into()),
                ..Session::default()
            },
        ],
    }
}

#[test]
fn from_path_existing() {
    let mut greeter = Greeter::default();
    greeter.session_source = SessionSource::Session(1);
    greeter.sessions = two_sessions("Session1", "Session2");

    let session = Session::from_path(&greeter, "/Session2Path");

    assert!(session.is_some());
    assert_eq!(session.unwrap().name, "Session2");
    assert_eq!(session.unwrap().session_type, SessionType::X11);
}

#[test]
fn from_path_non_existing() {
    let mut greeter = Greeter::default();
    greeter.session_source = SessionSource::Session(1);

    greeter.sessions = Menu::<Session> {
        title: "Sessions".into(),
        selected: 1,
        options: vec![Session {
            name: "Session1".into(),
            command: "Session1Cmd".into(),
            session_type: SessionType::Wayland,
            path: Some("/Session1Path".into()),
            ..Session::default()
        }],
    };

    let session = Session::from_path(&greeter, "/Session2Path");

    assert!(session.is_none());
}

#[test]
fn no_session() {
    let greeter = Greeter::default();

    assert!(Session::get_selected(&greeter).is_none());
}

#[test]
fn distinct_session() {
    let mut greeter = Greeter::default();
    greeter.session_source = SessionSource::Session(1);
    greeter.sessions = two_sessions("Session1", "Session2");

    let session = Session::get_selected(&greeter);

    assert!(session.is_some());
    assert_eq!(session.unwrap().name, "Session2");
    assert_eq!(session.unwrap().session_type, SessionType::X11);
}

#[test]
fn same_name_session() {
    let mut greeter = Greeter::default();
    greeter.session_source = SessionSource::Session(1);
    greeter.sessions = two_sessions("Session", "Session");

    let session = Session::get_selected(&greeter);

    assert!(session.is_some());
    assert_eq!(session.unwrap().name, "Session");
    assert_eq!(session.unwrap().session_type, SessionType::X11);
    assert_eq!(session.unwrap().command, "Session2Cmd");
}

#[test]
fn selection_past_the_menu_selects_nothing() {
    let mut greeter = Greeter::default();
    greeter.session_source = SessionSource::Session(5);
    greeter.sessions = two_sessions("A", "B");
    assert!(Session::get_selected(&greeter).is_none());
    assert!(greeter.session_source.label(&greeter).is_none());
}

#[test]
fn label_and_command_of_sources() {
    let mut greeter = Greeter::default();
    greeter.sessions = two_sessions("First", "Second");
    let source = SessionSource::Session(0);
    assert_eq!(source.label(&greeter), Some("First"));
    assert_eq!(source.command(&greeter), Some("Session1Cmd"));
    let typed = SessionSource::Command("bash".into());
    assert_eq!(typed.label(&greeter), Some("bash"));
    let configured = SessionSource::DefaultCommand("sway".into(), Some(vec!["A=1".into()]));
    assert_eq!(configured.command(&greeter), Some("sway"));
    assert_eq!(configured.env(), Some(vec!["A=1".to_string()]));
    assert!(SessionSource::Unset.label(&greeter).is_none());
    greeter.session_source = SessionSource::Unset;
    assert!(typed.env().is_none());
}

#[test]
fn xdg_session_type_names() {
    assert_eq!(SessionType::X11.as_xdg_session_type(), "x11");
    assert_eq!(SessionType::Wayland.as_xdg_session_type(), "wayland");
    assert_eq!(SessionType::Tty.as_xdg_session_type(), "tty");
    assert_eq!(SessionType::Unspecified.as_xdg_session_type(), "unspecified");
}
