use ratgreet::greeter::{AuthStatus, Greeter, Mode};
use ratgreet::ipc::{
    desktop_names_to_xdg, wrap_session_command, AuthMessageKind, DefaultCommand, IpcAction, Reply,
};
use ratgreet::masked::MaskedString;
use ratgreet::sessions::{Session, SessionSource, SessionType};

#[test]
fn wayland_no_wrapper() {
    let greeter = Greeter::default();

    let session = Session {
        name: "Session1".into(),
        session_type: SessionType::Wayland,
        command: "Session1Cmd".into(),
        path: Some("/Session1Path".into()),
        ..Session::default()
    };

    let default = DefaultCommand(&session.command, None);
    let (command, env) = wrap_session_command(&greeter, Some(&session), &default);

    assert_eq!(command, "Session1Cmd");
    assert_eq!(env, vec!["XDG_SESSION_TYPE=wayland"]);
}

#[test]
fn wayland_wrapper() {
    let mut greeter = Greeter::default();
    greeter.session_wrapper = Some("/wrapper.sh".into());

    let session = Session {
        name: "Session1".into(),
        session_type: SessionType::Wayland,
        command: "Session1Cmd".into(),
        path: Some("/Session1Path".into()),
        ..Session::default()
    };

    let default = DefaultCommand(&session.command, None);
    let (command, env) = wrap_session_command(&greeter, Some(&session), &default);

    assert_eq!(command, "/wrapper.sh Session1Cmd");
    assert_eq!(env, vec!["XDG_SESSION_TYPE=wayland"]);
}

#[test]
fn x11_wrapper() {
    let mut greeter = Greeter::default();
    greeter.xsession_wrapper = Some("startx /usr/bin/env".into());

    let session = Session {
        slug: Some("thede".to_string()),
        name: "Session1".into(),
        session_type: SessionType::X11,
        command: "Session1Cmd".into(),
        path: Some("/Session1Path".into()),
        xdg_desktop_names: Some("one;two;three;".to_string()),
    };

    let default = DefaultCommand(&session.command, None);
    let (command, env) = wrap_session_command(&greeter, Some(&session), &default);

    assert_eq!(command, "startx /usr/bin/env Session1Cmd");
    assert_eq!(
        env,
        vec![
            "XDG_SESSION_DESKTOP=thede",
            "DESKTOP_SESSION=thede",
            "XDG_SESSION_TYPE=x11",
            "XDG_CURRENT_DESKTOP=one:two:three"
        ]
    );
}

#[test]
fn xdg_current_desktop() {
    assert_eq!(
        desktop_names_to_xdg("one;two;three four"),
        "one:two:three four"
    );
    assert_eq!(desktop_names_to_xdg("one;"), "one");
    assert_eq!(desktop_names_to_xdg(""), "");
    assert_eq!(desktop_names_to_xdg(";"), "");
}

#[test]
fn xdg_current_desktop_trims_every_trailing_separator() {
    assert_eq!(desktop_names_to_xdg("a;;b;;;"), "a::b");
    assert_eq!(desktop_names_to_xdg(";;;"), "");
}

#[test]
fn x11_session_without_wrapper_runs_plain() {
    let greeter = Greeter::default();
    let session = Session {
        name: "X".into(),
        session_type: SessionType::X11,
        command: "xcmd".into(),
        ..Session::default()
    };
    let default = DefaultCommand(&session.command, None);
    let (command, env) = wrap_session_command(&greeter, Some(&session), &default);
    assert_eq!(command, "xcmd");
    assert_eq!(env, vec!["XDG_SESSION_TYPE=x11"]);
}

#[test]
fn unspecified_session_type_sets_no_type() {
    let mut greeter = Greeter::default();
    greeter.xsession_wrapper = Some("startx".into());
    let session = Session { command: "cmd".into(), ..Session::default() };
    let default = DefaultCommand(&session.command, None);
    let (command, env) = wrap_session_command(&greeter, Some(&session), &default);
    assert_eq!(command, "cmd");
    assert!(env.is_empty());
}

#[test]
fn default_command_keeps_its_environment() {
    let greeter = Greeter::default();
    let default = DefaultCommand("sway", Some(vec!["A=B".to_string(), "C=D".to_string()]));
    let (command, env) = wrap_session_command(&greeter, None, &default);
    assert_eq!(command, "sway");
    assert_eq!(env, vec!["A=B", "C=D"]);
}

#[test]
fn default_command_through_wrapper_drops_environment() {
    let mut greeter = Greeter::default();
    greeter.session_wrapper = Some("/wrap".into());
    let default = DefaultCommand("sway", Some(vec!["A=B".to_string()]));
    let (command, env) = wrap_session_command(&greeter, None, &default);
    assert_eq!(command, "/wrap sway");
    assert!(env.is_empty());
}

#[test]
fn secret_question_moves_to_the_answer_screen() {
    let mut greeter = Greeter::default();
    greeter.working = true;
    let action = greeter.handle_reply(Reply::AuthMessage(AuthMessageKind::Secret, "Password:".into()), false);
    assert_eq!(action, IpcAction::Nothing);
    assert_eq!(greeter.mode, Mode::Password);
    assert!(!greeter.working);
    assert!(greeter.asking_for_secret);
    assert_eq!(greeter.prompt, Some("Password: ".into()));
}

#[test]
fn notices_are_acknowledged_and_appended() {
    let mut greeter = Greeter::default();
    greeter.prompt = Some("Password: ".into());
    let action = greeter.handle_reply(Reply::AuthMessage(AuthMessageKind::Info, "first  \n".into()), false);
    assert_eq!(action, IpcAction::Acknowledge);
    assert!(greeter.prompt.is_none());
    greeter.handle_reply(Reply::AuthMessage(AuthMessageKind::Info, "second".into()), false);
    assert_eq!(greeter.message, Some("first\nsecond".into()));
    let action = greeter.handle_reply(Reply::AuthMessage(AuthMessageKind::Error, "bad".into()), false);
    assert_eq!(action, IpcAction::Acknowledge);
    assert_eq!(greeter.message, Some("bad".into()));
}

#[test]
fn success_starts_the_session_then_exits() {
    let mut greeter = Greeter::default();
    greeter.session_source = SessionSource::DefaultCommand("sway".into(), Some(vec!["A=B".into()]));
    let action = greeter.handle_reply(Reply::Success, false);
    assert_eq!(action, IpcAction::StartSession(vec!["sway".into()], vec!["A=B".into()]));
    assert!(greeter.done);
    assert_eq!(greeter.mode, Mode::Processing);
    assert_eq!(greeter.handle_reply(Reply::Success, false), IpcAction::Exit(AuthStatus::Success));
}

#[test]
fn debug_build_starts_true() {
    let mut greeter = Greeter::default();
    greeter.session_source = SessionSource::Command("sway".into());
    assert_eq!(
        greeter.handle_reply(Reply::Success, true),
        IpcAction::StartSession(vec!["true".into()], vec![])
    );
}

#[test]
fn success_without_command_starts_over() {
    let mut greeter = Greeter::default();
    greeter.username = MaskedString::from("alice".into(), None);
    assert_eq!(greeter.handle_reply(Reply::Success, false), IpcAction::CancelSession);
    assert_eq!(greeter.message, Some("No command configured".into()));
    assert_eq!(greeter.username.value, "");
}

#[test]
fn failures_start_over_with_their_reason() {
    let mut greeter = Greeter::default();
    greeter.mode = Mode::Password;
    greeter.working = true;
    greeter.buffer = "pw".into();
    assert_eq!(greeter.handle_reply(Reply::AuthError, false), IpcAction::CancelSession);
    assert_eq!(greeter.message, Some("Authentication failed, please try again.".into()));
    assert_eq!(greeter.mode, Mode::Username);
    assert!(!greeter.working);
    assert_eq!(greeter.buffer, "");
    assert_eq!(greeter.handle_reply(Reply::Error("boom".into()), false), IpcAction::CancelSession);
    assert_eq!(greeter.message, Some("boom".into()));
}
