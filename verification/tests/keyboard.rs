use ratgreet::greeter::{Greeter, Mode};
use ratgreet::keyboard::{handle_key, key_would_panic, Key, KeyAction, KeyCode};
use ratgreet::masked::MaskedString;
use ratgreet::power::PowerOption;
use ratgreet::sessions::{Session, SessionSource};

fn key(code: KeyCode) -> Key {
    Key { code, control: false }
}

fn ctrl(c: char) -> Key {
    Key { code: KeyCode::Char(c), control: true }
}

#[test]
fn ctrl_u() {
    let mut greeter = Greeter::default();
    greeter.mode = Mode::Username;
    greeter.username = MaskedString::from("apognu".to_string(), None);
    let result = handle_key(&mut greeter, ctrl('u'), false);
    assert_eq!(result, KeyAction::Nothing);
    assert_eq!(greeter.username.value, "".to_string());

    greeter.mode = Mode::Password;
    greeter.buffer = "password".to_string();
    let result = handle_key(&mut greeter, ctrl('u'), false);
    assert_eq!(result, KeyAction::Nothing);
    assert_eq!(greeter.buffer, "".to_string());

    greeter.mode = Mode::Command;
    greeter.buffer = "newcommand".to_string();
    let result = handle_key(&mut greeter, ctrl('u'), false);
    assert_eq!(result, KeyAction::Nothing);
    assert_eq!(greeter.buffer, "".to_string());
}

#[test]
fn escape() {
    let mut greeter = Greeter::default();
    greeter.previous_mode = Mode::Username;
    greeter.mode = Mode::Command;
    greeter.previous_buffer = Some("apognu".to_string());
    greeter.buffer = "newcommand".to_string();
    greeter.cursor_offset = 2;

    let result = handle_key(&mut greeter, key(KeyCode::Esc), false);
    assert_eq!(result, KeyAction::Nothing);
    assert_eq!(greeter.mode, Mode::Username);
    assert_eq!(greeter.buffer, "apognu".to_string());
    assert!(greeter.previous_buffer.is_none());
    assert_eq!(greeter.cursor_offset, 0);

    for mode in [Mode::Users, Mode::Sessions, Mode::Power] {
        greeter.previous_mode = Mode::Username;
        greeter.mode = mode;
        let result = handle_key(&mut greeter, key(KeyCode::Esc), false);
        assert_eq!(result, KeyAction::Nothing);
        assert_eq!(greeter.mode, Mode::Username);
    }
}

#[test]
fn left_right() {
    let mut greeter = Greeter::default();
    let result = handle_key(&mut greeter, key(KeyCode::Left), false);
    assert_eq!(result, KeyAction::Nothing);
    assert_eq!(greeter.cursor_offset, -1);

    let _ = handle_key(&mut greeter, key(KeyCode::Right), false);
    let result = handle_key(&mut greeter, key(KeyCode::Right), false);
    assert_eq!(result, KeyAction::Nothing);
    assert_eq!(greeter.cursor_offset, 1);
}

#[test]
fn f2() {
    let mut greeter = Greeter::default();
    greeter.mode = Mode::Username;
    greeter.buffer = "apognu".to_string();
    greeter.session_source = SessionSource::Command("thecommand".to_string());

    let result = handle_key(&mut greeter, key(KeyCode::F(2)), false);
    assert_eq!(result, KeyAction::Nothing);
    assert_eq!(greeter.mode, Mode::Command);
    assert_eq!(greeter.previous_buffer, Some("apognu".to_string()));
    assert_eq!(greeter.buffer, "thecommand".to_string());

    for mode in [Mode::Users, Mode::Sessions, Mode::Power] {
        greeter.previous_mode = Mode::Username;
        greeter.mode = mode;
        let result = handle_key(&mut greeter, key(KeyCode::F(2)), false);
        assert_eq!(result, KeyAction::Nothing);
        assert_eq!(greeter.mode, Mode::Command);
        assert_eq!(greeter.previous_mode, Mode::Username);
    }
}

#[test]
fn f_menu() {
    let mut greeter = Greeter::default();
    for (code, mode) in [(KeyCode::F(3), Mode::Sessions), (KeyCode::F(12), Mode::Power)] {
        greeter.mode = Mode::Username;
        greeter.buffer = "apognu".to_string();
        let result = handle_key(&mut greeter, key(code), false);
        assert_eq!(result, KeyAction::Nothing);
        assert_eq!(greeter.mode, mode);
        assert_eq!(greeter.buffer, "apognu".to_string());

        for mode in [Mode::Users, Mode::Sessions, Mode::Power] {
            greeter.previous_mode = Mode::Username;
            greeter.mode = mode;
            let result = handle_key(&mut greeter, key(KeyCode::F(2)), false);
            assert_eq!(result, KeyAction::Nothing);
            assert_eq!(greeter.mode, Mode::Command);
            assert_eq!(greeter.previous_mode, Mode::Username);
        }
    }
}

#[test]
fn f_menu_rebinded() {
    let mut greeter = Greeter::default();
    for (code, mode) in [(KeyCode::F(1), Mode::Sessions), (KeyCode::F(11), Mode::Power)] {
        greeter.kb_command = 3;
        greeter.kb_sessions = 1;
        greeter.kb_power = 11;
        greeter.mode = Mode::Username;
        greeter.buffer = "apognu".to_string();
        let result = handle_key(&mut greeter, key(code), false);
        assert_eq!(result, KeyAction::Nothing);
        assert_eq!(greeter.mode, mode);
        assert_eq!(greeter.buffer, "apognu".to_string());

        for mode in [Mode::Users, Mode::Sessions, Mode::Power] {
            greeter.previous_mode = Mode::Username;
            greeter.mode = mode;
            let result = handle_key(&mut greeter, key(KeyCode::F(3)), false);
            assert_eq!(result, KeyAction::Nothing);
            assert_eq!(greeter.mode, Mode::Command);
            assert_eq!(greeter.previous_mode, Mode::Username);
        }
    }
}

#[test]
fn ctrl_a_e() {
    let mut greeter = Greeter::default();
    greeter.mode = Mode::Command;
    greeter.buffer = "123456789".to_string();

    let result = handle_key(&mut greeter, ctrl('a'), false);
    assert_eq!(result, KeyAction::Nothing);
    assert_eq!(greeter.cursor_offset, -9);

    let result = handle_key(&mut greeter, ctrl('e'), false);
    assert_eq!(result, KeyAction::Nothing);
    assert_eq!(greeter.cursor_offset, 0);
}

#[test]
fn typing_inserts_at_the_cursor() {
    let mut greeter = Greeter::default();
    for c in "alce".chars() {
        handle_key(&mut greeter, key(KeyCode::Char(c)), false);
    }
    handle_key(&mut greeter, key(KeyCode::Left), false);
    handle_key(&mut greeter, key(KeyCode::Left), false);
    handle_key(&mut greeter, key(KeyCode::Char('i')), false);
    assert_eq!(greeter.username.value, "alice");
    handle_key(&mut greeter, key(KeyCode::Delete), false);
    assert_eq!(greeter.username.value, "alie");
    assert_eq!(greeter.cursor_offset, -1);
    handle_key(&mut greeter, key(KeyCode::Backspace), false);
    assert_eq!(greeter.username.value, "ale");
}

#[test]
fn insert_then_backspace_restores() {
    let mut greeter = Greeter::default();
    greeter.mode = Mode::Password;
    greeter.buffer = "secret".into();
    greeter.cursor_offset = -3;
    handle_key(&mut greeter, key(KeyCode::Char('x')), false);
    assert_eq!(greeter.buffer, "secxret");
    handle_key(&mut greeter, key(KeyCode::Backspace), false);
    assert_eq!(greeter.buffer, "secret");
    assert_eq!(greeter.cursor_offset, -3);
}

#[test]
fn enter_sends_username_then_answer() {
    let mut greeter = Greeter::default();
    assert_eq!(handle_key(&mut greeter, key(KeyCode::Enter), false), KeyAction::Nothing);
    greeter.username = MaskedString::from("alice".into(), None);
    assert_eq!(
        handle_key(&mut greeter, key(KeyCode::Enter), false),
        KeyAction::CreateSession("alice".into())
    );
    assert!(greeter.working);
    assert_eq!(handle_key(&mut greeter, key(KeyCode::Char('z')), false), KeyAction::Nothing);
    assert_eq!(greeter.buffer, "");

    greeter.working = false;
    greeter.mode = Mode::Password;
    greeter.buffer = "pw".into();
    assert_eq!(
        handle_key(&mut greeter, key(KeyCode::Enter), false),
        KeyAction::PostAuthResponse("pw".into())
    );
    assert!(greeter.working);
    assert_eq!(greeter.buffer, "");
}

#[test]
fn tab_sends_username() {
    let mut greeter = Greeter::default();
    greeter.username = MaskedString::from("bob".into(), None);
    assert_eq!(handle_key(&mut greeter, key(KeyCode::Tab), false), KeyAction::CreateSession("bob".into()));
}

#[test]
fn escape_in_password_cancels() {
    let mut greeter = Greeter::default();
    greeter.mode = Mode::Password;
    assert_eq!(handle_key(&mut greeter, key(KeyCode::Esc), false), KeyAction::CancelAndReset);
}

#[test]
fn debug_exit_only_when_allowed() {
    let mut greeter = Greeter::default();
    assert_eq!(handle_key(&mut greeter, ctrl('x'), true), KeyAction::ExitCancel);
    assert_eq!(handle_key(&mut greeter, ctrl('x'), false), KeyAction::Nothing);
}

#[test]
fn command_editor_sets_the_command() {
    let mut greeter = Greeter::default();
    greeter.buffer = "kept".into();
    handle_key(&mut greeter, key(KeyCode::F(2)), false);
    for c in "sway".chars() {
        handle_key(&mut greeter, key(KeyCode::Char(c)), false);
    }
    handle_key(&mut greeter, key(KeyCode::Enter), false);
    assert_eq!(greeter.mode, Mode::Username);
    assert_eq!(greeter.buffer, "kept");
    assert!(matches!(&greeter.session_source, SessionSource::Command(c) if c == "sway"));
}

#[test]
fn session_menu_selection() {
    let mut greeter = Greeter::default();
    greeter.install_sessions(vec![
        Session { name: "A".into(), command: "a".into(), ..Session::default() },
        Session { name: "B".into(), command: "b".into(), ..Session::default() },
    ]);
    assert!(matches!(greeter.session_source, SessionSource::Session(0)));
    handle_key(&mut greeter, key(KeyCode::F(3)), false);
    assert_eq!(greeter.mode, Mode::Sessions);
    handle_key(&mut greeter, key(KeyCode::Down), false);
    handle_key(&mut greeter, key(KeyCode::Down), false);
    assert_eq!(greeter.sessions.selected, 1);
    handle_key(&mut greeter, key(KeyCode::Enter), false);
    assert!(matches!(greeter.session_source, SessionSource::Session(1)));
    assert_eq!(greeter.mode, Mode::Username);
}

#[test]
fn power_menu_asks_for_the_action() {
    let mut greeter = Greeter::default();
    greeter.powers.options = vec![
        ratgreet::power::Power { action: PowerOption::Shutdown, label: "Shut down".into(), command: None },
        ratgreet::power::Power { action: PowerOption::Reboot, label: "Reboot".into(), command: None },
    ];
    handle_key(&mut greeter, key(KeyCode::F(12)), false);
    handle_key(&mut greeter, key(KeyCode::Down), false);
    assert_eq!(handle_key(&mut greeter, key(KeyCode::Enter), false), KeyAction::Power(PowerOption::Reboot));
    assert_eq!(greeter.mode, Mode::Username);
}

#[test]
fn panicking_keys_are_reported() {
    let mut greeter = Greeter::default();
    greeter.mode = Mode::Sessions;
    assert!(key_would_panic(&greeter, key(KeyCode::Down), false));
    greeter.mode = Mode::Username;
    greeter.cursor_offset = i16::MIN;
    assert!(key_would_panic(&greeter, key(KeyCode::Left), false));
    greeter.cursor_offset = 0;
    assert!(!key_would_panic(&greeter, key(KeyCode::Char('a')), false));
}

#[test]
fn command_editor_then_escape_gives_back_the_screen() {
    let mut greeter = Greeter::default();
    greeter.mode = Mode::Password;
    greeter.previous_mode = Mode::Username;
    greeter.buffer = "half-typed".into();
    greeter.cursor_offset = -2;
    greeter.session_source = SessionSource::Command("sway".into());
    assert_eq!(handle_key(&mut greeter, key(KeyCode::F(2)), false), KeyAction::Nothing);
    assert_eq!(greeter.buffer, "sway");
    assert_eq!(handle_key(&mut greeter, key(KeyCode::Esc), false), KeyAction::Nothing);
    assert_eq!(greeter.mode, Mode::Password);
    assert_eq!(greeter.previous_mode, Mode::Password);
    assert_eq!(greeter.buffer, "half-typed");
    assert!(greeter.previous_buffer.is_none());
    assert_eq!(greeter.cursor_offset, 0);
}
