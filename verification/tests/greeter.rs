use ratgreet::config::SecretDisplayMode;
use ratgreet::paths::Environment;
use ratgreet::settings::{CliOverrides, Settings, SettingsInput};
use ratgreet::greeter::{AuthStatus, Greeter, Mode, SecretDisplay};
use ratgreet::masked::MaskedString;

#[test]
fn test_prompt_width() {
    let mut greeter = Greeter::default();
    greeter.prompt = None;

    assert_eq!(greeter.prompt_width(), 0);

    greeter.prompt = Some("Hello:".into());

    assert_eq!(greeter.prompt_width(), 6);
}

#[test]
fn test_set_prompt() {
    let mut greeter = Greeter::default();

    greeter.set_prompt("Hello:");

    assert_eq!(greeter.prompt, Some("Hello: ".into()));

    greeter.set_prompt("Hello World: ");

    assert_eq!(greeter.prompt, Some("Hello World: ".into()));

    greeter.remove_prompt();

    assert_eq!(greeter.prompt, None);
}

#[test]
fn set_prompt_twice_is_set_prompt_once() {
    let mut greeter = Greeter::default();
    greeter.set_prompt("Password:");
    let once = greeter.prompt.clone().unwrap();
    greeter.set_prompt(&once);
    assert_eq!(greeter.prompt, Some(once));
    greeter.set_prompt("");
    assert_eq!(greeter.prompt, Some(" ".into()));
}

#[test]
fn soft_reset_keeps_username_and_asks_for_password() {
    let mut greeter = Greeter::default();
    greeter.username = MaskedString::from("alice".into(), None);
    greeter.buffer = "hunter2".into();
    greeter.prompt = Some("Password: ".into());
    greeter.working = true;
    greeter.message = Some("Authentication failed".into());
    greeter.reset(true);
    assert_eq!(greeter.username.value, "alice");
    assert_eq!(greeter.mode, Mode::Password);
    assert_eq!(greeter.buffer, "");
    assert!(greeter.prompt.is_none());
    assert!(!greeter.working);
    assert_eq!(greeter.message, Some("Authentication failed".into()));
}

#[test]
fn full_reset_starts_from_username() {
    let mut greeter = Greeter::default();
    greeter.username = MaskedString::from("alice".into(), None);
    greeter.mode = Mode::Password;
    greeter.reset(false);
    assert_eq!(greeter.username.value, "");
    assert_eq!(greeter.mode, Mode::Username);
    assert_eq!(greeter.previous_mode, Mode::Username);
}

#[test]
fn scrub_can_keep_or_drop_the_message() {
    let mut greeter = Greeter::default();
    greeter.message = Some("hi".into());
    greeter.buffer = "x".into();
    greeter.scrub(false, true);
    assert_eq!(greeter.message, Some("hi".into()));
    assert_eq!(greeter.buffer, "");
    greeter.scrub(true, true);
    assert!(greeter.message.is_none());
}

#[test]
fn exit_other_than_success_cancels() {
    let mut greeter = Greeter::default();
    assert!(!greeter.record_exit(AuthStatus::Success));
    assert_eq!(greeter.exit, Some(AuthStatus::Success));
    assert!(greeter.record_exit(AuthStatus::Failure));
    assert!(greeter.record_exit(AuthStatus::Cancel));
    assert_eq!(greeter.exit, Some(AuthStatus::Cancel));
    assert_eq!(AuthStatus::Failure.name(), "Failure");
}

#[test]
fn secret_answer_display() {
    let mut greeter = Greeter::default();
    greeter.buffer = "héllo".into();
    greeter.asking_for_secret = true;
    greeter.secret_display = SecretDisplay::Masked('•');
    assert_eq!(greeter.answer_text(), Some("•••••".to_string()));
    greeter.secret_display = SecretDisplay::Hidden;
    assert_eq!(greeter.answer_text(), None);
    greeter.secret_display = SecretDisplay::Plain;
    assert_eq!(greeter.answer_text(), Some("héllo".to_string()));
    greeter.asking_for_secret = false;
    greeter.secret_display = SecretDisplay::Hidden;
    assert_eq!(greeter.answer_text(), Some("héllo".to_string()));
}

#[test]
fn secret_display_shows_input() {
    assert!(!SecretDisplay::Hidden.shows_input());
    assert!(SecretDisplay::Plain.shows_input());
    assert!(SecretDisplay::Masked('*').show());
    assert_eq!(SecretDisplay::default(), SecretDisplay::Masked('*'));
}

#[test]
fn default_greeter_layout() {
    let greeter = Greeter::default();
    assert_eq!(greeter.width(), 80);
    assert_eq!(greeter.window_padding(), 0);
    assert_eq!(greeter.container_padding(), 2);
    assert_eq!(greeter.prompt_padding(), 1);
    assert_eq!(greeter.mode, Mode::Username);
}

#[test]
fn secret_display_follows_the_settings() {
    let input = SettingsInput {
        env: Environment { xdg_config_home: None, home: None, xdg_data_dirs: None },
        config_reads: vec![],
        theme_reads: vec![],
        config_exists: vec![],
        theme_exists: vec![],
    };
    let mut settings = Settings::load(&CliOverrides::default(), &input).unwrap();
    assert_eq!(Greeter::new(&settings, None).secret_display, SecretDisplay::Masked('*'));
    settings.secrets.mask_char = '#';
    assert_eq!(Greeter::new(&settings, None).secret_display, SecretDisplay::Masked('#'));
    settings.secrets.display = SecretDisplayMode::Plain;
    assert_eq!(Greeter::new(&settings, None).secret_display, SecretDisplay::Plain);
    settings.secrets.display = SecretDisplayMode::Hidden;
    assert_eq!(Greeter::new(&settings, None).secret_display, SecretDisplay::Hidden);
}
