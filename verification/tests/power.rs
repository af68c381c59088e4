use ratgreet::greeter::Greeter;
use ratgreet::power::{power_command, Power, PowerOption};
use ratgreet::text::split_str;
use ratgreet::theme::{Theme, ThemeFile};

fn greeter_with(shutdown: Option<&str>, setsid: bool) -> Greeter {
    let mut greeter = Greeter::default();
    greeter.power_setsid = setsid;
    greeter.powers.options = vec![
        Power { action: PowerOption::Shutdown, label: "Shut down".into(), command: shutdown.map(str::to_string) },
        Power { action: PowerOption::Reboot, label: "Reboot".into(), command: None },
    ];
    greeter
}

#[test]
fn default_power_commands() {
    let greeter = greeter_with(None, true);
    assert_eq!(power_command(&greeter, PowerOption::Shutdown), Some(vec!["shutdown".into(), "-h".into(), "now".into()]));
    assert_eq!(power_command(&greeter, PowerOption::Reboot), Some(vec!["shutdown".into(), "-r".into(), "now".into()]));
}

#[test]
fn configured_power_command_is_split_and_wrapped() {
    let greeter = greeter_with(Some("systemctl poweroff"), true);
    assert_eq!(
        power_command(&greeter, PowerOption::Shutdown),
        Some(vec!["setsid".into(), "systemctl".into(), "poweroff".into()])
    );
    let greeter = greeter_with(Some("systemctl poweroff"), false);
    assert_eq!(power_command(&greeter, PowerOption::Shutdown), Some(vec!["systemctl".into(), "poweroff".into()]));
}

#[test]
fn no_entry_no_command() {
    let greeter = Greeter::default();
    assert_eq!(power_command(&greeter, PowerOption::Reboot), None);
}

#[test]
fn split_keeps_empty_pieces() {
    assert_eq!(split_str("a  b", ' '), vec!["a", "", "b"]);
    assert_eq!(split_str("", ';'), vec![""]);
}

#[test]
fn ui_theme_entries() {
    let mut file = ThemeFile::default();
    file.colors.border = Some("#123".into());
    file.colors.text = Some("red".into());
    let theme = file.to_ui_theme().unwrap();
    assert_eq!(theme.spec, "text=red;border=#123");
    assert_eq!(
        theme.entries(),
        vec![("text".to_string(), "red".to_string()), ("border".to_string(), "#123".to_string())]
    );
    let odd = Theme { spec: "a=b=c;;noequals;=x".into() };
    assert_eq!(
        odd.entries(),
        vec![("a".to_string(), "b=c".to_string()), ("".to_string(), "x".to_string())]
    );
}
