use ratgreet::color::{css_color_would_panic, parse_css_color, Color};

#[test]
fn named_color() {
    assert_eq!(parse_css_color("blue").unwrap(), Color::Blue);
}

#[test]
fn hex_rgb_shorthand() {
    assert_eq!(parse_css_color("#f00").unwrap(), Color::Rgb(255, 0, 0));
}

#[test]
fn hex_rrggbb() {
    assert_eq!(parse_css_color("#FF0000").unwrap(), Color::Rgb(255, 0, 0));
}

#[test]
fn hex_rrggbbaa_ignores_alpha() {
    assert_eq!(
        parse_css_color("#ffffff00").unwrap(),
        Color::Rgb(255, 255, 255)
    );
}

#[test]
fn invalid_hex() {
    assert!(parse_css_color("#gggggg").is_err());
}

#[test]
fn short_form_with_alpha_and_white_space() {
    assert_eq!(parse_css_color("  #0a8f  ").unwrap(), Color::Rgb(0, 170, 136));
}

#[test]
fn hex_of_wrong_length_is_refused() {
    assert!(parse_css_color("#12345").is_err());
    assert!(parse_css_color("#").is_err());
    assert!(parse_css_color("#1234567").is_err());
}

#[test]
fn invalid_alpha_is_refused() {
    assert!(parse_css_color("#123g").is_err());
    assert!(parse_css_color("#123456zz").is_err());
}

#[test]
fn unknown_name_is_refused() {
    assert!(parse_css_color("not-a-color").is_err());
}

#[test]
fn split_inside_a_character_is_detected() {
    assert!(css_color_would_panic("#abé"));
    assert!(!css_color_would_panic("#abc"));
    assert!(!css_color_would_panic("blue"));
}

#[test]
fn short_forms_agree_for_every_digit() {
    let digits = "0123456789abcdefABCDEF";
    for (i, r) in digits.chars().enumerate() {
        let g = digits.chars().nth((i + 5) % digits.len()).unwrap();
        let b = digits.chars().nth((i + 11) % digits.len()).unwrap();
        let a = digits.chars().nth((i + 3) % digits.len()).unwrap();
        let v = |c: char| c.to_digit(16).unwrap() as u8;
        let expected = Color::Rgb(17 * v(r), 17 * v(g), 17 * v(b));
        let short = format!("#{}{}{}", r, g, b);
        let with_alpha = format!("#{}{}{}{}", r, g, b, a);
        let long = format!("#{}{}{}{}{}{}", r, r, g, g, b, b);
        assert!(!css_color_would_panic(&short));
        assert!(!css_color_would_panic(&with_alpha));
        assert!(!css_color_would_panic(&long));
        assert_eq!(parse_css_color(&short).unwrap(), expected);
        assert_eq!(parse_css_color(&with_alpha).unwrap(), expected);
        assert_eq!(parse_css_color(&long).unwrap(), expected);
    }
}

#[test]
fn alpha_pair_is_dropped() {
    for (six, alpha, expected) in [
        ("12ab9F", "00", Color::Rgb(0x12, 0xab, 0x9f)),
        ("000000", "ff", Color::Rgb(0, 0, 0)),
        ("c0ffee", "7A", Color::Rgb(0xc0, 0xff, 0xee)),
    ] {
        let plain = format!("#{}", six);
        let with_alpha = format!("#{}{}", six, alpha);
        assert_eq!(parse_css_color(&plain).unwrap(), expected);
        assert_eq!(parse_css_color(&with_alpha).unwrap(), expected);
    }
}
