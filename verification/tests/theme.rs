use spotuify::theme::{
    canonical_theme_name, hex_rgb, ThemeError, ThemeSource, ThemeSpec, TERMINAL_DEFAULT_THEME,
};

fn spec(name: &str) -> ThemeSpec {
    ThemeSpec {
        name: name.to_string(),
        source: ThemeSource::User,
        bg: Some("#000000".to_string()),
        accent: Some("#00FF00".to_string()),
        bright_fg: Some("#FFFFFF".to_string()),
        fg: Some("#969696".to_string()),
        green: Some("#29CE10".to_string()),
        yellow: Some("#D6B521".to_string()),
        red: Some("#EF3110".to_string()),
    }
}

#[test]
fn hex_rgb_accepts_only_six_digit_css_hex() {
    assert_eq!(hex_rgb("#00FF00"), Some([0, 255, 0]));
    assert_eq!(hex_rgb("#00ff00"), Some([0, 255, 0]));
    assert_eq!(hex_rgb("00FF00"), None);
    assert_eq!(hex_rgb("#0F0"), None);
    assert_eq!(hex_rgb("#00FF0G"), None);
    assert_eq!(hex_rgb("#00FF000"), None);
    assert_eq!(hex_rgb("green"), None);
    assert_eq!(hex_rgb("#1a2B3c"), Some([0x1a, 0x2b, 0x3c]));
}

#[test]
fn a_complete_theme_validates_and_bg_is_optional() {
    spec("winamp").validate().expect("complete theme");
    let mut no_bg = spec("winamp");
    no_bg.bg = None;
    no_bg.validate().expect("bg is optional");
}

#[test]
fn a_missing_role_names_the_role_it_wants() {
    let mut broken = spec("half");
    broken.yellow = None;
    let error = broken.validate().expect_err("incomplete theme");
    assert_eq!(
        error,
        ThemeError::MissingRole {
            theme: "half".to_string(),
            role: "yellow".to_string(),
        }
    );
    assert!(error.message().contains("yellow"));
}

#[test]
fn a_malformed_hex_names_the_role_and_the_value() {
    let mut broken = spec("bad");
    broken.red = Some("red".to_string());
    assert_eq!(
        broken.validate().expect_err("bad hex"),
        ThemeError::BadHex {
            theme: "bad".to_string(),
            role: "red".to_string(),
            value: "red".to_string(),
        }
    );

    let mut bad_bg = spec("bad-bg");
    bad_bg.bg = Some("#12345".to_string());
    assert!(matches!(
        bad_bg.validate(),
        Err(ThemeError::BadHex { role, .. }) if role == "bg"
    ));
}

#[test]
fn the_sentinel_carries_no_colours() {
    let sentinel = ThemeSpec::terminal_default();
    assert!(sentinel.is_terminal_default());
    sentinel.validate().expect("sentinel is always valid");
    assert_eq!(sentinel.name, TERMINAL_DEFAULT_THEME);
    assert_eq!(sentinel.source.label(), "builtin");
    assert_eq!(ThemeSource::User.label(), "user");
    assert!(sentinel.columns().iter().all(|(_, value)| value.is_none()));
    assert!(!spec("winamp").is_terminal_default());

    // One colour is too much for the sentinel and too little for a theme.
    let mut almost = ThemeSpec::terminal_default();
    almost.yellow = Some("#D6B521".to_string());
    assert!(!almost.is_terminal_default());
    assert_eq!(
        almost.validate(),
        Err(ThemeError::MissingRole {
            theme: "terminal-default".to_string(),
            role: "accent".to_string()
        })
    );
}

#[test]
fn roles_and_columns_agree_on_their_order() {
    let theme = spec("winamp");
    let roles: Vec<&str> = theme.roles().iter().map(|(role, _)| *role).collect();
    assert_eq!(
        roles,
        ["accent", "bright_fg", "fg", "green", "yellow", "red"]
    );
    let columns = theme.columns();
    assert_eq!(columns[0], ("bg", Some("#000000")));
    assert_eq!(columns[1..], theme.roles());
    assert_eq!(
        ThemeError::BadHex {
            theme: "t".to_string(),
            role: "fg".to_string(),
            value: "blue".to_string()
        }
        .message(),
        "theme `t`: fg must be #RRGGBB, got `blue`"
    );
    assert_eq!(
        ThemeError::MissingRole {
            theme: "t".to_string(),
            role: "fg".to_string()
        }
        .message(),
        "theme `t`: fg is required"
    );
}

#[test]
fn canonical_names_are_trimmed_and_lowercased() {
    assert_eq!(canonical_theme_name("  Tokyo-Night "), "tokyo-night");
    assert_eq!(canonical_theme_name("NORD"), "nord");
}
