use shmooz::cli::Cli;
use shmooz::config::{close_key_label, CloseKey};
use shmooz::error::ConfigError;

#[test]
fn parse_close_key_names() {
    assert_eq!(CloseKey::parse("Esc").unwrap(), CloseKey::Escape);
    assert_eq!(CloseKey::parse("q").unwrap(), CloseKey::Q);
    assert_eq!(CloseKey::parse("X").unwrap(), CloseKey::X);
}

#[test]
fn parse_close_key_rejects_unknown_names() {
    assert_eq!(
        CloseKey::parse("z"),
        Err(ConfigError::InvalidCloseKey { value: "z".to_owned() })
    );
}

#[test]
fn close_key_codes_and_labels() {
    assert_eq!(CloseKey::Escape.key_code(), 1);
    assert_eq!(CloseKey::Q.key_code(), 16);
    assert_eq!(CloseKey::X.key_code(), 45);
    assert_eq!(close_key_label(None), "Esc");
    assert_eq!(close_key_label(Some(CloseKey::X)), "X");
}

#[test]
fn close_key_label_parses_back() {
    for key in [CloseKey::Escape, CloseKey::Q, CloseKey::X] {
        assert_eq!(CloseKey::parse(close_key_label(Some(key))).unwrap(), key);
    }
}

#[test]
fn cli_close_key_option() {
    let mut cli = Cli {
        map_close: None,
        output: None,
        zoom_in: None,
        invert_scroll: false,
        spotlight: false,
        screenshot_dir: None,
        no_indicator: true,
    };
    assert_eq!(cli.close_key(), Ok(None));
    assert!(!cli.show_indicator());
    cli.map_close = Some("Escape".to_owned());
    assert_eq!(cli.close_key(), Ok(Some(CloseKey::Escape)));
    cli.map_close = Some("k".to_owned());
    assert!(cli.close_key().is_err());
}
