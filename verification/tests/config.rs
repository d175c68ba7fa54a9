use std::path::PathBuf;

use cosmic_shot::config::{
    config_path,
    expand_tilde, expand_tilde_with_home, join_path, screenshot_filename, screenshot_filename_at,
    shortcut_report, Config, LoadOutcome, OutputFormat, Timestamp,
};

/// The bytes of a path.
fn bytes_of(path: PathBuf) -> Vec<u8> {
    path.into_os_string().into_encoded_bytes()
}

#[test]
fn config_default_save_dir() {
    let config = Config::default();
    assert_eq!(config.save_dir, "~/Pictures/cosmic-shot");
}

#[test]
fn config_tilde_expansion() {
    let expanded = expand_tilde("~/Pictures/cosmic-shot");
    let home = dirs::home_dir().unwrap();
    assert_eq!(expanded, bytes_of(home.join("Pictures/cosmic-shot")));
}

#[test]
fn config_tilde_expansion_bare_tilde() {
    let expanded = expand_tilde("~");
    let home = dirs::home_dir().unwrap();
    assert_eq!(expanded, bytes_of(home));
}

#[test]
fn config_tilde_expansion_no_tilde() {
    let expanded = expand_tilde("/tmp/screenshots");
    assert_eq!(expanded, bytes_of(PathBuf::from("/tmp/screenshots")));
}

#[test]
fn config_default_shortcut() {
    let config = Config::default();
    assert_eq!(config.shortcut, "Alt+Shift+S");
}

#[test]
fn screenshot_filename_format() {
    let name = screenshot_filename().unwrap();
    assert!(name.starts_with("screenshot-"));
    assert!(name.ends_with(".png"));
    // Format: screenshot-YYYY-MM-DD_HH-MM-SS.png = 34 chars
    assert_eq!(name.len(), 34);
}

#[test]
fn screenshot_filename_pads_fields() {
    let t = Timestamp { year: 2026, month: 5, day: 9, hour: 7, minute: 3, second: 0 };
    assert_eq!(screenshot_filename_at(&t), "screenshot-2026-05-09_07-03-00.png");
}

#[test]
fn screenshot_filename_years_outside_four_digits() {
    let early = Timestamp { year: 42, month: 12, day: 31, hour: 23, minute: 59, second: 59 };
    assert_eq!(screenshot_filename_at(&early), "screenshot-0042-12-31_23-59-59.png");
    let late = Timestamp { year: 12345, month: 1, day: 1, hour: 0, minute: 0, second: 0 };
    assert_eq!(screenshot_filename_at(&late), "screenshot-+12345-01-01_00-00-00.png");
    let bce = Timestamp { year: -7, month: 1, day: 1, hour: 0, minute: 0, second: 0 };
    assert_eq!(screenshot_filename_at(&bce), "screenshot--0007-01-01_00-00-00.png");
}

#[test]
fn resolved_save_dir_expands_home() {
    let config = Config::default();
    let home = dirs::home_dir().unwrap();
    assert_eq!(config.resolved_save_dir(), bytes_of(home.join("Pictures/cosmic-shot")));
}

#[test]
fn expand_tilde_with_given_home() {
    let home = || Some(b"/home/ada".to_vec());
    assert_eq!(expand_tilde_with_home("~/shots", home()), b"/home/ada/shots".to_vec());
    assert_eq!(expand_tilde_with_home("~", home()), b"/home/ada".to_vec());
    assert_eq!(expand_tilde_with_home("~/shots", None), b"~/shots".to_vec());
    assert_eq!(expand_tilde_with_home("~ada/shots", home()), b"~ada/shots".to_vec());
    assert_eq!(expand_tilde_with_home("", home()), Vec::<u8>::new());
    // A home directory that is not UTF-8 is kept byte for byte.
    assert_eq!(expand_tilde_with_home("~/x", Some(vec![b'/', 0xFF, 0xFE])), vec![b'/', 0xFF, 0xFE, b'/', b'x']);
}

#[test]
fn join_path_follows_unix_rules() {
    assert_eq!(join_path(b"/home/ada", b"shots"), b"/home/ada/shots".to_vec());
    assert_eq!(join_path(b"/home/ada/", b"shots"), b"/home/ada/shots".to_vec());
    assert_eq!(join_path(b"/home/ada", b"/etc"), b"/etc".to_vec());
    assert_eq!(join_path(b"/home/ada", b""), b"/home/ada/".to_vec());
    assert_eq!(join_path(b"", b"shots"), b"shots".to_vec());
    // The same bytes as std's own PathBuf::join.
    for (base, rest) in [("/home/ada", "shots"), ("/home/ada/", "a/b"), ("/home/ada", "/etc"), ("/home/ada", "")] {
        assert_eq!(join_path(base.as_bytes(), rest.as_bytes()), bytes_of(PathBuf::from(base).join(rest)));
    }
}

#[test]
fn load_outcome_falls_back_to_defaults() {
    for outcome in [LoadOutcome::NotFound, LoadOutcome::ReadFailed, LoadOutcome::ParseFailed] {
        let config = Config::from_load_outcome(outcome);
        assert_eq!(config.save_dir, "~/Pictures/cosmic-shot");
        assert_eq!(config.shortcut, "Alt+Shift+S");
        assert_eq!(config.format, OutputFormat::Png);
        assert_eq!(config.quality, 85);
    }
    let parsed = Config {
        save_dir: "~/Pictures".to_string(),
        shortcut: "Super+Shift+S".to_string(),
        format: OutputFormat::Jpeg,
        quality: 50,
    };
    let config = Config::from_load_outcome(LoadOutcome::Parsed(parsed));
    assert_eq!(config.save_dir, "~/Pictures");
    assert_eq!(config.shortcut, "Super+Shift+S");
    assert_eq!(config.format, OutputFormat::Jpeg);
    assert_eq!(config.quality, 50);
}

#[test]
fn shortcut_report_is_two_lines() {
    let report = shortcut_report(&Config::default());
    let lines: Vec<&str> = report.lines().collect();
    assert_eq!(lines.len(), 2);
    assert_eq!(lines[0], "Shortcut: Alt+Shift+S");
    assert!(lines[1].starts_with("Command:"));
    assert!(lines[1].contains("cosmic-shot"));
}

#[test]
fn config_path_is_under_config_dir() {
    assert_eq!(config_path(b"/home/ada/.config"), b"/home/ada/.config/cosmic-shot/config.toml".to_vec());
    assert_eq!(config_path(b"/home/ada/.config/"), b"/home/ada/.config/cosmic-shot/config.toml".to_vec());
}

#[test]
fn config_default_format_and_quality() {
    let config = Config::default();
    assert_eq!(config.format, OutputFormat::Png);
    assert_eq!(config.quality, 85);
}

#[test]
fn output_format_extension_and_mime() {
    assert_eq!(OutputFormat::Png.file_extension(), "png");
    assert_eq!(OutputFormat::Jpeg.file_extension(), "jpg");
    assert_eq!(OutputFormat::WebP.file_extension(), "webp");
    assert_eq!(OutputFormat::Png.mime_type(), "image/png");
    assert_eq!(OutputFormat::Jpeg.mime_type(), "image/jpeg");
    assert_eq!(OutputFormat::WebP.mime_type(), "image/webp");
}
