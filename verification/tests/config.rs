use rustypaint::canvas::{NewCanvas, Ratio};
use rustypaint::config::{
    config_dir, first_line, join, path, win_join, Choice, Config, Environment, Reading, Scheme, System,
};

fn some(s: &str) -> Option<String> {
    Some(s.to_string())
}

#[test]
fn the_defaults_are_those_of_a_first_launch() {
    let config = Config::default();
    assert_eq!(config.theme, Choice::Auto);
    assert_eq!(config.accent, Scheme::Rusty);
    assert_eq!(config.new_canvas, NewCanvas::Fit(Ratio::Widescreen));
    assert!(config.acrylic);
    assert!(!config.decorations);
    assert!(config.custom_colours.is_empty());
}

#[test]
fn a_missing_file_or_nowhere_to_keep_one_is_no_complaint() {
    for reading in [Reading::NoPath, Reading::Missing] {
        let (config, complaint) = Config::settle(reading);
        assert_eq!(config.theme, Choice::Auto);
        assert!(complaint.is_none());
    }
}

#[test]
fn a_file_that_cannot_be_read_says_so_and_falls_back() {
    let (config, complaint) = Config::settle(Reading::Unreadable("permission denied".into()));
    assert_eq!(config.accent, Scheme::Rusty);
    assert_eq!(complaint.as_deref(), Some("Cannot read settings: permission denied"));
}

#[test]
fn a_file_that_does_not_parse_gives_the_first_line_of_the_complaint() {
    let (config, complaint) =
        Config::settle(Reading::Malformed("TOML parse error at line 1\nmore detail".into()));
    assert!(config.acrylic);
    assert_eq!(
        complaint.as_deref(),
        Some("Settings file is not readable, using defaults: TOML parse error at line 1")
    );
    let (_, complaint) = Config::settle(Reading::Malformed(String::new()));
    assert_eq!(
        complaint.as_deref(),
        Some("Settings file is not readable, using defaults: malformed")
    );
}

#[test]
fn parsed_settings_are_taken_as_they_are() {
    let mut parsed = Config::default();
    parsed.theme = Choice::Dark;
    parsed.accent = Scheme::Classic;
    parsed.custom_colours = vec![[254, 168, 69, 255]];
    let (config, complaint) = Config::settle(Reading::Parsed(parsed));
    assert_eq!(config.theme, Choice::Dark);
    assert_eq!(config.accent, Scheme::Classic);
    assert_eq!(config.custom_colours, vec![[254, 168, 69, 255]]);
    assert!(complaint.is_none());
}

#[test]
fn the_first_line_goes_by_str_lines() {
    for text in ["", "one", "one\ntwo", "one\r\ntwo", "\n", "tail\r", "a\rb\nc", "\r\n"] {
        assert_eq!(first_line(text), text.lines().next().unwrap_or("malformed"), "{text:?}");
    }
}

#[test]
fn a_name_joins_a_path_as_path_join_does() {
    for (base, part) in [("/home/me", ".config"), ("/home/me/", ".config"), ("", "rustypaint"), ("/", "x")] {
        let expected = std::path::Path::new(base).join(part);
        assert_eq!(join(base, part), expected.to_str().unwrap(), "{base:?} {part:?}");
    }
}

fn env(appdata: Option<String>, xdg: Option<String>, home: Option<String>) -> Environment {
    Environment { appdata, xdg_config_home: xdg, home }
}

#[test]
fn the_settings_live_under_xdg_config_home_or_home() {
    let unix = |xdg, home| path(System::Unix, &env(None, xdg, home));
    assert_eq!(unix(some("/xdg"), some("/home/me")).as_deref(), Some("/xdg/rustypaint/config.toml"));
    assert_eq!(
        unix(some(""), some("/home/me")).as_deref(),
        Some("/home/me/.config/rustypaint/config.toml")
    );
    assert_eq!(
        unix(None, some("/home/me/")).as_deref(),
        Some("/home/me/.config/rustypaint/config.toml")
    );
    assert_eq!(
        unix(some("/home/me/.var/app/net.electris.RustyPaint/config"), some("/home/me")).as_deref(),
        Some("/home/me/.var/app/net.electris.RustyPaint/config/rustypaint/config.toml")
    );
    assert_eq!(
        config_dir(System::Unix, &env(None, None, some("/root"))).as_deref(),
        Some("/root/.config/rustypaint")
    );
    assert_eq!(unix(None, None), None);
    assert_eq!(unix(some(""), None), None);
}

#[test]
fn the_settings_live_under_appdata_on_windows_and_application_support_on_macos() {
    assert_eq!(
        path(System::Windows, &env(some("C:\\Users\\me\\AppData\\Roaming"), some("/xdg"), some("/home"))).as_deref(),
        Some("C:\\Users\\me\\AppData\\Roaming\\RustyPaint\\config.toml")
    );
    assert_eq!(path(System::Windows, &env(None, some("/xdg"), some("/home"))), None);
    assert_eq!(
        path(System::Windows, &env(some("C:"), None, None)).as_deref(),
        Some("C:RustyPaint\\config.toml")
    );
    assert_eq!(
        path(System::MacOs, &env(None, some("/xdg"), some("/Users/me"))).as_deref(),
        Some("/Users/me/Library/Application Support/RustyPaint/config.toml")
    );
    assert_eq!(path(System::MacOs, &env(some("x"), some("/xdg"), None)), None);
    assert_eq!(win_join("dir/", "file"), "dir/file");
    assert_eq!(win_join("", "file"), "file");
}

#[test]
fn the_custom_row_holds_one_row_and_no_duplicates() {
    let mut config = Config::default();
    for grey in [0x11u8, 0x22, 0x33, 0x44, 0x55, 0x66, 0x77] {
        config.remember_colour([grey, grey, grey, 255]);
    }
    assert_eq!(config.custom_colours.len(), 6, "six across, oldest out first");
    assert_eq!(config.custom_colours[0], [0x22, 0x22, 0x22, 255], "the first went");
    assert_eq!(config.custom_colours[5], [0x77, 0x77, 0x77, 255]);

    assert!(!config.remember_colour([0x77, 0x77, 0x77, 255]));
    assert_eq!(config.custom_colours.len(), 6);
}

#[test]
fn a_custom_colour_can_be_picked_again_from_the_row() {
    let mut config = Config::default();
    config.remember_colour([0, 100, 182, 255]);
    assert_eq!(config.colour_at(0), Some([0, 100, 182, 255]));
    assert_eq!(config.colour_at(1), None);
}

#[test]
fn a_custom_colour_can_be_edited_in_place() {
    let mut config = Config::default();
    config.remember_colour([0x11, 0x22, 0x33, 255]);
    config.remember_colour([0x44, 0x55, 0x66, 255]);
    assert_eq!(config.colour_menu(0), Some(0));
    assert!(config.replace_colour(0, [0xab, 0xcd, 0xef, 255]));
    assert_eq!(
        config.custom_colours,
        vec![[0xab, 0xcd, 0xef, 255], [0x44, 0x55, 0x66, 255]]
    );
    assert!(!config.replace_colour(2, [1, 2, 3, 4]));
}

#[test]
fn a_custom_colour_can_be_removed_from_its_menu() {
    let mut config = Config::default();
    config.remember_colour([0x11, 0x22, 0x33, 255]);
    config.remember_colour([0x44, 0x55, 0x66, 255]);
    assert_eq!(config.colour_menu(0), Some(0));
    assert!(config.forget_colour(0));
    assert_eq!(config.custom_colours, vec![[0x44, 0x55, 0x66, 255]]);
    assert!(!config.forget_colour(5));
    assert_eq!(config.colour_menu(3), None);
}

#[test]
fn a_colour_already_on_the_row_stays_where_it_is() {
    let mut config = Config::default();
    config.remember_colour([1, 1, 1, 255]);
    config.remember_colour([2, 2, 2, 255]);
    assert!(!config.remember_colour([1, 1, 1, 255]));
    assert_eq!(config.custom_colours, vec![[1, 1, 1, 255], [2, 2, 2, 255]]);
    assert!(config.has_colour([2, 2, 2, 255]));
    assert!(!config.has_colour([2, 2, 2, 254]));
}
