use hyprosd::config::{
    default_bar_height, default_brightness_path, default_lock_size, BackendConfig, Config,
};
use hyprosd::style::{decimal_string, stylesheet};

#[test]
fn built_in_configuration() {
    let config = Config::default();
    assert_eq!(config.osd.width, 288);
    assert_eq!(config.osd.height, 53);
    assert_eq!(config.osd.lock_size, 58);
    assert_eq!(config.osd.bar_height, 1);
    assert_eq!(config.osd.timeout_ms, 1600);
    assert_eq!(config.osd.offset_y, 60);
    assert_eq!(config.theme.background, "#181818cc");
    assert_eq!(config.theme.foreground, "#ffffff");
    assert_eq!(config.theme.accent, "#88c0ff");
    assert_eq!(config.theme.font_family, "Google Sans, sans-serif");
    assert_eq!(config.theme.font_size, 17);
    assert_eq!(config.theme.corner_radius, 20);
    assert_eq!(config.theme.padding, 18);
    assert_eq!(config.theme.icon_size, 26);
    assert_eq!(config.backend.brightness_path, None);
}

#[test]
fn load_or_init_is_the_built_in_configuration() {
    assert_eq!(Config::load_or_init(), Config::default());
}

#[test]
fn defaults_for_missing_fields() {
    assert_eq!(default_lock_size(), 56);
    assert_eq!(default_bar_height(), 6);
    assert_eq!(default_brightness_path(), None);
    assert_eq!(BackendConfig::default().brightness_path, None);
}

#[test]
fn decimal_strings() {
    assert_eq!(decimal_string(0), "0");
    assert_eq!(decimal_string(18), "18");
    assert_eq!(decimal_string(-42), "-42");
    assert_eq!(decimal_string(i32::MAX), i32::MAX.to_string());
    assert_eq!(decimal_string(i32::MIN), i32::MIN.to_string());
}

#[test]
fn stylesheet_holds_padding_and_foreground() {
    let config = Config::default();
    let css = stylesheet(&config.theme);
    assert!(css.contains("padding: 18px;"));
    assert!(css.contains("#hyprosd-icon {\n            color: #ffffff;\n        }"));
    assert!(css.contains("color: rgba(245, 245, 245, 0.55);"));
    assert!(css.starts_with("\n        /* keep gtk's window background"));
    assert!(css.ends_with("}\n        "));
}
