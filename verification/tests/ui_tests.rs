use hyprosd::config::Config;
use hyprosd::events::OsdEvent;
use hyprosd::ui::{
    bar_height, bar_visible, bar_width, bar_width_in_range, centered_margin, colour_cuts_char,
    icon_fallback, icon_name, layout_size, present, rgba_channels, DrawMode, DrawState, Icon,
    LayoutKind, Presentation,
};

#[test]
fn draw_state_caps_levels() {
    let mut state = DrawState::new();
    assert_eq!(state.mode(), DrawMode::Value { level: 0 });
    state.set_level(150);
    assert_eq!(state.mode(), DrawMode::Value { level: 100 });
    state.set_level(42);
    assert_eq!(state.mode(), DrawMode::Value { level: 42 });
    state.set_lock();
    assert_eq!(state.mode(), DrawMode::Lock);
    state.show_event(&OsdEvent::Brightness { level: 200 });
    assert_eq!(state.mode(), DrawMode::Value { level: 100 });
    state.show_event(&OsdEvent::NumLock { on: true });
    assert_eq!(state.mode(), DrawMode::Lock);
}

#[test]
fn volume_icon_thresholds() {
    let icon = |level: u8, muted: bool| present(&OsdEvent::Volume { level, muted }).icon;
    assert_eq!(icon(0, false), Icon::VolumeMuted);
    assert_eq!(icon(50, true), Icon::VolumeMuted);
    assert_eq!(icon(1, false), Icon::VolumeLow);
    assert_eq!(icon(34, false), Icon::VolumeLow);
    assert_eq!(icon(35, false), Icon::VolumeMedium);
    assert_eq!(icon(69, false), Icon::VolumeMedium);
    assert_eq!(icon(70, false), Icon::VolumeHigh);
    assert_eq!(icon(100, false), Icon::VolumeHigh);
}

#[test]
fn presentations() {
    assert_eq!(
        present(&OsdEvent::Volume { level: 0, muted: false }),
        Presentation { layout: LayoutKind::Value, icon: Icon::VolumeMuted, dimmed: true }
    );
    assert_eq!(
        present(&OsdEvent::Brightness { level: 0 }),
        Presentation { layout: LayoutKind::Value, icon: Icon::Brightness, dimmed: false }
    );
    assert_eq!(
        present(&OsdEvent::CapsLock { on: false }),
        Presentation { layout: LayoutKind::Lock, icon: Icon::CapsLock, dimmed: true }
    );
    assert_eq!(
        present(&OsdEvent::NumLock { on: true }),
        Presentation { layout: LayoutKind::Lock, icon: Icon::Keyboard, dimmed: false }
    );
}

#[test]
fn icon_names_and_fallback() {
    assert_eq!(icon_name(Icon::VolumeMuted), "audio-volume-muted-symbolic");
    assert_eq!(icon_name(Icon::VolumeLow), "audio-volume-low-symbolic");
    assert_eq!(icon_name(Icon::VolumeMedium), "audio-volume-medium-symbolic");
    assert_eq!(icon_name(Icon::VolumeHigh), "audio-volume-high-symbolic");
    assert_eq!(icon_name(Icon::Brightness), "display-brightness-symbolic");
    assert_eq!(icon_name(Icon::CapsLock), "caps-lock-symbolic");
    assert_eq!(icon_name(Icon::Keyboard), "input-keyboard-symbolic");
    assert_eq!(icon_fallback(Icon::CapsLock), Some(Icon::Keyboard));
    assert_eq!(icon_fallback(Icon::Keyboard), None);
}

#[test]
fn layout_sizes_and_bar() {
    let config = Config::default();
    assert_eq!(layout_size(&config.osd, LayoutKind::Value), (288, 53));
    assert_eq!(layout_size(&config.osd, LayoutKind::Lock), (58, 58));
    assert!(bar_visible(LayoutKind::Value));
    assert!(!bar_visible(LayoutKind::Lock));
    assert!(bar_width_in_range(&config));
    assert_eq!(bar_width(&config), 288 - 36 - 26 - 18);
    assert_eq!(bar_height(&config.osd), 1);
}

#[test]
fn bar_width_and_height_have_floors() {
    let mut config = Config::default();
    config.osd.width = 100;
    assert_eq!(bar_width(&config), 80);
    config.osd.bar_height = 0;
    assert_eq!(bar_height(&config.osd), 1);
    config.osd.bar_height = -4;
    assert_eq!(bar_height(&config.osd), 1);
    config.theme.padding = i32::MAX;
    assert!(!bar_width_in_range(&config));
}

#[test]
fn margins_centre_the_window() {
    assert_eq!(centered_margin(1920, 288), 816);
    assert_eq!(centered_margin(1921, 288), 816);
    assert_eq!(centered_margin(200, 288), 0);
    assert_eq!(centered_margin(288, 288), 0);
}

#[test]
fn theme_colours_parse_to_channels() {
    assert_eq!(rgba_channels("#181818cc"), Some((24, 24, 24, 204)));
    assert_eq!(rgba_channels("#ffffff"), Some((255, 255, 255, 255)));
    assert_eq!(rgba_channels("  ##88C0FF \n"), Some((136, 192, 255, 255)));
    assert_eq!(rgba_channels("+f+f+f"), Some((15, 15, 15, 255)));
    assert_eq!(rgba_channels("-f0000"), None);
    assert_eq!(rgba_channels("#12345"), None);
    assert_eq!(rgba_channels("gg0000"), None);
    assert_eq!(rgba_channels(""), None);
    assert_eq!(rgba_channels("ééé"), None);
    assert!(!colour_cuts_char("ééé"));
    assert!(colour_cuts_char("aé123"));
    assert!(!colour_cuts_char("zzé12"));
    assert!(colour_cuts_char("00aé1"));
}

#[test]
fn formatted_colours_read_back() {
    for (r, g, b, a) in [(0u8, 0u8, 0u8, 0u8), (255, 255, 255, 255), (18, 52, 171, 205), (9, 160, 15, 240)] {
        let lower = format!("#{:02x}{:02x}{:02x}{:02x}", r, g, b, a);
        assert_eq!(rgba_channels(&lower), Some((r, g, b, a)));
        assert!(!colour_cuts_char(&lower));
        let upper = format!("{:02X}{:02X}{:02X}", r, g, b);
        assert_eq!(rgba_channels(&upper), Some((r, g, b, 255)));
    }
}

#[test]
fn padding_hash_and_case_do_not_change_colours() {
    for s in ["181818cc", "#88c0ff", "AbCdEf", "12345", "gg0000", "", "#", "+f+f+f"] {
        let padded = format!("  #{}\n", s);
        assert_eq!(rgba_channels(&padded), rgba_channels(s));
        assert_eq!(rgba_channels(&s.to_ascii_uppercase()), rgba_channels(s));
        assert_eq!(rgba_channels(&s.to_ascii_lowercase()), rgba_channels(s));
    }
}
