use hyprosd::query::{
    brightness_reading, clamp_percent, led_state, pactl_muted, pactl_volume, query_caps_lock,
    query_num_lock, query_volume, wpctl_muted, CAPS_LOCK_LED, NUM_LOCK_LED,
};

#[test]
fn pactl_volume_reads_first_percentage() {
    let out = "Volume: front-left: 32768 /  50% / -18.06 dB,   front-right: 32768 /  50% / -18.06 dB\n        balance 0.00\n";
    assert_eq!(pactl_volume(out), Some(50));
}

#[test]
fn pactl_volume_caps_at_100() {
    assert_eq!(pactl_volume("Volume: front-left: 98304 / 150% / 10.57 dB"), Some(100));
    assert_eq!(pactl_volume("Volume: 255%"), Some(100));
}

#[test]
fn pactl_volume_needs_a_u8_in_the_first_percentage() {
    assert_eq!(pactl_volume("Volume: 256% 40%"), None);
    assert_eq!(pactl_volume("Volume: abc% 40%"), None);
    assert_eq!(pactl_volume("Volume: % 40%"), None);
    assert_eq!(pactl_volume("no percentage here"), None);
    assert_eq!(pactl_volume(""), None);
    assert_eq!(pactl_volume("vol:+7%"), None);
    assert_eq!(pactl_volume("+7%"), Some(7));
    assert_eq!(pactl_volume("007%"), Some(7));
}

#[test]
fn pactl_volume_splits_on_unicode_white_space() {
    assert_eq!(pactl_volume("Volume:\u{a0}30%"), Some(30));
    assert_eq!(pactl_volume("\t\n 12%\r\n"), Some(12));
}

#[test]
fn pactl_mute_is_a_case_insensitive_yes() {
    assert!(pactl_muted("Mute: yes\n"));
    assert!(pactl_muted("Mute: YES"));
    assert!(pactl_muted("eyesight"));
    assert!(!pactl_muted("Mute: no\n"));
    assert!(!pactl_muted(""));
}

#[test]
fn wpctl_mute_marker() {
    assert!(wpctl_muted("Volume: 0.40 [MUTED]\n"));
    assert!(!wpctl_muted("Volume: 0.40\n"));
    assert!(!wpctl_muted("Volume: 0.40 [muted]\n"));
}

#[test]
fn clamp_percent_brings_into_range() {
    assert_eq!(clamp_percent(-5), 0);
    assert_eq!(clamp_percent(0), 0);
    assert_eq!(clamp_percent(45), 45);
    assert_eq!(clamp_percent(100), 100);
    assert_eq!(clamp_percent(153), 100);
}

#[test]
fn led_state_reads_trimmed_u8() {
    assert_eq!(led_state("1\n"), Some(true));
    assert_eq!(led_state("0\n"), Some(false));
    assert_eq!(led_state("  255 "), Some(true));
    assert_eq!(led_state("+3"), Some(true));
    assert_eq!(led_state("256"), None);
    assert_eq!(led_state("-1"), None);
    assert_eq!(led_state(""), None);
    assert_eq!(led_state("on"), None);
}

#[test]
fn brightness_reading_parses_both_files() {
    assert_eq!(brightness_reading("120\n", "255\n"), Some((120, 255)));
    assert_eq!(brightness_reading("4294967295", "4294967295"), Some((u32::MAX, u32::MAX)));
    assert_eq!(brightness_reading("4294967296", "10"), None);
    assert_eq!(brightness_reading("5", "0"), None);
    assert_eq!(brightness_reading("x", "10"), None);
    assert_eq!(brightness_reading("5", ""), None);
}

#[test]
fn query_volume_prefers_wpctl() {
    assert_eq!(query_volume(|| Some((20, false)), || panic!("pactl must not run")), Some((20, false)));
    assert_eq!(query_volume(|| None, || Some((70, true))), Some((70, true)));
    assert_eq!(query_volume(|| None, || None), None);
}

#[test]
fn lock_queries_read_the_led_file() {
    assert_eq!(query_caps_lock(|| Some("1\n".to_string())), Some(true));
    assert_eq!(query_num_lock(|| Some("0\n".to_string())), Some(false));
    assert_eq!(query_caps_lock(|| None), None);
    assert_eq!(query_num_lock(|| Some("garbage".to_string())), None);
    assert_eq!(CAPS_LOCK_LED, "capslock");
    assert_eq!(NUM_LOCK_LED, "numlock");
}
