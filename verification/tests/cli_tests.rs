use hyprosd::cli::{send_show, OnOff, ShowCommand, ShowError};
use hyprosd::events::{OsdCommand, OsdEvent, OsdKind};

fn unused_volume() -> Option<(u8, bool)> {
    panic!("volume must not be queried")
}

fn unused_brightness() -> Option<u8> {
    panic!("brightness must not be queried")
}

fn unused_lock() -> Option<bool> {
    panic!("lock state must not be queried")
}

#[test]
fn explicit_volume_is_sent_without_a_query() {
    let res = send_show(
        ShowCommand::Volume { level: Some(25), muted: false },
        unused_volume,
        unused_brightness,
        unused_lock,
        unused_lock,
    );
    assert_eq!(res, Ok(OsdCommand::Show { event: OsdEvent::Volume { level: 25, muted: false } }));
}

#[test]
fn volume_without_level_uses_the_query() {
    let res = send_show(
        ShowCommand::Volume { level: None, muted: false },
        || Some((40, true)),
        unused_brightness,
        unused_lock,
        unused_lock,
    );
    assert_eq!(res, Ok(OsdCommand::Show { event: OsdEvent::Volume { level: 40, muted: true } }));
}

#[test]
fn mute_flag_forces_muted() {
    let res = send_show(
        ShowCommand::Volume { level: None, muted: true },
        || Some((40, false)),
        unused_brightness,
        unused_lock,
        unused_lock,
    );
    assert_eq!(res, Ok(OsdCommand::Show { event: OsdEvent::Volume { level: 40, muted: true } }));
}

#[test]
fn unreadable_volume_is_an_error() {
    let res = send_show(
        ShowCommand::Volume { level: None, muted: false },
        || None,
        unused_brightness,
        unused_lock,
        unused_lock,
    );
    assert_eq!(res, Err(ShowError::VolumeUnreadable));
    assert_eq!(ShowError::VolumeUnreadable.message(), "unable to read volume level");
}

#[test]
fn brightness_with_and_without_level() {
    let given = send_show(
        ShowCommand::Brightness { level: Some(80) },
        unused_volume,
        unused_brightness,
        unused_lock,
        unused_lock,
    );
    assert_eq!(given, Ok(OsdCommand::Show { event: OsdEvent::Brightness { level: 80 } }));
    let read = send_show(
        ShowCommand::Brightness { level: None },
        unused_volume,
        || Some(33),
        unused_lock,
        unused_lock,
    );
    assert_eq!(read, Ok(OsdCommand::Show { event: OsdEvent::Brightness { level: 33 } }));
    let failed = send_show(
        ShowCommand::Brightness { level: None },
        unused_volume,
        || None,
        unused_lock,
        unused_lock,
    );
    assert_eq!(failed, Err(ShowError::BrightnessUnreadable));
    assert_eq!(ShowError::BrightnessUnreadable.message(), "unable to read brightness level");
}

#[test]
fn explicit_lock_states() {
    let caps_on = send_show(
        ShowCommand::Caps { state: Some(OnOff::On) },
        unused_volume,
        unused_brightness,
        unused_lock,
        unused_lock,
    );
    assert_eq!(caps_on, Ok(OsdCommand::Show { event: OsdEvent::CapsLock { on: true } }));
    let num_off = send_show(
        ShowCommand::Num { state: Some(OnOff::Off) },
        unused_volume,
        unused_brightness,
        unused_lock,
        unused_lock,
    );
    assert_eq!(num_off, Ok(OsdCommand::Show { event: OsdEvent::NumLock { on: false } }));
}

#[test]
fn read_lock_states_are_shown() {
    let caps = send_show(
        ShowCommand::Caps { state: None },
        unused_volume,
        unused_brightness,
        || Some(false),
        unused_lock,
    );
    assert_eq!(caps, Ok(OsdCommand::Show { event: OsdEvent::CapsLock { on: false } }));
    let num = send_show(
        ShowCommand::Num { state: None },
        unused_volume,
        unused_brightness,
        unused_lock,
        || Some(true),
    );
    assert_eq!(num, Ok(OsdCommand::Show { event: OsdEvent::NumLock { on: true } }));
}

#[test]
fn unreadable_lock_asks_daemon_for_current_value() {
    let caps = send_show(
        ShowCommand::Caps { state: None },
        unused_volume,
        unused_brightness,
        || None,
        unused_lock,
    );
    assert_eq!(caps, Ok(OsdCommand::ShowCurrent { kind: OsdKind::CapsLock }));
    let num = send_show(
        ShowCommand::Num { state: None },
        unused_volume,
        unused_brightness,
        unused_lock,
        || None,
    );
    assert_eq!(num, Ok(OsdCommand::ShowCurrent { kind: OsdKind::NumLock }));
}
