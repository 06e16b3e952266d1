use hyprosd::events::{AppMessage, OsdEvent};
use hyprosd::watch::{
    brightness_message, brightness_seed, lock_notify_messages, lock_seed_messages, observe_lock,
    observe_volume, volume_seed, LockWatch,
};

#[test]
fn lock_change_is_reported_once() {
    let mut last = None;
    assert_eq!(observe_lock(&mut last, Some(true)), Some(true));
    assert_eq!(last, Some(true));
    assert_eq!(observe_lock(&mut last, Some(true)), None);
    assert_eq!(observe_lock(&mut last, None), None);
    assert_eq!(last, Some(true));
    assert_eq!(observe_lock(&mut last, Some(false)), Some(false));
    assert_eq!(last, Some(false));
}

#[test]
fn volume_change_is_reported_once() {
    let mut last = Some((30, false));
    assert_eq!(observe_volume(&mut last, Some((30, false))), None);
    assert_eq!(observe_volume(&mut last, Some((30, true))), Some(OsdEvent::Volume { level: 30, muted: true }));
    assert_eq!(observe_volume(&mut last, None), None);
    assert_eq!(last, None);
    assert_eq!(observe_volume(&mut last, Some((30, true))), Some(OsdEvent::Volume { level: 30, muted: true }));
}

#[test]
fn lock_watch_polls_caps_then_num() {
    let mut watch = LockWatch::new(Some(false), None);
    let first = watch.poll(Some(true), Some(true));
    assert_eq!(
        first,
        vec![
            AppMessage::Event(OsdEvent::CapsLock { on: true }),
            AppMessage::Event(OsdEvent::NumLock { on: true }),
        ]
    );
    assert!(watch.poll(Some(true), Some(true)).is_empty());
    assert!(watch.poll(None, None).is_empty());
    assert_eq!(watch.last_caps, Some(true));
    assert_eq!(watch.poll(Some(true), Some(false)), vec![AppMessage::Event(OsdEvent::NumLock { on: false })]);
}

#[test]
fn seeds_are_state_messages() {
    assert_eq!(
        lock_seed_messages(Some(true), Some(false)),
        vec![
            AppMessage::State(OsdEvent::CapsLock { on: true }),
            AppMessage::State(OsdEvent::NumLock { on: false }),
        ]
    );
    assert_eq!(lock_seed_messages(None, Some(true)), vec![AppMessage::State(OsdEvent::NumLock { on: true })]);
    assert!(lock_seed_messages(None, None).is_empty());
    assert_eq!(volume_seed(Some((5, true))), Some(AppMessage::State(OsdEvent::Volume { level: 5, muted: true })));
    assert_eq!(volume_seed(None), None);
    assert_eq!(brightness_seed(Some(60)), Some(AppMessage::State(OsdEvent::Brightness { level: 60 })));
    assert_eq!(brightness_seed(None), None);
}

#[test]
fn file_events_send_what_can_be_read() {
    assert_eq!(
        lock_notify_messages(true, || Some(true), || None),
        vec![AppMessage::Event(OsdEvent::CapsLock { on: true })]
    );
    assert!(lock_notify_messages(false, || panic!("not read"), || panic!("not read")).is_empty());
    assert_eq!(
        brightness_message(true, || Some(42)),
        Some(AppMessage::Event(OsdEvent::Brightness { level: 42 }))
    );
    assert_eq!(brightness_message(true, || None), None);
    assert_eq!(brightness_message(false, || panic!("not read")), None);
}

#[test]
fn lock_watch_runs_when_an_led_exists() {
    assert!(hyprosd::watch::lock_watch_enabled(true, false));
    assert!(hyprosd::watch::lock_watch_enabled(false, true));
    assert!(hyprosd::watch::lock_watch_enabled(true, true));
    assert!(!hyprosd::watch::lock_watch_enabled(false, false));
}

#[test]
fn lock_run_sends_each_change_once() {
    let seeds = lock_seed_messages(Some(false), None);
    let mut watch = LockWatch::new(Some(false), None);
    let reads = [
        (Some(false), None),
        (Some(true), None),
        (None, None),
        (Some(true), None),
        (Some(false), None),
    ];
    let mut sent = seeds.clone();
    for (caps, num) in reads {
        sent.extend(watch.poll(caps, num));
    }
    assert_eq!(
        sent,
        vec![
            AppMessage::State(OsdEvent::CapsLock { on: false }),
            AppMessage::Event(OsdEvent::CapsLock { on: true }),
            AppMessage::Event(OsdEvent::CapsLock { on: false }),
        ]
    );
}

#[test]
fn volume_run_sends_changes_after_the_seed() {
    let initial = Some((20, false));
    let mut sent: Vec<AppMessage> = volume_seed(initial).into_iter().collect();
    let mut last = initial;
    for current in [Some((20, false)), None, Some((20, false)), Some((25, false)), Some((25, true))] {
        if let Some(event) = observe_volume(&mut last, current) {
            sent.push(AppMessage::Event(event));
        }
    }
    assert_eq!(
        sent,
        vec![
            AppMessage::State(OsdEvent::Volume { level: 20, muted: false }),
            AppMessage::Event(OsdEvent::Volume { level: 20, muted: false }),
            AppMessage::Event(OsdEvent::Volume { level: 25, muted: false }),
            AppMessage::Event(OsdEvent::Volume { level: 25, muted: true }),
        ]
    );
}

#[test]
fn brightness_run_sends_one_state_then_events() {
    let mut sent: Vec<AppMessage> = brightness_seed(Some(40)).into_iter().collect();
    for (modified, level) in [(true, Some(41)), (false, Some(99)), (true, None), (true, Some(41))] {
        if let Some(message) = brightness_message(modified, || level) {
            sent.push(message);
        }
    }
    assert_eq!(
        sent,
        vec![
            AppMessage::State(OsdEvent::Brightness { level: 40 }),
            AppMessage::Event(OsdEvent::Brightness { level: 41 }),
            AppMessage::Event(OsdEvent::Brightness { level: 41 }),
        ]
    );
}
