use hyprosd::events::{AppMessage, OsdCommand, OsdEvent, OsdKind};
use hyprosd::state::{command_to_event, handle_message, update_state, OsdState};

#[test]
fn show_current_after_update_gives_back_the_event() {
    let mut state = OsdState::default();
    let event = OsdEvent::Volume { level: 42, muted: true };
    update_state(&mut state, &event);
    let shown = command_to_event(&mut state, OsdCommand::ShowCurrent { kind: OsdKind::Volume });
    assert_eq!(shown, Some(event));
}

#[test]
fn every_kind_reads_back_what_was_recorded() {
    let events = [
        (OsdEvent::Volume { level: 0, muted: false }, OsdKind::Volume),
        (OsdEvent::Brightness { level: 77 }, OsdKind::Brightness),
        (OsdEvent::CapsLock { on: true }, OsdKind::CapsLock),
        (OsdEvent::NumLock { on: false }, OsdKind::NumLock),
    ];
    for (event, kind) in events {
        let mut state = OsdState::default();
        update_state(&mut state, &event);
        assert_eq!(command_to_event(&mut state, OsdCommand::ShowCurrent { kind }), Some(event));
    }
}

#[test]
fn recording_leaves_other_kinds_alone() {
    let mut state = OsdState::default();
    update_state(&mut state, &OsdEvent::Brightness { level: 10 });
    update_state(&mut state, &OsdEvent::CapsLock { on: true });
    assert_eq!(state.brightness, Some(10));
    assert_eq!(state.volume, None);
    assert_eq!(state.num, None);
    assert_eq!(
        command_to_event(&mut state, OsdCommand::ShowCurrent { kind: OsdKind::Brightness }),
        Some(OsdEvent::Brightness { level: 10 })
    );
}

#[test]
fn later_event_of_a_kind_wins() {
    let mut state = OsdState::default();
    update_state(&mut state, &OsdEvent::Volume { level: 10, muted: false });
    update_state(&mut state, &OsdEvent::Volume { level: 90, muted: true });
    assert_eq!(state.volume, Some((90, true)));
}

#[test]
fn nothing_current_before_anything_was_seen() {
    let mut state = OsdState::default();
    for kind in [OsdKind::Volume, OsdKind::Brightness, OsdKind::CapsLock, OsdKind::NumLock] {
        assert_eq!(command_to_event(&mut state, OsdCommand::ShowCurrent { kind }), None);
    }
    assert_eq!(state, OsdState::default());
}

#[test]
fn show_command_passes_its_event_and_keeps_state() {
    let mut state = OsdState::default();
    update_state(&mut state, &OsdEvent::NumLock { on: true });
    let before = state;
    let event = OsdEvent::NumLock { on: false };
    assert_eq!(command_to_event(&mut state, OsdCommand::Show { event }), Some(event));
    assert_eq!(state, before);
}

#[test]
fn state_message_is_remembered_not_shown() {
    let mut state = OsdState::default();
    let shown = handle_message(&mut state, AppMessage::State(OsdEvent::CapsLock { on: true }));
    assert_eq!(shown, None);
    assert_eq!(state.caps, Some(true));
    let later = handle_message(
        &mut state,
        AppMessage::Command(OsdCommand::ShowCurrent { kind: OsdKind::CapsLock }),
    );
    assert_eq!(later, Some(OsdEvent::CapsLock { on: true }));
}

#[test]
fn event_message_is_shown_and_remembered() {
    let mut state = OsdState::default();
    let event = OsdEvent::Brightness { level: 55 };
    assert_eq!(handle_message(&mut state, AppMessage::Event(event)), Some(event));
    assert_eq!(state.brightness, Some(55));
}

#[test]
fn show_command_message_is_shown_and_remembered() {
    let mut state = OsdState::default();
    let event = OsdEvent::Volume { level: 30, muted: false };
    let shown = handle_message(&mut state, AppMessage::Command(OsdCommand::Show { event }));
    assert_eq!(shown, Some(event));
    assert_eq!(state.volume, Some((30, false)));
}

#[test]
fn unknown_current_value_shows_nothing_and_changes_nothing() {
    let mut state = OsdState::default();
    let shown = handle_message(
        &mut state,
        AppMessage::Command(OsdCommand::ShowCurrent { kind: OsdKind::NumLock }),
    );
    assert_eq!(shown, None);
    assert_eq!(state, OsdState::default());
}
