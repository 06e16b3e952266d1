use vstd::prelude::*;

use crate::events::{spec_event_kind, AppMessage, OsdCommand, OsdEvent, OsdKind};

verus! {

/// The last value the daemon has seen of each kind, so that a request to show
/// the current value has something to display.
#[derive(Clone, Copy, Debug, PartialEq, Eq)]
pub struct OsdState {
    pub volume: Option<(u8, bool)>,
    pub brightness: Option<u8>,
    pub caps: Option<bool>,
    pub num: Option<bool>,
}

impl OsdState {
    /// The state before anything was seen.
    pub open spec fn empty() -> OsdState {
        OsdState { volume: None, brightness: None, caps: None, num: None }
    }

    /// The state after `event` was recorded: its kind's slot holds its value,
    /// the other slots are unchanged.
    pub open spec fn recorded(self, event: OsdEvent) -> OsdState {
        match event {
            OsdEvent::Volume { level, muted } => OsdState { volume: Some((level, muted)), ..self },
            OsdEvent::Brightness { level } => OsdState { brightness: Some(level), ..self },
            OsdEvent::CapsLock { on } => OsdState { caps: Some(on), ..self },
            OsdEvent::NumLock { on } => OsdState { num: Some(on), ..self },
        }
    }

    /// The remembered event of a kind, if one was seen.
    pub open spec fn current(self, kind: OsdKind) -> Option<OsdEvent> {
        match kind {
            OsdKind::Volume => match self.volume {
                Some((level, muted)) => Some(OsdEvent::Volume { level, muted }),
                None => None,
            },
            OsdKind::Brightness => match self.brightness {
                Some(level) => Some(OsdEvent::Brightness { level }),
                None => None,
            },
            OsdKind::CapsLock => match self.caps {
                Some(on) => Some(OsdEvent::CapsLock { on }),
                None => None,
            },
            OsdKind::NumLock => match self.num {
                Some(on) => Some(OsdEvent::NumLock { on }),
                None => None,
            },
        }
    }

    /// The event a command asks to show in this state.
    pub open spec fn command_event(self, command: OsdCommand) -> Option<OsdEvent> {
        match command {
            OsdCommand::Show { event } => Some(event),
            OsdCommand::ShowCurrent { kind } => self.current(kind),
        }
    }

    /// What the daemon shows for a message in this state.
    pub open spec fn message_shown(self, message: AppMessage) -> Option<OsdEvent> {
        match message {
            AppMessage::Event(event) => Some(event),
            AppMessage::State(_) => None,
            AppMessage::Command(command) => self.command_event(command),
        }
    }

    /// The state after the daemon handled a message.
    pub open spec fn after_message(self, message: AppMessage) -> OsdState {
        match message {
            AppMessage::Event(event) => self.recorded(event),
            AppMessage::State(event) => self.recorded(event),
            AppMessage::Command(command) => match self.command_event(command) {
                Some(event) => self.recorded(event),
                None => self,
            },
        }
    }
}

impl Default for OsdState {
    /// Nothing seen yet.
    fn default() -> (state: OsdState)
        ensures
            state == OsdState::empty(),
    {
        OsdState { volume: None, brightness: None, caps: None, num: None }
    }
}

/// Remembers the value of `event` in its kind's slot.
pub fn update_state(state: &mut OsdState, event: &OsdEvent)
    ensures
        *final(state) == old(state).recorded(*event),
{
    match event {
        OsdEvent::Volume { level, muted } => state.volume = Some((*level, *muted)),
        OsdEvent::Brightness { level } => state.brightness = Some(*level),
        OsdEvent::CapsLock { on } => state.caps = Some(*on),
        OsdEvent::NumLock { on } => state.num = Some(*on),
    }
}

/// The event a command asks to show: the event itself for `Show`, the
/// remembered value for `ShowCurrent` (`None` when none was seen). The state
/// is left as it was.
pub fn command_to_event(state: &mut OsdState, command: OsdCommand) -> (event: Option<OsdEvent>)
    ensures
        event == old(state).command_event(command),
        *final(state) == *old(state),
{
    match command {
        OsdCommand::Show { event } => Some(event),
        OsdCommand::ShowCurrent { kind } => match kind {
            OsdKind::Volume => match state.volume {
                Some((level, muted)) => Some(OsdEvent::Volume { level, muted }),
                None => None,
            },
            OsdKind::Brightness => match state.brightness {
                Some(level) => Some(OsdEvent::Brightness { level }),
                None => None,
            },
            OsdKind::CapsLock => match state.caps {
                Some(on) => Some(OsdEvent::CapsLock { on }),
                None => None,
            },
            OsdKind::NumLock => match state.num {
                Some(on) => Some(OsdEvent::NumLock { on }),
                None => None,
            },
        },
    }
}

/// One turn of the daemon's loop: records what the message carries and
/// returns the event to show, if any. Start-up values are recorded but not
/// shown; a command whose value is unknown shows nothing and changes nothing.
pub fn handle_message(state: &mut OsdState, message: AppMessage) -> (shown: Option<OsdEvent>)
    ensures
        shown == old(state).message_shown(message),
        *final(state) == old(state).after_message(message),
{
    let event = match message {
        AppMessage::Event(event) => event,
        AppMessage::State(event) => {
            update_state(state, &event);
            return None;
        },
        AppMessage::Command(command) => match command_to_event(state, command) {
            Some(event) => event,
            None => return None,
        },
    };
    update_state(state, &event);
    Some(event)
}

/// After an event was recorded, asking for the current value of its kind
/// gives that event back.
pub proof fn lemma_show_current_gives_back_recorded(state: OsdState, event: OsdEvent)
    ensures
        state.recorded(event).command_event(
            OsdCommand::ShowCurrent { kind: spec_event_kind(event) },
        ) == Some(event),
{
}

/// Recording an event leaves the remembered values of the other kinds as they were.
pub proof fn lemma_record_keeps_other_kinds(state: OsdState, event: OsdEvent, kind: OsdKind)
    requires
        kind != spec_event_kind(event),
    ensures
        state.recorded(event).current(kind) == state.current(kind),
{
}

/// Of two events of one kind, the later one is what is remembered.
pub proof fn lemma_later_record_wins(state: OsdState, first: OsdEvent, second: OsdEvent)
    requires
        spec_event_kind(first) == spec_event_kind(second),
    ensures
        state.recorded(first).recorded(second) == state.recorded(second),
{
}

/// Recording what is already remembered changes nothing.
pub proof fn lemma_record_current_is_noop(state: OsdState, kind: OsdKind)
    requires
        state.current(kind) is Some,
    ensures
        state.recorded(state.current(kind)->0) == state,
{
}

/// Before anything was seen, a request for the current value shows nothing.
pub proof fn lemma_nothing_current_at_start(kind: OsdKind)
    ensures
        OsdState::empty().command_event(OsdCommand::ShowCurrent { kind }) is None,
{
}

/// A `Show` command shows its event whatever the state.
pub proof fn lemma_show_shows_its_event(state: OsdState, event: OsdEvent)
    ensures
        state.command_event(OsdCommand::Show { event }) == Some(event),
{
}

/// Whatever the daemon shows, it also remembers: afterwards the current value
/// of that kind is the event shown.
pub proof fn lemma_shown_is_remembered(state: OsdState, message: AppMessage)
    requires
        state.message_shown(message) is Some,
    ensures
        state.after_message(message).current(spec_event_kind(state.message_shown(message)->0))
            == state.message_shown(message),
{
}

/// A start-up value is shown by a later request for the current value of its
/// kind, although it was not shown when it came.
pub proof fn lemma_state_message_served_later(state: OsdState, event: OsdEvent)
    ensures
        state.message_shown(AppMessage::State(event)) is None,
        state.after_message(AppMessage::State(event)).message_shown(
            AppMessage::Command(OsdCommand::ShowCurrent { kind: spec_event_kind(event) }),
        ) == Some(event),
{
}

/// Every event message is shown as it came, whatever the state, even when it
/// repeats the remembered value; and afterwards it is the remembered value of
/// its kind.
pub proof fn lemma_events_always_shown(state: OsdState, other: OsdState, event: OsdEvent)
    ensures
        state.message_shown(AppMessage::Event(event)) == Some(event),
        state.message_shown(AppMessage::Event(event)) == other.message_shown(
            AppMessage::Event(event),
        ),
        state.recorded(event).message_shown(AppMessage::Event(event)) == Some(event),
        state.after_message(AppMessage::Event(event)).current(spec_event_kind(event)) == Some(
            event,
        ),
        state.after_message(AppMessage::Event(event)) == state.recorded(event),
{
}

} // verus!
