use vstd::prelude::*;

verus! {

/// Something the display can show.
#[derive(Clone, Copy, Debug, PartialEq, Eq, Structural)]
pub enum OsdEvent {
    Volume { level: u8, muted: bool },
    Brightness { level: u8 },
    CapsLock { on: bool },
    NumLock { on: bool },
}

/// The kind of an event, without its value.
#[derive(Clone, Copy, Debug, PartialEq, Eq, Structural)]
pub enum OsdKind {
    Volume,
    Brightness,
    CapsLock,
    NumLock,
}

/// A request sent to the daemon.
#[derive(Clone, Copy, Debug, PartialEq, Eq, Structural)]
pub enum OsdCommand {
    /// Show this event.
    Show { event: OsdEvent },
    /// Show the last value the daemon has seen of this kind; used when the
    /// command line cannot read the value itself.
    ShowCurrent { kind: OsdKind },
}

/// A message on the daemon's channel.
#[derive(Clone, Copy, Debug, PartialEq, Eq, Structural)]
pub enum AppMessage {
    /// A change noticed by a backend: shown and remembered.
    Event(OsdEvent),
    /// A value read at start-up: remembered, not shown.
    State(OsdEvent),
    /// A request from the command line.
    Command(OsdCommand),
}

/// The kind of an event.
pub open spec fn spec_event_kind(event: OsdEvent) -> OsdKind {
    match event {
        OsdEvent::Volume { .. } => OsdKind::Volume,
        OsdEvent::Brightness { .. } => OsdKind::Brightness,
        OsdEvent::CapsLock { .. } => OsdKind::CapsLock,
        OsdEvent::NumLock { .. } => OsdKind::NumLock,
    }
}

} // verus!
