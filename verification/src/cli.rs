use vstd::prelude::*;

use crate::events::{OsdCommand, OsdEvent, OsdKind};

verus! {

/// An explicit lock state given on the command line.
#[derive(Clone, Copy, Debug, PartialEq, Eq, Structural)]
pub enum OnOff {
    On,
    Off,
}

/// What `show` was asked to display. A value that is not given is read from
/// the system.
#[derive(Clone, Copy, Debug, PartialEq, Eq)]
pub enum ShowCommand {
    Volume { level: Option<u8>, muted: bool },
    Brightness { level: Option<u8> },
    Caps { state: Option<OnOff> },
    Num { state: Option<OnOff> },
}

/// Why `show` could not build a command.
#[derive(Clone, Copy, Debug, PartialEq, Eq, Structural)]
pub enum ShowError {
    /// No level was given and none could be read.
    VolumeUnreadable,
    /// No level was given and none could be read.
    BrightnessUnreadable,
}

impl ShowError {
    /// The message the command line prints for this error.
    pub fn message(&self) -> (text: &'static str)
        ensures
            *self == ShowError::VolumeUnreadable ==> text@ == "unable to read volume level"@,
            *self == ShowError::BrightnessUnreadable ==> text@ == "unable to read brightness level"@,
    {
        match self {
            ShowError::VolumeUnreadable => {
                let text = "unable to read volume level";
                proof {
                    reveal_strlit("unable to read volume level");
                }
                text
            },
            ShowError::BrightnessUnreadable => {
                let text = "unable to read brightness level";
                proof {
                    reveal_strlit("unable to read brightness level");
                }
                text
            },
        }
    }
}

/// The command for a volume request with no level, given what was read.
/// The mute flag of the request forces muted; otherwise the read state counts.
pub open spec fn volume_outcome(reading: Option<(u8, bool)>, muted: bool) -> Result<OsdCommand, ShowError> {
    match reading {
        Some((level, current)) => Ok(OsdCommand::Show {
            event: OsdEvent::Volume { level, muted: muted || current },
        }),
        None => Err(ShowError::VolumeUnreadable),
    }
}

/// The command for a brightness request with no level, given what was read.
pub open spec fn brightness_outcome(reading: Option<u8>) -> Result<OsdCommand, ShowError> {
    match reading {
        Some(level) => Ok(OsdCommand::Show { event: OsdEvent::Brightness { level } }),
        None => Err(ShowError::BrightnessUnreadable),
    }
}

/// The caps lock event for an on/off state.
pub open spec fn caps_event(on: bool) -> OsdEvent {
    OsdEvent::CapsLock { on }
}

/// The command for a caps lock request with no state, given what was read:
/// when nothing could be read, the daemon is asked for the value it has seen.
pub open spec fn caps_outcome(reading: Option<bool>) -> Result<OsdCommand, ShowError> {
    match reading {
        Some(on) => Ok(OsdCommand::Show { event: OsdEvent::CapsLock { on } }),
        None => Ok(OsdCommand::ShowCurrent { kind: OsdKind::CapsLock }),
    }
}

/// As `caps_outcome`, for num lock.
pub open spec fn num_outcome(reading: Option<bool>) -> Result<OsdCommand, ShowError> {
    match reading {
        Some(on) => Ok(OsdCommand::Show { event: OsdEvent::NumLock { on } }),
        None => Ok(OsdCommand::ShowCurrent { kind: OsdKind::NumLock }),
    }
}

/// Whether an explicit state means on.
pub open spec fn is_on(state: OnOff) -> bool {
    state == OnOff::On
}

/// Builds the command that `show` sends to the daemon. A value given on the
/// command line is used as it is; otherwise the matching query is called
/// (and only that one), and its answer decides the command.
pub fn send_show<V, B, C, N>(
    show: ShowCommand,
    query_volume: V,
    query_brightness: B,
    query_caps_lock: C,
    query_num_lock: N,
) -> (res: Result<OsdCommand, ShowError>) where
    V: FnOnce() -> Option<(u8, bool)>,
    B: FnOnce() -> Option<u8>,
    C: FnOnce() -> Option<bool>,
    N: FnOnce() -> Option<bool>,

    requires
        show matches ShowCommand::Volume { level: None, .. } ==> call_requires(query_volume, ()),
        show matches ShowCommand::Brightness { level: None } ==> call_requires(
            query_brightness,
            (),
        ),
        show matches ShowCommand::Caps { state: None } ==> call_requires(query_caps_lock, ()),
        show matches ShowCommand::Num { state: None } ==> call_requires(query_num_lock, ()),
    ensures
        match show {
            ShowCommand::Volume { level: Some(level), muted } => res == Ok::<OsdCommand, ShowError>(
                OsdCommand::Show { event: OsdEvent::Volume { level, muted } },
            ),
            ShowCommand::Volume { level: None, muted } => exists|r: Option<(u8, bool)>|
                #[trigger] call_ensures(query_volume, (), r) && res == volume_outcome(r, muted),
            ShowCommand::Brightness { level: Some(level) } => res == Ok::<OsdCommand, ShowError>(
                OsdCommand::Show { event: OsdEvent::Brightness { level } },
            ),
            ShowCommand::Brightness { level: None } => exists|r: Option<u8>|
                #[trigger] call_ensures(query_brightness, (), r) && res == brightness_outcome(r),
            ShowCommand::Caps { state: Some(state) } => res == Ok::<OsdCommand, ShowError>(
                OsdCommand::Show { event: OsdEvent::CapsLock { on: is_on(state) } },
            ),
            ShowCommand::Caps { state: None } => exists|r: Option<bool>|
                #[trigger] call_ensures(query_caps_lock, (), r) && res == caps_outcome(r),
            ShowCommand::Num { state: Some(state) } => res == Ok::<OsdCommand, ShowError>(
                OsdCommand::Show { event: OsdEvent::NumLock { on: is_on(state) } },
            ),
            ShowCommand::Num { state: None } => exists|r: Option<bool>|
                #[trigger] call_ensures(query_num_lock, (), r) && res == num_outcome(r),
        },
{
    match show {
        ShowCommand::Volume { level, muted } => {
            if let Some(level) = level {
                Ok(OsdCommand::Show { event: OsdEvent::Volume { level, muted } })
            } else {
                let reading = query_volume();
                match reading {
                    Some((level, current_muted)) => {
                        let muted = if muted {
                            true
                        } else {
                            current_muted
                        };
                        Ok(OsdCommand::Show { event: OsdEvent::Volume { level, muted } })
                    },
                    None => Err(ShowError::VolumeUnreadable),
                }
            }
        },
        ShowCommand::Brightness { level } => {
            if let Some(level) = level {
                Ok(OsdCommand::Show { event: OsdEvent::Brightness { level } })
            } else {
                let reading = query_brightness();
                match reading {
                    Some(level) => Ok(OsdCommand::Show { event: OsdEvent::Brightness { level } }),
                    None => Err(ShowError::BrightnessUnreadable),
                }
            }
        },
        ShowCommand::Caps { state } => match state {
            Some(OnOff::On) => Ok(OsdCommand::Show { event: OsdEvent::CapsLock { on: true } }),
            Some(OnOff::Off) => Ok(OsdCommand::Show { event: OsdEvent::CapsLock { on: false } }),
            None => {
                let reading = query_caps_lock();
                match reading {
                    Some(on) => Ok(OsdCommand::Show { event: OsdEvent::CapsLock { on } }),
                    // some systems do not expose lock leds where the command line can read them
                    None => Ok(OsdCommand::ShowCurrent { kind: OsdKind::CapsLock }),
                }
            },
        },
        ShowCommand::Num { state } => match state {
            Some(OnOff::On) => Ok(OsdCommand::Show { event: OsdEvent::NumLock { on: true } }),
            Some(OnOff::Off) => Ok(OsdCommand::Show { event: OsdEvent::NumLock { on: false } }),
            None => {
                let reading = query_num_lock();
                match reading {
                    Some(on) => Ok(OsdCommand::Show { event: OsdEvent::NumLock { on } }),
                    None => Ok(OsdCommand::ShowCurrent { kind: OsdKind::NumLock }),
                }
            },
        },
    }
}

/// A lock request with no state never fails: it falls back to asking the
/// daemon for the value it has seen.
pub proof fn lemma_lock_requests_never_fail(reading: Option<bool>)
    ensures
        caps_outcome(reading) is Ok,
        num_outcome(reading) is Ok,
        reading is None ==> caps_outcome(reading) == Ok::<OsdCommand, ShowError>(
            OsdCommand::ShowCurrent { kind: OsdKind::CapsLock },
        ),
        reading is None ==> num_outcome(reading) == Ok::<OsdCommand, ShowError>(
            OsdCommand::ShowCurrent { kind: OsdKind::NumLock },
        ),
{
}

/// With the mute flag given, the volume is shown muted whatever was read.
pub proof fn lemma_mute_flag_forces_muted(level: u8, current: bool)
    ensures
        volume_outcome(Some((level, current)), true) == Ok::<OsdCommand, ShowError>(
            OsdCommand::Show { event: OsdEvent::Volume { level, muted: true } },
        ),
{
}

/// Without the mute flag, a read volume is shown at its level and with the
/// mute state that was read, muted or not; with the flag it is shown muted.
/// A volume that could not be read is an error.
pub proof fn lemma_read_volume_keeps_mute_state(level: u8, current: bool, flag: bool)
    ensures
        volume_outcome(Some((level, current)), false) == Ok::<OsdCommand, ShowError>(
            OsdCommand::Show { event: OsdEvent::Volume { level, muted: current } },
        ),
        volume_outcome(Some((level, current)), flag) matches Ok(
            OsdCommand::Show { event: OsdEvent::Volume { level: l, muted: m } },
        ) && l == level && m == (flag || current),
        volume_outcome(Some((level, false)), false) != volume_outcome(Some((level, true)), false),
        volume_outcome(None, flag) == Err::<OsdCommand, ShowError>(ShowError::VolumeUnreadable),
{
}

/// A read brightness is shown at the level read; an unreadable one is an error.
pub proof fn lemma_read_brightness_is_shown(level: u8)
    ensures
        brightness_outcome(Some(level)) == Ok::<OsdCommand, ShowError>(
            OsdCommand::Show { event: OsdEvent::Brightness { level } },
        ),
        brightness_outcome(None) == Err::<OsdCommand, ShowError>(ShowError::BrightnessUnreadable),
{
}

/// A lock state that was read is sent as it was read, for either lock and
/// either value, so the two values give different commands; an explicit `on`
/// means on and `off` means off.
pub proof fn lemma_read_lock_state_is_sent_as_read(on: bool)
    ensures
        caps_outcome(Some(on)) == Ok::<OsdCommand, ShowError>(
            OsdCommand::Show { event: OsdEvent::CapsLock { on } },
        ),
        num_outcome(Some(on)) == Ok::<OsdCommand, ShowError>(
            OsdCommand::Show { event: OsdEvent::NumLock { on } },
        ),
        caps_outcome(Some(true)) != caps_outcome(Some(false)),
        num_outcome(Some(true)) != num_outcome(Some(false)),
        caps_outcome(Some(on)) != num_outcome(Some(on)),
        is_on(OnOff::On),
        !is_on(OnOff::Off),
{
}

} // verus!
