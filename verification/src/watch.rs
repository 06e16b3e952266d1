use vstd::prelude::*;

use crate::events::{AppMessage, OsdEvent};

verus! {

/// The lock state a poll reports: the read state when it differs from the
/// last one seen, nothing when the read failed or nothing changed.
pub open spec fn lock_change(last: Option<bool>, read: Option<bool>) -> Option<bool> {
    match read {
        Some(on) => if last != Some(on) {
            Some(on)
        } else {
            None
        },
        None => None,
    }
}

/// The last lock state after a poll: a change replaces it, anything else keeps it.
pub open spec fn lock_after(last: Option<bool>, read: Option<bool>) -> Option<bool> {
    match lock_change(last, read) {
        Some(on) => Some(on),
        None => last,
    }
}

/// The volume event a poll reports: the reading, when it differs from the last
/// one and is known.
pub open spec fn volume_change(last: Option<(u8, bool)>, current: Option<(u8, bool)>) -> Option<
    OsdEvent,
> {
    if current != last {
        match current {
            Some((level, muted)) => Some(OsdEvent::Volume { level, muted }),
            None => None,
        }
    } else {
        None
    }
}

/// A caps lock message, when there is a state.
pub open spec fn caps_messages(on: Option<bool>, seeding: bool) -> Seq<AppMessage> {
    match on {
        Some(on) => if seeding {
            seq![AppMessage::State(OsdEvent::CapsLock { on })]
        } else {
            seq![AppMessage::Event(OsdEvent::CapsLock { on })]
        },
        None => seq![],
    }
}

/// A num lock message, when there is a state.
pub open spec fn num_messages(on: Option<bool>, seeding: bool) -> Seq<AppMessage> {
    match on {
        Some(on) => if seeding {
            seq![AppMessage::State(OsdEvent::NumLock { on })]
        } else {
            seq![AppMessage::Event(OsdEvent::NumLock { on })]
        },
        None => seq![],
    }
}

/// The message that seeds the daemon with a volume read at start-up.
pub open spec fn volume_seed_spec(initial: Option<(u8, bool)>) -> Option<AppMessage> {
    match initial {
        Some((level, muted)) => Some(AppMessage::State(OsdEvent::Volume { level, muted })),
        None => None,
    }
}

/// The message that seeds the daemon with a brightness read at start-up.
pub open spec fn brightness_seed_spec(initial: Option<u8>) -> Option<AppMessage> {
    match initial {
        Some(level) => Some(AppMessage::State(OsdEvent::Brightness { level })),
        None => None,
    }
}

/// The message for a file event on the brightness file, given whether it was
/// a modification and the level read for it.
pub open spec fn brightness_event_spec(modified: bool, level: Option<u8>) -> Option<AppMessage> {
    if modified {
        match level {
            Some(level) => Some(AppMessage::Event(OsdEvent::Brightness { level })),
            None => None,
        }
    } else {
        None
    }
}

/// An optional message as a run of messages.
pub open spec fn opt_messages(m: Option<AppMessage>) -> Seq<AppMessage> {
    match m {
        Some(m) => seq![m],
        None => seq![],
    }
}

/// Compares a lock reading with the last state seen; on a change, remembers it
/// and returns it.
pub fn observe_lock(last: &mut Option<bool>, read: Option<bool>) -> (changed: Option<bool>)
    ensures
        changed == lock_change(*old(last), read),
        *final(last) == lock_after(*old(last), read),
{
    if let Some(on) = read {
        let same = match *last {
            Some(prev) => prev == on,
            None => false,
        };
        if !same {
            *last = Some(on);
            return Some(on);
        }
    }
    None
}

/// Compares a volume reading with the last one; remembers the reading and
/// returns the event to send when it changed to a known value. An unknown
/// reading is remembered too, so the next known value counts as a change.
pub fn observe_volume(last: &mut Option<(u8, bool)>, current: Option<(u8, bool)>) -> (event: Option<
    OsdEvent,
>)
    ensures
        event == volume_change(*old(last), current),
        *final(last) == current,
{
    let same = match (*last, current) {
        (Some((l1, m1)), Some((l2, m2))) => l1 == l2 && m1 == m2,
        (None, None) => true,
        _ => false,
    };
    if same {
        return None;
    }
    *last = current;
    match current {
        Some((level, muted)) => Some(OsdEvent::Volume { level, muted }),
        None => None,
    }
}

/// The message that seeds the daemon with the volume read at start-up.
pub fn volume_seed(initial: Option<(u8, bool)>) -> (message: Option<AppMessage>)
    ensures
        message == volume_seed_spec(initial),
{
    match initial {
        Some((level, muted)) => Some(AppMessage::State(OsdEvent::Volume { level, muted })),
        None => None,
    }
}

/// The message that seeds the daemon with the brightness read at start-up.
pub fn brightness_seed(initial: Option<u8>) -> (message: Option<AppMessage>)
    ensures
        message == brightness_seed_spec(initial),
{
    match initial {
        Some(level) => Some(AppMessage::State(OsdEvent::Brightness { level })),
        None => None,
    }
}

/// The message for a file event on the brightness file: the level is read
/// only for a modification, and sent when it could be read.
pub fn brightness_message<R>(modified: bool, read_level: R) -> (message: Option<AppMessage>) where
    R: FnOnce() -> Option<u8>,

    requires
        modified ==> call_requires(read_level, ()),
    ensures
        !modified ==> message is None,
        modified ==> exists|l: Option<u8>|
            #[trigger] call_ensures(read_level, (), l) && message == brightness_event_spec(
                true,
                l,
            ),
{
    if !modified {
        return None;
    }
    match read_level() {
        Some(level) => Some(AppMessage::Event(OsdEvent::Brightness { level })),
        None => None,
    }
}

/// The messages that seed the daemon with the lock states read at start-up:
/// caps lock first, then num lock, each only when it could be read.
pub fn lock_seed_messages(caps: Option<bool>, num: Option<bool>) -> (messages: Vec<AppMessage>)
    ensures
        messages@ == caps_messages(caps, true) + num_messages(num, true),
{
    let mut messages: Vec<AppMessage> = Vec::new();
    if let Some(on) = caps {
        messages.push(AppMessage::State(OsdEvent::CapsLock { on }));
    }
    if let Some(on) = num {
        messages.push(AppMessage::State(OsdEvent::NumLock { on }));
    }
    assert(messages@ =~= caps_messages(caps, true) + num_messages(num, true));
    messages
}

/// The messages for a file event on the LED files: for a modification, each
/// LED is read (caps lock first) and its state is sent when it could be read,
/// changed or not.
pub fn lock_notify_messages<C, N>(modified: bool, read_caps: C, read_num: N) -> (messages: Vec<
    AppMessage,
>) where C: FnOnce() -> Option<bool>, N: FnOnce() -> Option<bool>
    requires
        modified ==> call_requires(read_caps, ()),
        modified ==> call_requires(read_num, ()),
    ensures
        !modified ==> messages@.len() == 0,
        modified ==> exists|c: Option<bool>, n: Option<bool>|
            #[trigger] call_ensures(read_caps, (), c) && #[trigger] call_ensures(read_num, (), n)
                && messages@ == caps_messages(c, false) + num_messages(n, false),
{
    let mut messages: Vec<AppMessage> = Vec::new();
    if !modified {
        return messages;
    }
    let caps = read_caps();
    if let Some(on) = caps {
        messages.push(AppMessage::Event(OsdEvent::CapsLock { on }));
    }
    let num = read_num();
    if let Some(on) = num {
        messages.push(AppMessage::Event(OsdEvent::NumLock { on }));
    }
    assert(messages@ =~= caps_messages(caps, false) + num_messages(num, false));
    messages
}

/// The lock states that the poll loop last saw. File events can be missed on
/// some setups, so the loop polls as a second path.
#[derive(Clone, Copy, Debug, PartialEq, Eq)]
pub struct LockWatch {
    pub last_caps: Option<bool>,
    pub last_num: Option<bool>,
}

impl LockWatch {
    /// Starts from the states read before the first poll.
    pub fn new(caps: Option<bool>, num: Option<bool>) -> (watch: LockWatch)
        ensures
            watch.last_caps == caps,
            watch.last_num == num,
    {
        LockWatch { last_caps: caps, last_num: num }
    }

    /// One poll: the changed states, caps lock first, as messages to send.
    pub fn poll(&mut self, caps: Option<bool>, num: Option<bool>) -> (messages: Vec<AppMessage>)
        ensures
            final(self).last_caps == lock_after(old(self).last_caps, caps),
            final(self).last_num == lock_after(old(self).last_num, num),
            messages@ == caps_messages(lock_change(old(self).last_caps, caps), false)
                + num_messages(lock_change(old(self).last_num, num), false),
    {
        let mut messages: Vec<AppMessage> = Vec::new();
        let caps_change = observe_lock(&mut self.last_caps, caps);
        if let Some(on) = caps_change {
            messages.push(AppMessage::Event(OsdEvent::CapsLock { on }));
        }
        let num_change = observe_lock(&mut self.last_num, num);
        if let Some(on) = num_change {
            messages.push(AppMessage::Event(OsdEvent::NumLock { on }));
        }
        assert(messages@ =~= caps_messages(caps_change, false) + num_messages(num_change, false));
        messages
    }
}

/// Whether the lock watcher has anything to watch: it runs when at least one
/// of the two LEDs was found.
pub fn lock_watch_enabled(caps_found: bool, num_found: bool) -> (enabled: bool)
    ensures
        enabled == (caps_found || num_found),
{
    caps_found || num_found
}

/// The messages of a run of lock polls, one pair of readings per poll, as
/// `LockWatch::poll` sends them.
pub open spec fn lock_poll_trace(
    caps: Option<bool>,
    num: Option<bool>,
    reads: Seq<(Option<bool>, Option<bool>)>,
) -> Seq<AppMessage>
    decreases reads.len(),
{
    if reads.len() == 0 {
        seq![]
    } else {
        let c = reads[0].0;
        let n = reads[0].1;
        caps_messages(lock_change(caps, c), false) + num_messages(lock_change(num, n), false)
            + lock_poll_trace(lock_after(caps, c), lock_after(num, n), reads.drop_first())
    }
}

/// Everything the lock watcher's thread sends from its start-up readings and
/// its polls: the start-up states first, then the changes the polls find.
pub open spec fn lock_thread_trace(
    seed_caps: Option<bool>,
    seed_num: Option<bool>,
    start_caps: Option<bool>,
    start_num: Option<bool>,
    reads: Seq<(Option<bool>, Option<bool>)>,
) -> Seq<AppMessage> {
    caps_messages(seed_caps, true) + num_messages(seed_num, true) + lock_poll_trace(
        start_caps,
        start_num,
        reads,
    )
}

/// The states a run of readings changes to, starting from `last`: each read
/// state that differs from the one recorded before it.
pub open spec fn lock_changes(last: Option<bool>, reads: Seq<Option<bool>>) -> Seq<bool>
    decreases reads.len(),
{
    if reads.len() == 0 {
        seq![]
    } else {
        match lock_change(last, reads[0]) {
            Some(on) => seq![on] + lock_changes(Some(on), reads.drop_first()),
            None => lock_changes(last, reads.drop_first()),
        }
    }
}

/// The caps lock states that a run of messages sends as events, in order.
pub open spec fn caps_event_values(ms: Seq<AppMessage>) -> Seq<bool>
    decreases ms.len(),
{
    if ms.len() == 0 {
        seq![]
    } else {
        (match ms[0] {
            AppMessage::Event(OsdEvent::CapsLock { on }) => seq![on],
            _ => seq![],
        }) + caps_event_values(ms.drop_first())
    }
}

/// The num lock states that a run of messages sends as events, in order.
pub open spec fn num_event_values(ms: Seq<AppMessage>) -> Seq<bool>
    decreases ms.len(),
{
    if ms.len() == 0 {
        seq![]
    } else {
        (match ms[0] {
            AppMessage::Event(OsdEvent::NumLock { on }) => seq![on],
            _ => seq![],
        }) + num_event_values(ms.drop_first())
    }
}

/// Whether a message is about caps lock.
pub open spec fn is_caps_message(m: AppMessage) -> bool {
    ||| m matches AppMessage::Event(OsdEvent::CapsLock { .. })
    ||| m matches AppMessage::State(OsdEvent::CapsLock { .. })
}

/// Whether a message is about num lock.
pub open spec fn is_num_message(m: AppMessage) -> bool {
    ||| m matches AppMessage::Event(OsdEvent::NumLock { .. })
    ||| m matches AppMessage::State(OsdEvent::NumLock { .. })
}

/// The caps lock readings of a run of polls.
pub open spec fn caps_reads(reads: Seq<(Option<bool>, Option<bool>)>) -> Seq<Option<bool>> {
    reads.map_values(|r: (Option<bool>, Option<bool>)| r.0)
}

/// The num lock readings of a run of polls.
pub open spec fn num_reads(reads: Seq<(Option<bool>, Option<bool>)>) -> Seq<Option<bool>> {
    reads.map_values(|r: (Option<bool>, Option<bool>)| r.1)
}

proof fn lemma_caps_values_concat(a: Seq<AppMessage>, b: Seq<AppMessage>)
    ensures
        caps_event_values(a + b) == caps_event_values(a) + caps_event_values(b),
    decreases a.len(),
{
    if a.len() == 0 {
        assert(a + b =~= b);
    } else {
        lemma_caps_values_concat(a.drop_first(), b);
        assert((a + b).drop_first() =~= a.drop_first() + b);
        assert((a + b)[0] == a[0]);
    }
}

proof fn lemma_num_values_concat(a: Seq<AppMessage>, b: Seq<AppMessage>)
    ensures
        num_event_values(a + b) == num_event_values(a) + num_event_values(b),
    decreases a.len(),
{
    if a.len() == 0 {
        assert(a + b =~= b);
    } else {
        lemma_num_values_concat(a.drop_first(), b);
        assert((a + b).drop_first() =~= a.drop_first() + b);
        assert((a + b)[0] == a[0]);
    }
}

/// The caps lock events of a run of polls are exactly the changes of the caps
/// lock readings, and likewise for num lock: each change is sent once, in order.
pub proof fn lemma_lock_polls_send_changes(
    caps: Option<bool>,
    num: Option<bool>,
    reads: Seq<(Option<bool>, Option<bool>)>,
)
    ensures
        caps_event_values(lock_poll_trace(caps, num, reads)) == lock_changes(caps, caps_reads(reads)),
        num_event_values(lock_poll_trace(caps, num, reads)) == lock_changes(num, num_reads(reads)),
    decreases reads.len(),
{
    if reads.len() > 0 {
        let c = reads[0].0;
        let n = reads[0].1;
        let cm = caps_messages(lock_change(caps, c), false);
        let nm = num_messages(lock_change(num, n), false);
        let rest = lock_poll_trace(lock_after(caps, c), lock_after(num, n), reads.drop_first());
        lemma_lock_polls_send_changes(lock_after(caps, c), lock_after(num, n), reads.drop_first());
        lemma_caps_values_concat(cm + nm, rest);
        lemma_caps_values_concat(cm, nm);
        lemma_num_values_concat(cm + nm, rest);
        lemma_num_values_concat(cm, nm);
        assert(caps_reads(reads).drop_first() =~= caps_reads(reads.drop_first()));
        assert(num_reads(reads).drop_first() =~= num_reads(reads.drop_first()));
        assert(caps_event_values(nm) =~= seq![]) by {
            reveal_with_fuel(caps_event_values, 2);
        }
        assert(num_event_values(cm) =~= seq![]) by {
            reveal_with_fuel(num_event_values, 2);
        }
        reveal_with_fuel(caps_event_values, 2);
        reveal_with_fuel(num_event_values, 2);
        assert(caps_event_values(cm) + caps_event_values(nm) + caps_event_values(rest)
            =~= lock_changes(caps, caps_reads(reads)));
        assert(num_event_values(cm) + num_event_values(nm) + num_event_values(rest)
            =~= lock_changes(num, num_reads(reads)));
    } else {
        assert(lock_poll_trace(caps, num, reads) =~= seq![]);
    }
}

/// A sent change always differs from the state recorded before it: the first
/// from the starting state, each later one from the change before it. A run
/// in which nothing could be read sends nothing.
pub proof fn lemma_lock_changes_differ(last: Option<bool>, reads: Seq<Option<bool>>)
    ensures
        forall|j: int|
            0 <= j < lock_changes(last, reads).len() ==> Some(#[trigger] lock_changes(
                last,
                reads,
            )[j]) != (if j == 0 {
                last
            } else {
                Some(lock_changes(last, reads)[j - 1])
            }),
        (forall|i: int| 0 <= i < reads.len() ==> #[trigger] reads[i] is None) ==> lock_changes(
            last,
            reads,
        ).len() == 0,
    decreases reads.len(),
{
    if reads.len() > 0 {
        let rest = reads.drop_first();
        match lock_change(last, reads[0]) {
            Some(on) => {
                lemma_lock_changes_differ(Some(on), rest);
                let r = lock_changes(Some(on), rest);
                assert(lock_changes(last, reads) == seq![on] + r);
                assert forall|j: int| 0 <= j < lock_changes(last, reads).len() implies Some(
                    #[trigger] lock_changes(last, reads)[j],
                ) != (if j == 0 {
                    last
                } else {
                    Some(lock_changes(last, reads)[j - 1])
                }) by {
                    if j > 0 {
                        assert(lock_changes(last, reads)[j] == r[j - 1]);
                        if j > 1 {
                            assert(lock_changes(last, reads)[j - 1] == r[j - 2]);
                        }
                    }
                }
            },
            None => {
                lemma_lock_changes_differ(last, rest);
                if forall|i: int| 0 <= i < reads.len() ==> #[trigger] reads[i] is None {
                    assert forall|i: int| 0 <= i < rest.len() implies #[trigger] rest[i] is None by {
                        assert(rest[i] == reads[i + 1]);
                    }
                }
            },
        }
    }
}

/// Every message of a run of polls is an event; none is a start-up state.
pub proof fn lemma_lock_polls_send_events(
    caps: Option<bool>,
    num: Option<bool>,
    reads: Seq<(Option<bool>, Option<bool>)>,
)
    ensures
        forall|i: int|
            0 <= i < lock_poll_trace(caps, num, reads).len() ==> #[trigger] lock_poll_trace(
                caps,
                num,
                reads,
            )[i] is Event,
    decreases reads.len(),
{
    if reads.len() > 0 {
        let c = reads[0].0;
        let n = reads[0].1;
        lemma_lock_polls_send_events(lock_after(caps, c), lock_after(num, n), reads.drop_first());
    }
}

/// Nothing about an LED whose readings are all missing (because it was not
/// found) is ever sent by a run of polls.
pub proof fn lemma_lock_polls_skip_absent(
    caps: Option<bool>,
    num: Option<bool>,
    reads: Seq<(Option<bool>, Option<bool>)>,
)
    ensures
        (forall|i: int| 0 <= i < reads.len() ==> (#[trigger] reads[i]).0 is None) ==> forall|
            i: int,
        |
            0 <= i < lock_poll_trace(caps, num, reads).len() ==> !is_caps_message(
                #[trigger] lock_poll_trace(caps, num, reads)[i],
            ),
        (forall|i: int| 0 <= i < reads.len() ==> (#[trigger] reads[i]).1 is None) ==> forall|
            i: int,
        |
            0 <= i < lock_poll_trace(caps, num, reads).len() ==> !is_num_message(
                #[trigger] lock_poll_trace(caps, num, reads)[i],
            ),
    decreases reads.len(),
{
    if reads.len() > 0 {
        let c = reads[0].0;
        let n = reads[0].1;
        let rest = reads.drop_first();
        lemma_lock_polls_skip_absent(lock_after(caps, c), lock_after(num, n), rest);
        let cm = caps_messages(lock_change(caps, c), false);
        let nm = num_messages(lock_change(num, n), false);
        let tail = lock_poll_trace(lock_after(caps, c), lock_after(num, n), rest);
        let trace = lock_poll_trace(caps, num, reads);
        assert(trace == cm + nm + tail);
        if forall|i: int| 0 <= i < reads.len() ==> (#[trigger] reads[i]).0 is None {
            assert forall|i: int| 0 <= i < rest.len() implies (#[trigger] rest[i]).0 is None by {
                assert(rest[i] == reads[i + 1]);
            }
            assert(reads[0].0 is None);
            assert(cm.len() == 0);
            assert forall|i: int| 0 <= i < trace.len() implies !is_caps_message(#[trigger] trace[i]) by {
                if i < nm.len() {
                    assert(trace[i] == nm[i]);
                } else {
                    assert(trace[i] == tail[i - nm.len()]);
                }
            }
        }
        if forall|i: int| 0 <= i < reads.len() ==> (#[trigger] reads[i]).1 is None {
            assert forall|i: int| 0 <= i < rest.len() implies (#[trigger] rest[i]).1 is None by {
                assert(rest[i] == reads[i + 1]);
            }
            assert(reads[0].1 is None);
            assert(nm.len() == 0);
            assert forall|i: int| 0 <= i < trace.len() implies !is_num_message(#[trigger] trace[i]) by {
                if i < cm.len() {
                    assert(trace[i] == cm[i]);
                } else {
                    assert(trace[i] == tail[i - cm.len()]);
                }
            }
        }
    }
}

/// The lock watcher's thread sends its start-up states first, as states, and
/// then only events; an LED that was not found (no start-up state, no
/// readings) gets no message at all; and the events of each LED are exactly
/// the changes of its readings from the state the polls started with.
pub proof fn lemma_lock_thread(
    seed_caps: Option<bool>,
    seed_num: Option<bool>,
    start_caps: Option<bool>,
    start_num: Option<bool>,
    reads: Seq<(Option<bool>, Option<bool>)>,
)
    ensures
        ({
            let seeds = caps_messages(seed_caps, true) + num_messages(seed_num, true);
            let trace = lock_thread_trace(seed_caps, seed_num, start_caps, start_num, reads);
            &&& forall|i: int| 0 <= i < seeds.len() ==> #[trigger] trace[i] == seeds[i] && trace[i] is State
            &&& forall|i: int| seeds.len() <= i < trace.len() ==> #[trigger] trace[i] is Event
        }),
        (seed_caps is None && forall|i: int| 0 <= i < reads.len() ==> (#[trigger] reads[i]).0 is None)
            ==> forall|i: int|
            0 <= i < lock_thread_trace(seed_caps, seed_num, start_caps, start_num, reads).len()
                ==> !is_caps_message(
                #[trigger] lock_thread_trace(seed_caps, seed_num, start_caps, start_num, reads)[i],
            ),
        (seed_num is None && forall|i: int| 0 <= i < reads.len() ==> (#[trigger] reads[i]).1 is None)
            ==> forall|i: int|
            0 <= i < lock_thread_trace(seed_caps, seed_num, start_caps, start_num, reads).len()
                ==> !is_num_message(
                #[trigger] lock_thread_trace(seed_caps, seed_num, start_caps, start_num, reads)[i],
            ),
        caps_event_values(lock_thread_trace(seed_caps, seed_num, start_caps, start_num, reads))
            == lock_changes(start_caps, caps_reads(reads)),
        num_event_values(lock_thread_trace(seed_caps, seed_num, start_caps, start_num, reads))
            == lock_changes(start_num, num_reads(reads)),
{
    let seeds = caps_messages(seed_caps, true) + num_messages(seed_num, true);
    let polls = lock_poll_trace(start_caps, start_num, reads);
    let trace = lock_thread_trace(seed_caps, seed_num, start_caps, start_num, reads);
    assert(trace == seeds + polls);
    lemma_lock_polls_send_events(start_caps, start_num, reads);
    lemma_lock_polls_skip_absent(start_caps, start_num, reads);
    lemma_lock_polls_send_changes(start_caps, start_num, reads);
    assert forall|i: int| seeds.len() <= i < trace.len() implies #[trigger] trace[i] is Event by {
        assert(trace[i] == polls[i - seeds.len()]);
    }
    assert forall|i: int| 0 <= i < seeds.len() implies #[trigger] trace[i] == seeds[i] && trace[i] is State by {
    }
    lemma_caps_values_concat(seeds, polls);
    lemma_num_values_concat(seeds, polls);
    lemma_caps_values_concat(caps_messages(seed_caps, true), num_messages(seed_num, true));
    lemma_num_values_concat(caps_messages(seed_caps, true), num_messages(seed_num, true));
    reveal_with_fuel(caps_event_values, 2);
    reveal_with_fuel(num_event_values, 2);
    assert(caps_event_values(seeds) =~= seq![]);
    assert(num_event_values(seeds) =~= seq![]);
    assert(caps_event_values(trace) =~= caps_event_values(polls));
    assert(num_event_values(trace) =~= num_event_values(polls));
}

/// The messages of one volume poll, given the previous reading.
pub open spec fn volume_step(prev: Option<(u8, bool)>, cur: Option<(u8, bool)>) -> Seq<AppMessage> {
    match volume_change(prev, cur) {
        Some(event) => seq![AppMessage::Event(event)],
        None => seq![],
    }
}

/// The messages of a run of volume polls, as `observe_volume` finds them;
/// each poll remembers its reading.
pub open spec fn volume_poll_trace(last: Option<(u8, bool)>, reads: Seq<Option<(u8, bool)>>) -> Seq<
    AppMessage,
>
    decreases reads.len(),
{
    if reads.len() == 0 {
        seq![]
    } else {
        volume_step(last, reads[0]) + volume_poll_trace(reads[0], reads.drop_first())
    }
}

/// Everything the volume poller's thread sends: the start-up reading as a
/// state, then what the polls find.
pub open spec fn volume_thread_trace(initial: Option<(u8, bool)>, reads: Seq<Option<(u8, bool)>>) -> Seq<
    AppMessage,
> {
    opt_messages(volume_seed_spec(initial)) + volume_poll_trace(initial, reads)
}

/// The reading before poll `k`: the start-up reading for the first poll.
pub open spec fn volume_prev(initial: Option<(u8, bool)>, reads: Seq<Option<(u8, bool)>>, k: int) -> Option<
    (u8, bool),
> {
    if k == 0 {
        initial
    } else {
        reads[k - 1]
    }
}

/// The volume poller sends the start-up reading as a state, when it is known,
/// and then, poll by poll, an event exactly when the reading is known and
/// differs from the reading of the poll before; nothing else.
pub proof fn lemma_volume_thread(initial: Option<(u8, bool)>, reads: Seq<Option<(u8, bool)>>)
    ensures
        volume_thread_trace(initial, reads) == opt_messages(volume_seed_spec(initial)) + Seq::new(
            reads.len(),
            |k: int| volume_step(volume_prev(initial, reads, k), reads[k]),
        ).flatten(),
{
    lemma_volume_polls_by_pairs(initial, reads);
}

proof fn lemma_volume_polls_by_pairs(initial: Option<(u8, bool)>, reads: Seq<Option<(u8, bool)>>)
    ensures
        volume_poll_trace(initial, reads) == Seq::new(
            reads.len(),
            |k: int| volume_step(volume_prev(initial, reads, k), reads[k]),
        ).flatten(),
    decreases reads.len(),
{
    let steps = Seq::new(
        reads.len(),
        |k: int| volume_step(volume_prev(initial, reads, k), reads[k]),
    );
    if reads.len() == 0 {
        assert(steps.flatten() =~= seq![]);
    } else {
        let rest = reads.drop_first();
        lemma_volume_polls_by_pairs(reads[0], rest);
        let rest_steps = Seq::new(
            rest.len(),
            |k: int| volume_step(volume_prev(reads[0], rest, k), rest[k]),
        );
        assert(steps.drop_first() =~= rest_steps) by {
            assert forall|k: int| 0 <= k < rest_steps.len() implies steps.drop_first()[k]
                == rest_steps[k] by {
                assert(rest[k] == reads[k + 1]);
                if k > 0 {
                    assert(rest[k - 1] == reads[k]);
                }
            }
        }
        assert(steps.first() == volume_step(initial, reads[0]));
    }
}

/// The events of a run of brightness file events: one per modification whose
/// level could be read.
pub open spec fn brightness_event_trace(events: Seq<(bool, Option<u8>)>) -> Seq<AppMessage>
    decreases events.len(),
{
    if events.len() == 0 {
        seq![]
    } else {
        opt_messages(brightness_event_spec(events[0].0, events[0].1)) + brightness_event_trace(
            events.drop_first(),
        )
    }
}

/// Everything the brightness watcher sends: the start-up level as a state,
/// then the events.
pub open spec fn brightness_thread_trace(initial: Option<u8>, events: Seq<(bool, Option<u8>)>) -> Seq<
    AppMessage,
> {
    opt_messages(brightness_seed_spec(initial)) + brightness_event_trace(events)
}

/// How many file events are modifications with a readable level.
pub open spec fn readable_modifications(events: Seq<(bool, Option<u8>)>) -> nat
    decreases events.len(),
{
    if events.len() == 0 {
        0
    } else {
        (if events[0].0 && events[0].1 is Some {
            1nat
        } else {
            0nat
        }) + readable_modifications(events.drop_first())
    }
}

proof fn lemma_brightness_events(events: Seq<(bool, Option<u8>)>)
    ensures
        brightness_event_trace(events).len() == readable_modifications(events),
        forall|i: int|
            0 <= i < brightness_event_trace(events).len() ==> exists|j: int, level: u8|
                0 <= j < events.len() && #[trigger] brightness_event_trace(events)[i]
                    == AppMessage::Event(OsdEvent::Brightness { level }) && events[j] == (
                    true,
                    Some(level),
                ),
    decreases events.len(),
{
    if events.len() > 0 {
        let rest = events.drop_first();
        lemma_brightness_events(rest);
        let head = opt_messages(brightness_event_spec(events[0].0, events[0].1));
        let tail = brightness_event_trace(rest);
        let trace = brightness_event_trace(events);
        assert(trace == head + tail);
        assert forall|i: int| 0 <= i < trace.len() implies exists|j: int, level: u8|
            0 <= j < events.len() && #[trigger] trace[i] == AppMessage::Event(
                OsdEvent::Brightness { level },
            ) && events[j] == (true, Some(level)) by {
            if i < head.len() {
                let level = events[0].1->0;
                assert(trace[i] == AppMessage::Event(OsdEvent::Brightness { level }));
                assert(events[0] == (true, Some(level)));
            } else {
                assert(trace[i] == tail[i - head.len()]);
                let (j, level) = choose|j: int, level: u8|
                    0 <= j < rest.len() && #[trigger] tail[i - head.len()] == AppMessage::Event(
                        OsdEvent::Brightness { level },
                    ) && rest[j] == (true, Some(level));
                assert(events[j + 1] == rest[j]);
            }
        }
    }
}

/// The brightness watcher sends at most one state, the start-up level, and it
/// comes first; every other message is a brightness event whose level was
/// read for a modification, and there is one for each modification with a
/// readable level.
pub proof fn lemma_brightness_thread(initial: Option<u8>, events: Seq<(bool, Option<u8>)>)
    ensures
        ({
            let trace = brightness_thread_trace(initial, events);
            let seeds = opt_messages(brightness_seed_spec(initial));
            &&& initial matches Some(level) ==> trace[0] == AppMessage::State(
                OsdEvent::Brightness { level },
            )
            &&& trace.len() == seeds.len() + readable_modifications(events)
            &&& forall|i: int|
                seeds.len() <= i < trace.len() ==> exists|j: int, level: u8|
                    0 <= j < events.len() && #[trigger] trace[i] == AppMessage::Event(
                        OsdEvent::Brightness { level },
                    ) && events[j] == (true, Some(level))
        }),
        forall|i: int|
            0 <= i < brightness_thread_trace(initial, events).len() ==> (
            #[trigger] brightness_thread_trace(initial, events)[i] is State <==> (i == 0
                && initial is Some)),
{
    lemma_brightness_events(events);
    let trace = brightness_thread_trace(initial, events);
    let seeds = opt_messages(brightness_seed_spec(initial));
    let tail = brightness_event_trace(events);
    assert(trace == seeds + tail);
    assert forall|i: int| seeds.len() <= i < trace.len() implies exists|j: int, level: u8|
        0 <= j < events.len() && #[trigger] trace[i] == AppMessage::Event(
            OsdEvent::Brightness { level },
        ) && events[j] == (true, Some(level)) by {
        assert(trace[i] == tail[i - seeds.len()]);
    }
    assert forall|i: int| 0 <= i < trace.len() implies (#[trigger] trace[i] is State <==> (i == 0
        && initial is Some)) by {
        if i >= seeds.len() {
            assert(trace[i] == tail[i - seeds.len()]);
            let (j, level) = choose|j: int, level: u8|
                0 <= j < events.len() && #[trigger] tail[i - seeds.len()] == AppMessage::Event(
                    OsdEvent::Brightness { level },
                ) && events[j] == (true, Some(level));
        }
    }
}

/// A lock poll reports a state exactly when it was read and differs from the
/// last one; afterwards the last state is the one read.
pub proof fn lemma_lock_change_exact(last: Option<bool>, on: bool)
    ensures
        (lock_change(last, Some(on)) is Some) <==> last != Some(on),
        lock_after(last, Some(on)) == Some(on),
        lock_change(last, None) is None,
        lock_after(last, None) == last,
{
}

/// Polling the same lock state twice reports it at most once.
pub proof fn lemma_lock_repeat_is_quiet(last: Option<bool>, read: Option<bool>)
    ensures
        lock_change(lock_after(last, read), read) is None,
        lock_after(lock_after(last, read), read) == lock_after(last, read),
{
}

/// Polling the same volume twice reports it at most once, and a volume event
/// always carries the reading.
pub proof fn lemma_volume_repeat_is_quiet(last: Option<(u8, bool)>, current: Option<(u8, bool)>)
    ensures
        volume_change(current, current) is None,
        volume_change(last, current) matches Some(OsdEvent::Volume { level, muted }) ==> current
            == Some((level, muted)),
        (volume_change(last, current) is Some) <==> (current is Some && current != last),
{
}

/// Every message carries the reading it was made from, as a start-up state
/// when seeding and as an event otherwise; a missing reading makes no message,
/// and a brightness file event that is not a modification makes none either.
pub proof fn lemma_messages_carry_readings(
    on: bool,
    level: u8,
    muted: bool,
    seeding: bool,
    last: Option<(u8, bool)>,
    read: Option<u8>,
)
    ensures
        caps_messages(Some(on), true) == seq![AppMessage::State(OsdEvent::CapsLock { on })],
        caps_messages(Some(on), false) == seq![AppMessage::Event(OsdEvent::CapsLock { on })],
        num_messages(Some(on), true) == seq![AppMessage::State(OsdEvent::NumLock { on })],
        num_messages(Some(on), false) == seq![AppMessage::Event(OsdEvent::NumLock { on })],
        caps_messages(None, seeding).len() == 0,
        num_messages(None, seeding).len() == 0,
        volume_seed_spec(Some((level, muted))) == Some(
            AppMessage::State(OsdEvent::Volume { level, muted }),
        ),
        volume_seed_spec(None) is None,
        brightness_seed_spec(Some(level)) == Some(AppMessage::State(OsdEvent::Brightness { level })),
        brightness_seed_spec(None) is None,
        brightness_event_spec(true, Some(level)) == Some(
            AppMessage::Event(OsdEvent::Brightness { level }),
        ),
        brightness_event_spec(true, None) is None,
        brightness_event_spec(false, read) is None,
        volume_change(last, Some((level, muted))) is Some ==> volume_change(
            last,
            Some((level, muted)),
        ) == Some(OsdEvent::Volume { level, muted }),
        volume_change(last, None) is None,
{
}

} // verus!
